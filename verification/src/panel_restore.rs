//! Restoring a terminal panel, one step at a time.
//!
//! Creating panes and terminals takes work outside this library. [`PanelRestore`] decides what
//! is to be done next, and is told how it went.

use vstd::prelude::*;
use crate::layout::Layout;
use crate::layout::Pane;
use crate::layout::PaneItem;
use crate::layout::PaneView;
use crate::layout::RestoredLayout;
use crate::layout::RestoredMember;
use crate::layout::TerminalItem;
use crate::layout::index_view;
use crate::layout::pane_views;
use crate::layout::panes;
use crate::restore::deserialize_pane_group;
use crate::restore::first_active;
use crate::restore::populate_pane_items;
use crate::restore::populated_pane;
use crate::restore::restored_layout;
use crate::restore::restored_pinned_count;
use crate::restore::tab_to_activate;
use crate::saved::SavedItems;
use crate::saved::SavedPane;
use crate::saved::SavedPanel;
use crate::saved::SerializedItems;
use crate::saved::SerializedPane;
use crate::saved::SerializedTerminalPanel;
use crate::saved::saved_pane_views;
use crate::saved::saved_panes;

verus! {

/// A terminal panel: its split tree, the handle of its active pane, and whether it is still
/// being restored.
#[derive(Debug, PartialEq, Eq)]
pub struct TerminalPanel {
    pub center: RestoredMember,
    pub active_pane: u64,
    pub restoring: bool,
}

/// How a step of the outside work went.
#[derive(Debug, PartialEq, Eq)]
pub enum RestoreEvent {
    /// The pane that was asked for is there.
    PaneCreated(Pane),
    /// The terminals that were asked for are there, in the order in which they were asked for.
    TerminalsLoaded(Vec<TerminalItem>),
    /// The terminals stand in the pane.
    PanePopulated,
    /// The terminal that fills an empty pane is there.
    ShellCreated(TerminalItem),
    /// The step failed.
    Failed(String),
}

/// The next step of the outside work.
#[derive(Debug, PartialEq, Eq)]
pub enum RestoreAction {
    /// Create a pane.
    CreatePane,
    /// Load the terminals with these ids.
    LoadTerminals(Vec<u64>),
    /// Add the loaded terminals behind the tabs of the pane, then activate a tab and set the
    /// number of pinned tabs, where these are given.
    PopulatePane { activate: Option<usize>, pinned_count: Option<usize> },
    /// Create a terminal with a shell and add it to the pane.
    CreateShell,
    /// Everything is restored.
    Finish,
    /// Give the panel up.
    Abort(String),
}

/// How far the restoration has come. A pane in work is part of the stage.
#[derive(Debug, PartialEq, Eq)]
pub enum RestoreStage {
    CreatingPane,
    LoadingTerminals(Pane),
    PopulatingPane(Pane),
    CreatingShell(Pane),
    Finished,
    Failed,
}

/// What a [`RestoreEvent`] is.
pub enum EventView {
    PaneCreated(PaneView),
    TerminalsLoaded(Seq<TerminalItem>),
    PanePopulated,
    ShellCreated(TerminalItem),
    Failed(Seq<char>),
}

/// What a [`RestoreAction`] is.
pub enum ActionView {
    CreatePane,
    LoadTerminals(Seq<u64>),
    PopulatePane { activate: Option<int>, pinned_count: Option<nat> },
    CreateShell,
    Finish,
    Abort(Seq<char>),
}

/// What a [`RestoreStage`] is.
pub enum StageView {
    CreatingPane,
    LoadingTerminals(PaneView),
    PopulatingPane(PaneView),
    CreatingShell(PaneView),
    Finished,
    Failed,
}

/// What a [`PanelRestore`] is: the saved panel, the pane with which the new panel begins, the
/// panes that are restored, and the stage.
pub struct RestoreState {
    pub saved: SavedPanel,
    pub fresh_pane: PaneView,
    pub panes: Seq<PaneView>,
    pub stage: StageView,
}

impl View for RestoreEvent {
    type V = EventView;

    open spec fn view(&self) -> EventView {
        match *self {
            RestoreEvent::PaneCreated(pane) => EventView::PaneCreated(pane@),
            RestoreEvent::TerminalsLoaded(items) => EventView::TerminalsLoaded(items@),
            RestoreEvent::PanePopulated => EventView::PanePopulated,
            RestoreEvent::ShellCreated(item) => EventView::ShellCreated(item),
            RestoreEvent::Failed(error) => EventView::Failed(error@),
        }
    }
}

impl View for RestoreAction {
    type V = ActionView;

    open spec fn view(&self) -> ActionView {
        match *self {
            RestoreAction::CreatePane => ActionView::CreatePane,
            RestoreAction::LoadTerminals(item_ids) => ActionView::LoadTerminals(item_ids@),
            RestoreAction::PopulatePane { activate, pinned_count } => ActionView::PopulatePane {
                activate: index_view(activate),
                pinned_count: match pinned_count {
                    Some(count) => Some(count as nat),
                    None => None,
                },
            },
            RestoreAction::CreateShell => ActionView::CreateShell,
            RestoreAction::Finish => ActionView::Finish,
            RestoreAction::Abort(error) => ActionView::Abort(error@),
        }
    }
}

impl View for RestoreStage {
    type V = StageView;

    open spec fn view(&self) -> StageView {
        match *self {
            RestoreStage::CreatingPane => StageView::CreatingPane,
            RestoreStage::LoadingTerminals(pane) => StageView::LoadingTerminals(pane@),
            RestoreStage::PopulatingPane(pane) => StageView::PopulatingPane(pane@),
            RestoreStage::CreatingShell(pane) => StageView::CreatingShell(pane@),
            RestoreStage::Finished => StageView::Finished,
            RestoreStage::Failed => StageView::Failed,
        }
    }
}

impl SavedPanel {
    /// The panes to restore. A panel that was saved without splits has none: its tabs go into
    /// the pane with which the new panel begins.
    pub open spec fn split_panes(self) -> Seq<SavedPane> {
        match self.items {
            SavedItems::NoSplits(_) => Seq::empty(),
            SavedItems::WithSplits(layout) => saved_panes(layout),
        }
    }
}

impl RestoreState {
    /// Whether a state can come about.
    pub open spec fn is_valid(self) -> bool {
        match self.saved.items {
            SavedItems::NoSplits(_) => match self.stage {
                StageView::Finished => self.panes.len() == 1,
                StageView::CreatingPane | StageView::CreatingShell(_) => false,
                _ => self.panes.len() == 0,
            },
            SavedItems::WithSplits(_) => match self.stage {
                StageView::Finished => self.panes.len() == self.saved.split_panes().len(),
                StageView::Failed => true,
                _ => self.panes.len() < self.saved.split_panes().len(),
            },
        }
    }

    /// The saved form of the pane in work.
    pub open spec fn current(self) -> SavedPane {
        self.saved.split_panes()[self.panes.len() as int]
    }

    /// The state after `pane` is done, and what to do then: go on with the next saved pane, or
    /// finish after the last.
    pub open spec fn after_pane(self, pane: PaneView) -> (RestoreState, Option<ActionView>) {
        let panes = self.panes.push(pane);
        if panes.len() < self.saved.split_panes().len() {
            (
                RestoreState { panes, stage: StageView::CreatingPane, ..self },
                Some(ActionView::CreatePane),
            )
        } else {
            (RestoreState { panes, stage: StageView::Finished, ..self }, Some(ActionView::Finish))
        }
    }
}

/// A created pane with its loaded terminals, and with no more pinned tabs than it has tabs.
pub open spec fn filled_pane(
    pane: PaneView,
    saved: SavedPane,
    items: Seq<TerminalItem>,
) -> PaneView {
    let populated = populated_pane(pane, items, saved.active_item);
    PaneView {
        pinned_count: restored_pinned_count(saved.pinned_count, populated.items.len()),
        ..populated
    }
}

/// An empty pane with the terminal that fills it.
pub open spec fn pane_with_shell(pane: PaneView, shell: TerminalItem) -> PaneView {
    PaneView { items: pane.items.push(PaneItem::Terminal(shell)), ..pane }
}

/// The state in which a restoration begins, and its first step.
pub open spec fn restore_start(fresh_pane: PaneView, saved: SavedPanel) -> (
    RestoreState,
    ActionView,
) {
    let state = RestoreState {
        saved,
        fresh_pane,
        panes: Seq::empty(),
        stage: StageView::CreatingPane,
    };
    match saved.items {
        SavedItems::NoSplits(item_ids) => (
            RestoreState { stage: StageView::LoadingTerminals(fresh_pane), ..state },
            ActionView::LoadTerminals(item_ids),
        ),
        SavedItems::WithSplits(layout) => if saved_panes(layout).len() > 0 {
            (state, ActionView::CreatePane)
        } else {
            (RestoreState { stage: StageView::Finished, ..state }, ActionView::Finish)
        },
    }
}

/// The state after an event, and the step that follows it. An event that no step waits for
/// changes nothing.
pub open spec fn restore_step(state: RestoreState, event: EventView) -> (
    RestoreState,
    Option<ActionView>,
) {
    match (state.stage, event) {
        (StageView::Finished, _) | (StageView::Failed, _) => (state, None),
        (_, EventView::Failed(error)) => (
            RestoreState { stage: StageView::Failed, ..state },
            Some(ActionView::Abort(error)),
        ),
        (StageView::CreatingPane, EventView::PaneCreated(pane)) => (
            RestoreState { stage: StageView::LoadingTerminals(pane), ..state },
            Some(ActionView::LoadTerminals(state.current().children)),
        ),
        (StageView::LoadingTerminals(pane), EventView::TerminalsLoaded(items)) => {
            match state.saved.items {
                SavedItems::NoSplits(_) => {
                    let active_item = state.saved.active_item_id;
                    (
                        RestoreState {
                            stage: StageView::PopulatingPane(
                                populated_pane(pane, items, active_item),
                            ),
                            ..state
                        },
                        Some(
                            ActionView::PopulatePane {
                                activate: tab_to_activate(pane.items.len(), items, active_item),
                                pinned_count: None,
                            },
                        ),
                    )
                },
                SavedItems::WithSplits(_) => {
                    let saved = state.current();
                    let filled = filled_pane(pane, saved, items);
                    (
                        RestoreState { stage: StageView::PopulatingPane(filled), ..state },
                        Some(
                            ActionView::PopulatePane {
                                activate: tab_to_activate(
                                    pane.items.len(),
                                    items,
                                    saved.active_item,
                                ),
                                pinned_count: Some(filled.pinned_count),
                            },
                        ),
                    )
                },
            }
        },
        (StageView::PopulatingPane(pane), EventView::PanePopulated) => {
            if state.saved.items is WithSplits && pane.items.len() == 0 {
                (
                    RestoreState { stage: StageView::CreatingShell(pane), ..state },
                    Some(ActionView::CreateShell),
                )
            } else {
                state.after_pane(pane)
            }
        },
        (StageView::CreatingShell(pane), EventView::ShellCreated(shell)) => state.after_pane(
            pane_with_shell(pane, shell),
        ),
        _ => (state, None),
    }
}

/// The layout of a restored panel, and the handle of its active pane. A panel that was saved
/// with splits but without panes keeps the pane with which it begins.
pub open spec fn restored_panel(
    fresh_pane: PaneView,
    saved: SavedPanel,
    restored: Seq<PaneView>,
) -> (RestoredLayout, u64) {
    match saved.items {
        SavedItems::NoSplits(_) => (Layout::Pane(restored[0]), restored[0].id),
        SavedItems::WithSplits(layout) => match restored_layout(layout, restored) {
            Some(center) => (
                center,
                match first_active(saved_panes(layout), restored) {
                    Some(id) => id,
                    None => panes(center)[0].id,
                },
            ),
            None => (Layout::Pane(fresh_pane), fresh_pane.id),
        },
    }
}

/// The restoration of a terminal panel.
#[derive(Debug, PartialEq, Eq)]
pub struct PanelRestore {
    serialized: SerializedTerminalPanel,
    fresh_pane: Pane,
    split_panes: Vec<SerializedPane>,
    panes: Vec<Pane>,
    stage: RestoreStage,
}

impl View for PanelRestore {
    type V = RestoreState;

    closed spec fn view(&self) -> RestoreState {
        RestoreState {
            saved: self.serialized@,
            fresh_pane: self.fresh_pane@,
            panes: pane_views(self.panes@),
            stage: self.stage@,
        }
    }
}

impl PanelRestore {
    /// What holds of every restoration.
    pub closed spec fn wf(&self) -> bool {
        &&& self@.is_valid()
        &&& saved_pane_views(self.split_panes@) == self.serialized@.split_panes()
    }

    /// Begins to restore a saved panel into a new one that has the pane `fresh_pane`. Returns
    /// the restoration and its first step.
    pub fn start(fresh_pane: Pane, serialized: SerializedTerminalPanel) -> (started: (
        PanelRestore,
        RestoreAction,
    ))
        ensures
            started.0.wf(),
            started.0@.is_valid(),
            (started.0@, started.1@) == restore_start(fresh_pane@, serialized@),
    {
        let mut split_panes: Vec<SerializedPane> = Vec::new();
        let panes: Vec<Pane> = Vec::new();
        assert(pane_views(panes@) =~= Seq::empty());
        assert(saved_pane_views(split_panes@) =~= Seq::empty());
        match &serialized.items {
            SerializedItems::NoSplits(item_ids) => {
                let item_ids = item_ids.clone();
                assert(item_ids@ =~= serialized.items->NoSplits_0@);
                let stage = RestoreStage::LoadingTerminals(fresh_pane.clone());
                (
                    PanelRestore { serialized, fresh_pane, split_panes, panes, stage },
                    RestoreAction::LoadTerminals(item_ids),
                )
            },
            SerializedItems::WithSplits(group) => {
                group.collect_panes(&mut split_panes);
                assert(saved_pane_views(split_panes@) =~= saved_panes(group@));
                if split_panes.len() > 0 {
                    let stage = RestoreStage::CreatingPane;
                    (
                        PanelRestore { serialized, fresh_pane, split_panes, panes, stage },
                        RestoreAction::CreatePane,
                    )
                } else {
                    let stage = RestoreStage::Finished;
                    (
                        PanelRestore { serialized, fresh_pane, split_panes, panes, stage },
                        RestoreAction::Finish,
                    )
                }
            },
        }
    }

    /// Takes the news of how the last step went. Returns the restoration as it is then, and the
    /// next step; `None` where the event is not one that the last step can lead to.
    pub fn step(self, event: RestoreEvent) -> (next: (PanelRestore, Option<RestoreAction>))
        requires
            self.wf(),
        ensures
            next.0.wf(),
            next.0@.is_valid(),
            next.0@ == restore_step(self@, event@).0,
            match next.1 {
                Some(action) => restore_step(self@, event@).1 == Some(action@),
                None => restore_step(self@, event@).1 is None,
            },
    {
        let PanelRestore { serialized, fresh_pane, split_panes, panes, stage } = self;
        match (stage, event) {
            (RestoreStage::Finished, _) => {
                let stage = RestoreStage::Finished;
                (PanelRestore { serialized, fresh_pane, split_panes, panes, stage }, None)
            },
            (RestoreStage::Failed, _) => {
                let stage = RestoreStage::Failed;
                (PanelRestore { serialized, fresh_pane, split_panes, panes, stage }, None)
            },
            (_, RestoreEvent::Failed(error)) => {
                let stage = RestoreStage::Failed;
                (
                    PanelRestore { serialized, fresh_pane, split_panes, panes, stage },
                    Some(RestoreAction::Abort(error)),
                )
            },
            (RestoreStage::CreatingPane, RestoreEvent::PaneCreated(pane)) => {
                let current = &split_panes[panes.len()];
                assert(saved_pane_views(split_panes@)[panes@.len() as int] == current@);
                let item_ids = current.children.clone();
                assert(item_ids@ =~= current.children@);
                let stage = RestoreStage::LoadingTerminals(pane);
                (
                    PanelRestore { serialized, fresh_pane, split_panes, panes, stage },
                    Some(RestoreAction::LoadTerminals(item_ids)),
                )
            },
            (RestoreStage::LoadingTerminals(mut pane), RestoreEvent::TerminalsLoaded(items)) => {
                let action = match &serialized.items {
                    SerializedItems::NoSplits(_) => {
                        let activate = populate_pane_items(
                            &mut pane,
                            &items,
                            serialized.active_item_id,
                        );
                        RestoreAction::PopulatePane { activate, pinned_count: None }
                    },
                    SerializedItems::WithSplits(_) => {
                        let current = &split_panes[panes.len()];
                        assert(saved_pane_views(split_panes@)[panes@.len() as int] == current@);
                        let activate = populate_pane_items(&mut pane, &items, current.active_item);
                        let pinned_count = if current.pinned_count <= pane.items.len() {
                            current.pinned_count
                        } else {
                            pane.items.len()
                        };
                        pane.pinned_count = pinned_count;
                        RestoreAction::PopulatePane { activate, pinned_count: Some(pinned_count) }
                    },
                };
                let stage = RestoreStage::PopulatingPane(pane);
                (
                    PanelRestore { serialized, fresh_pane, split_panes, panes, stage },
                    Some(action),
                )
            },
            (RestoreStage::PopulatingPane(pane), RestoreEvent::PanePopulated) => {
                let has_splits = match &serialized.items {
                    SerializedItems::NoSplits(_) => false,
                    SerializedItems::WithSplits(_) => true,
                };
                if has_splits && pane.items.len() == 0 {
                    let stage = RestoreStage::CreatingShell(pane);
                    (
                        PanelRestore { serialized, fresh_pane, split_panes, panes, stage },
                        Some(RestoreAction::CreateShell),
                    )
                } else {
                    let stage = RestoreStage::Finished;
                    let restore = PanelRestore {
                        serialized,
                        fresh_pane,
                        split_panes,
                        panes,
                        stage,
                    };
                    restore.after_pane(pane)
                }
            },
            (RestoreStage::CreatingShell(mut pane), RestoreEvent::ShellCreated(shell)) => {
                pane.items.push(PaneItem::Terminal(shell));
                let stage = RestoreStage::Finished;
                let restore = PanelRestore { serialized, fresh_pane, split_panes, panes, stage };
                restore.after_pane(pane)
            },
            (stage, _) => {
                (PanelRestore { serialized, fresh_pane, split_panes, panes, stage }, None)
            },
        }
    }

    fn after_pane(self, pane: Pane) -> (next: (PanelRestore, Option<RestoreAction>))
        requires
            saved_pane_views(self.split_panes@) == self.serialized@.split_panes(),
            match self.serialized@.items {
                SavedItems::NoSplits(_) => self.panes.len() == 0,
                SavedItems::WithSplits(_) => self.panes.len() < self.split_panes.len(),
            },
        ensures
            next.0.wf(),
            next.0@ == self@.after_pane(pane@).0,
            next.1 matches Some(action) && Some(action@) == self@.after_pane(pane@).1,
    {
        let PanelRestore { serialized, fresh_pane, split_panes, mut panes, stage } = self;
        panes.push(pane);
        assert(pane_views(panes@) =~= pane_views(self.panes@).push(pane@));
        if panes.len() < split_panes.len() {
            let stage = RestoreStage::CreatingPane;
            (
                PanelRestore { serialized, fresh_pane, split_panes, panes, stage },
                Some(RestoreAction::CreatePane),
            )
        } else {
            let stage = RestoreStage::Finished;
            (
                PanelRestore { serialized, fresh_pane, split_panes, panes, stage },
                Some(RestoreAction::Finish),
            )
        }
    }

    /// Whether the panel is still being restored. A panel that was given up stays so.
    pub fn is_restoring(&self) -> (restoring: bool)
        ensures
            restoring == !(self@.stage is Finished),
    {
        match self.stage {
            RestoreStage::Finished => false,
            _ => true,
        }
    }

    /// The restored panel; `None` unless everything is restored.
    pub fn finish(self) -> (panel: Option<TerminalPanel>)
        requires
            self.wf(),
        ensures
            match panel {
                Some(panel) => {
                    &&& self@.stage is Finished
                    &&& !panel.restoring
                    &&& (panel.center@, panel.active_pane) == restored_panel(
                        self@.fresh_pane,
                        self@.saved,
                        self@.panes,
                    )
                },
                None => !(self@.stage is Finished),
            },
    {
        let PanelRestore { serialized, fresh_pane, split_panes, mut panes, stage } = self;
        match stage {
            RestoreStage::Finished => {},
            _ => {
                return None;
            },
        }
        match &serialized.items {
            SerializedItems::NoSplits(_) => {
                assert(pane_views(panes@)[0] == panes@[0]@);
                let pane = panes.remove(0);
                let active_pane = pane.id;
                Some(TerminalPanel { center: RestoredMember::Pane(pane), active_pane, restoring: false })
            },
            SerializedItems::WithSplits(group) => {
                proof {
                    crate::restore::law_restored_splits_have_members(group@, pane_views(panes@));
                }
                match deserialize_pane_group(group, &panes) {
                    Some((center, active_pane)) => {
                        let active_pane = match active_pane {
                            Some(id) => id,
                            None => center.first_pane(),
                        };
                        Some(TerminalPanel { center, active_pane, restoring: false })
                    },
                    None => {
                        let active_pane = fresh_pane.id;
                        let center = RestoredMember::Pane(fresh_pane);
                        Some(TerminalPanel { center, active_pane, restoring: false })
                    },
                }
            },
        }
    }
}

} // verus!
