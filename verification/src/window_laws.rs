//! What carrying out the steps of a restoration does to a window.

use vstd::prelude::*;
use crate::layout::PaneItem;
use crate::layout::PaneView;
use crate::layout::RestoredLayout;
use crate::layout::TerminalItem;
use crate::layout::is_normal;
use crate::layout::panes;
use crate::panel_restore::ActionView;
use crate::panel_restore::EventView;
use crate::panel_restore::RestoreState;
use crate::panel_restore::StageView;
use crate::panel_restore::restore_start;
use crate::panel_restore::restore_step;
use crate::panel_restore::restored_panel;
use crate::restore::law_populating_adds_tabs_behind;
use crate::restore::law_the_first_active_pane_counts;
use crate::restore::law_the_last_match_is_activated;
use crate::restore::restored_layout;
use crate::saved::SavedItems;
use crate::saved::SavedLayout;
use crate::saved::SavedPane;
use crate::saved::SavedPanel;
use crate::saved::saved_panes;

verus! {

/// What an editor gives to a window: the panes that it creates, by their number, the terminal that
/// it loads for an id, and the shell that it creates for the pane with a number.
pub struct Editor {
    pub created: spec_fn(nat) -> PaneView,
    pub load: spec_fn(u64) -> TerminalItem,
    pub shell: spec_fn(nat) -> TerminalItem,
}

/// A window with a panel: the panes that it shows, of which the last is in work, and the terminals
/// that are loaded but stand in no pane yet.
pub struct Window {
    pub panes: Seq<PaneView>,
    pub loaded: Seq<TerminalItem>,
}

impl Window {
    /// The pane in work.
    pub open spec fn current(self) -> PaneView {
        self.panes.last()
    }

    /// The window after the pane in work has changed.
    pub open spec fn with_current(self, pane: PaneView) -> Window {
        Window { panes: self.panes.drop_last().push(pane), ..self }
    }
}

/// What a window does when it is told to carry out an action, and the news of it. After the last
/// action there is nothing to tell.
pub open spec fn carry_out(editor: Editor, window: Window, action: ActionView) -> (
    Window,
    Option<EventView>,
) {
    match action {
        ActionView::CreatePane => {
            let pane = (editor.created)((window.panes.len() - 1) as nat);
            (
                Window { panes: window.panes.push(pane), ..window },
                Some(EventView::PaneCreated(pane)),
            )
        },
        ActionView::LoadTerminals(ids) => {
            let loaded = ids.map_values(editor.load);
            (Window { loaded, ..window }, Some(EventView::TerminalsLoaded(loaded)))
        },
        ActionView::PopulatePane { activate, pinned_count } => {
            let pane = window.current();
            let tabs = Seq::new(
                window.loaded.len(),
                |i: int| PaneItem::Terminal(window.loaded[i]),
            );
            let populated = PaneView {
                id: pane.id,
                items: pane.items + tabs,
                active_item: match activate {
                    Some(index) => Some(index),
                    None => pane.active_item,
                },
                pinned_count: match pinned_count {
                    Some(count) => count,
                    None => pane.pinned_count,
                },
            };
            (
                Window { loaded: Seq::empty(), ..window.with_current(populated) },
                Some(EventView::PanePopulated),
            )
        },
        ActionView::CreateShell => {
            let pane = window.current();
            let shell = (editor.shell)((window.panes.len() - 2) as nat);
            (
                window.with_current(
                    PaneView { items: pane.items.push(PaneItem::Terminal(shell)), ..pane },
                ),
                Some(EventView::ShellCreated(shell)),
            )
        },
        ActionView::Finish | ActionView::Abort(_) => (window, None),
    }
}

/// A restoration under way: its state, the window, and the action to carry out next.
pub struct Progress {
    pub state: RestoreState,
    pub window: Window,
    pub action: Option<ActionView>,
}

/// A restoration that begins in a window whose panel has one pane.
pub open spec fn begin(fresh_pane: PaneView, saved: SavedPanel) -> Progress {
    Progress {
        state: restore_start(fresh_pane, saved).0,
        window: Window { panes: seq![fresh_pane], loaded: Seq::empty() },
        action: Some(restore_start(fresh_pane, saved).1),
    }
}

/// The window carries out the action, and the restoration takes the news of it.
pub open spec fn one_round(editor: Editor, progress: Progress) -> Progress {
    match progress.action {
        Some(action) => match carry_out(editor, progress.window, action) {
            (window, Some(event)) => {
                let (state, action) = restore_step(progress.state, event);
                Progress { state, window, action }
            },
            (_, None) => progress,
        },
        None => progress,
    }
}

/// The restoration after a number of rounds.
pub open spec fn after_rounds(editor: Editor, progress: Progress, rounds: nat) -> Progress
    decreases rounds,
{
    if rounds == 0 {
        progress
    } else {
        one_round(editor, after_rounds(editor, progress, (rounds - 1) as nat))
    }
}

/// Whether `pane` is `start` with the terminals that are loaded for `ids` behind its tabs, in
/// their order. The active tab is the last of them that has the id `active_item`; without one it
/// is that of `start`.
pub open spec fn holds_terminals(
    editor: Editor,
    start: PaneView,
    ids: Seq<u64>,
    active_item: Option<u64>,
    pane: PaneView,
) -> bool {
    let count = start.items.len() as int;
    &&& pane.id == start.id
    &&& pane.items.len() == count + ids.len()
    &&& forall|i: int| 0 <= i < count ==> #[trigger] pane.items[i] == start.items[i]
    &&& forall|i: int|
        count <= i < count + ids.len() ==> #[trigger] pane.items[i] == PaneItem::Terminal(
            (editor.load)(ids[i - count]),
        )
    &&& {
        ||| exists|j: int|
            is_last_match(editor, ids, active_item, j) && pane.active_item == Some(count + j)
        ||| pane.active_item == start.active_item && forall|i: int|
            0 <= i < ids.len() ==> Some((editor.load)(#[trigger] ids[i]).serialized_item_id)
                != active_item
    }
}

/// Whether the terminal that is loaded for the id at an index is the last one that has the id
/// `active_item`.
pub open spec fn is_last_match(
    editor: Editor,
    ids: Seq<u64>,
    active_item: Option<u64>,
    index: int,
) -> bool {
    &&& 0 <= index < ids.len()
    &&& Some((editor.load)(ids[index]).serialized_item_id) == active_item
    &&& forall|i: int|
        index < i < ids.len() ==> Some((editor.load)(#[trigger] ids[i]).serialized_item_id)
            != active_item
}

/// Whether `pane` is what becomes of a saved pane, if `start` is created for it: `start` with the
/// saved tabs, the saved active tab, and the saved number of pinned tabs or as many as there are
/// tabs. Without any tab it holds a shell, which is not pinned.
pub open spec fn stands_for(
    editor: Editor,
    saved: SavedPane,
    start: PaneView,
    shell: TerminalItem,
    pane: PaneView,
) -> bool {
    let count = start.items.len() + saved.children.len();
    if count == 0 {
        &&& pane.id == start.id
        &&& pane.items == seq![PaneItem::Terminal(shell)]
        &&& pane.active_item == start.active_item
        &&& pane.pinned_count == 0
    } else {
        &&& holds_terminals(editor, start, saved.children, saved.active_item, pane)
        &&& pane.pinned_count <= saved.pinned_count
        &&& pane.pinned_count <= count
        &&& pane.pinned_count == saved.pinned_count || pane.pinned_count == count
    }
}

proof fn lemma_rounds_add(editor: Editor, progress: Progress, first: nat, second: nat)
    ensures
        after_rounds(editor, progress, first + second) == after_rounds(
            editor,
            after_rounds(editor, progress, first),
            second,
        ),
    decreases second,
{
    if second > 0 {
        lemma_rounds_add(editor, progress, first, (second - 1) as nat);
    }
}

proof fn lemma_finish_is_last(editor: Editor, progress: Progress, rounds: nat)
    requires
        progress.action == Some(ActionView::Finish),
    ensures
        after_rounds(editor, progress, rounds) == progress,
    decreases rounds,
{
    if rounds > 0 {
        lemma_finish_is_last(editor, progress, (rounds - 1) as nat);
    }
}

/// The state, the window and the action after the loaded terminals were put into the pane in work
/// fit together.
proof fn lemma_populating_round(
    editor: Editor,
    start: PaneView,
    ids: Seq<u64>,
    active_item: Option<u64>,
)
    ensures
        ({
            let loaded = ids.map_values(editor.load);
            let populated = crate::restore::populated_pane(start, loaded, active_item);
            let tabs = Seq::new(loaded.len(), |i: int| PaneItem::Terminal(loaded[i]));
            &&& holds_terminals(editor, start, ids, active_item, populated)
            &&& populated.items == start.items + tabs
            &&& populated.active_item == match crate::restore::tab_to_activate(
                start.items.len(),
                loaded,
                active_item,
            ) {
                Some(index) => Some(index),
                None => start.active_item,
            }
            &&& populated.pinned_count == start.pinned_count
        }),
{
    let loaded = ids.map_values(editor.load);
    let populated = crate::restore::populated_pane(start, loaded, active_item);
    let tabs = Seq::new(loaded.len(), |i: int| PaneItem::Terminal(loaded[i]));
    law_the_last_match_is_activated(start.items.len(), loaded, active_item);
    law_populating_adds_tabs_behind(start, loaded, active_item);
    assert(populated.items =~= start.items + tabs);
    match crate::restore::tab_to_activate(start.items.len(), loaded, active_item) {
        Some(index) => {
            let j = index - start.items.len();
            assert forall|i: int| j < i < ids.len() implies Some(
                (editor.load)(#[trigger] ids[i]).serialized_item_id,
            ) != active_item by {
                assert(loaded[i] == (editor.load)(ids[i]));
            }
            assert(is_last_match(editor, ids, active_item, j));
        },
        None => {
            assert forall|i: int| 0 <= i < ids.len() implies Some(
                (editor.load)(#[trigger] ids[i]).serialized_item_id,
            ) != active_item by {
                assert(loaded[i] == (editor.load)(ids[i]));
            }
        },
    }
}

/// The rounds for one saved pane.
proof fn lemma_rounds_for_a_pane(editor: Editor, progress: Progress) -> (rounds: nat)
    requires
        progress.state.saved.items is WithSplits,
        progress.state.stage == StageView::CreatingPane,
        progress.state.panes.len() < progress.state.saved.split_panes().len(),
        progress.action == Some(ActionView::CreatePane),
        progress.window.panes.len() == progress.state.panes.len() + 1,
    ensures
        1 <= rounds <= 4,
        ({
            let next = after_rounds(editor, progress, rounds);
            let number = progress.state.panes.len();
            let pane = next.window.current();
            &&& stands_for(
                editor,
                progress.state.saved.split_panes()[number as int],
                (editor.created)(number),
                (editor.shell)(number),
                pane,
            )
            &&& next.state.saved == progress.state.saved
            &&& next.state.fresh_pane == progress.state.fresh_pane
            &&& next.state.panes == progress.state.panes.push(pane)
            &&& next.window.panes == progress.window.panes.push(pane)
            &&& if number + 1 < progress.state.saved.split_panes().len() {
                &&& next.state.stage == StageView::CreatingPane
                &&& next.action == Some(ActionView::CreatePane)
            } else {
                &&& next.state.stage == StageView::Finished
                &&& next.action == Some(ActionView::Finish)
            }
        }),
{
    let number = progress.state.panes.len();
    let saved = progress.state.saved.split_panes()[number as int];
    let start = (editor.created)(number);
    reveal_with_fuel(after_rounds, 5);
    let first = after_rounds(editor, progress, 1);
    let second = after_rounds(editor, progress, 2);
    let third = after_rounds(editor, progress, 3);
    let fourth = after_rounds(editor, progress, 4);
    lemma_populating_round(editor, start, saved.children, saved.active_item);
    assert(first == one_round(editor, progress));
    assert(first.window.panes == progress.window.panes.push(start));
    assert(second == one_round(editor, first));
    assert(second.window.panes == first.window.panes);
    assert(third == one_round(editor, second));
    assert(first.window.panes.drop_last() =~= progress.window.panes);
    assert(third.window.panes =~= progress.window.panes.push(third.window.current()));
    if start.items.len() + saved.children.len() == 0 {
        assert(fourth == one_round(editor, third));
        assert(third.window.panes.drop_last() =~= progress.window.panes);
        let pane = fourth.window.current();
        assert(pane.items =~= seq![PaneItem::Terminal((editor.shell)(number))]);
        4
    } else {
        3
    }
}

proof fn lemma_rounds_for_panes(
    editor: Editor,
    fresh_pane: PaneView,
    saved: SavedPanel,
    count: nat,
) -> (rounds: nat)
    requires
        saved.items is WithSplits,
        count <= saved.split_panes().len(),
    ensures
        rounds <= 4 * count,
        ({
            let done = after_rounds(editor, begin(fresh_pane, saved), rounds);
            &&& done.state.saved == saved
            &&& done.state.fresh_pane == fresh_pane
            &&& done.state.panes.len() == count
            &&& done.window.panes == seq![fresh_pane] + done.state.panes
            &&& forall|i: int|
                0 <= i < count ==> stands_for(
                    editor,
                    saved.split_panes()[i],
                    (editor.created)(i as nat),
                    (editor.shell)(i as nat),
                    #[trigger] done.state.panes[i],
                )
            &&& if count < saved.split_panes().len() {
                &&& done.state.stage == StageView::CreatingPane
                &&& done.action == Some(ActionView::CreatePane)
            } else {
                &&& done.state.stage == StageView::Finished
                &&& done.action == Some(ActionView::Finish)
            }
        }),
    decreases count,
{
    let start = begin(fresh_pane, saved);
    if count == 0 {
        assert(start.window.panes =~= seq![fresh_pane] + start.state.panes);
        0
    } else {
        let before = lemma_rounds_for_panes(editor, fresh_pane, saved, (count - 1) as nat);
        let middle = after_rounds(editor, start, before);
        let more = lemma_rounds_for_a_pane(editor, middle);
        lemma_rounds_add(editor, start, before, more);
        let done = after_rounds(editor, start, before + more);
        assert(done.window.panes =~= seq![fresh_pane] + done.state.panes);
        assert forall|i: int| 0 <= i < count implies stands_for(
            editor,
            saved.split_panes()[i],
            (editor.created)(i as nat),
            (editor.shell)(i as nat),
            #[trigger] done.state.panes[i],
        ) by {
            if i < count - 1 {
                assert(done.state.panes[i] == middle.state.panes[i]);
            }
        }
        before + more
    }
}

/// A window that carries out what the restoration of a panel with splits asks for shows, behind
/// the pane with which it began, one pane for each saved one, in their order: with the saved
/// tabs, the saved active tab and the saved pinned tabs, or with a shell where there are no tabs.
/// These are the panes that the restoration knows of. Nothing is left to do then.
pub proof fn law_a_window_shows_the_saved_panes(
    editor: Editor,
    fresh_pane: PaneView,
    layout: SavedLayout,
    active_item_id: Option<u64>,
)
    ensures
        ({
            let saved = SavedPanel { items: SavedItems::WithSplits(layout), active_item_id };
            let all = saved_panes(layout);
            let last = after_rounds(editor, begin(fresh_pane, saved), 4 * all.len());
            &&& last.action == Some(ActionView::Finish)
            &&& last.state.stage == StageView::Finished
            &&& last.state.saved == saved
            &&& last.state.fresh_pane == fresh_pane
            &&& last.window.panes.len() == all.len() + 1
            &&& last.window.panes[0] == fresh_pane
            &&& last.window.panes.skip(1) == last.state.panes
            &&& forall|i: int|
                0 <= i < all.len() ==> stands_for(
                    editor,
                    all[i],
                    (editor.created)(i as nat),
                    (editor.shell)(i as nat),
                    #[trigger] last.state.panes[i],
                )
        }),
{
    let saved = SavedPanel { items: SavedItems::WithSplits(layout), active_item_id };
    let count = saved_panes(layout).len();
    let rounds = lemma_rounds_for_panes(editor, fresh_pane, saved, count);
    let start = begin(fresh_pane, saved);
    let done = after_rounds(editor, start, rounds);
    let rest = (4 * count - rounds) as nat;
    lemma_rounds_add(editor, start, rounds, rest);
    lemma_finish_is_last(editor, done, rest);
    assert(done.window.panes.skip(1) =~= done.state.panes);
}

/// A window that carries out what the restoration of a panel without splits asks for shows the
/// pane with which it began, with the saved tabs behind its own. The tab that was saved as the
/// active one is active, and as many tabs are pinned as before. This is the pane that the
/// restoration knows of. Nothing is left to do then.
pub proof fn law_a_window_shows_the_saved_tabs(
    editor: Editor,
    fresh_pane: PaneView,
    item_ids: Seq<u64>,
    active_item_id: Option<u64>,
)
    ensures
        ({
            let saved = SavedPanel { items: SavedItems::NoSplits(item_ids), active_item_id };
            let last = after_rounds(editor, begin(fresh_pane, saved), 2);
            &&& last.action == Some(ActionView::Finish)
            &&& last.state.stage == StageView::Finished
            &&& last.state.saved == saved
            &&& last.state.fresh_pane == fresh_pane
            &&& last.window.panes.len() == 1
            &&& last.state.panes == last.window.panes
            &&& holds_terminals(
                editor,
                fresh_pane,
                item_ids,
                active_item_id,
                last.window.panes[0],
            )
            &&& last.window.panes[0].pinned_count == fresh_pane.pinned_count
        }),
{
    let saved = SavedPanel { items: SavedItems::NoSplits(item_ids), active_item_id };
    reveal_with_fuel(after_rounds, 3);
    let start = begin(fresh_pane, saved);
    let first = after_rounds(editor, start, 1);
    let second = after_rounds(editor, start, 2);
    lemma_populating_round(editor, fresh_pane, item_ids, active_item_id);
    assert(first == one_round(editor, start));
    assert(second == one_round(editor, first));
    assert(second.state.panes =~= seq![second.state.panes[0]]);
    assert(second.window.panes =~= second.state.panes);
}

/// The action that answers the loading of terminals, in every state that waits for them. Carried
/// out on the pane in work, it gives the pane with which the restoration goes on: the terminals
/// behind the tabs, the last of them with the saved active id active, and, in a panel with splits,
/// as many tabs pinned as were saved or as there are. In a panel without splits the pinned tabs
/// are not touched.
pub proof fn law_loaded_terminals_are_put_into_the_pane(
    state: RestoreState,
    pane: PaneView,
    items: Seq<TerminalItem>,
)
    requires
        state.stage == StageView::LoadingTerminals(pane),
    ensures
        ({
            let (next, answer) = restore_step(state, EventView::TerminalsLoaded(items));
            let count = pane.items.len() as int;
            let total = count + items.len();
            let active_item = match state.saved.items {
                SavedItems::NoSplits(_) => state.saved.active_item_id,
                SavedItems::WithSplits(layout) => saved_panes(
                    layout,
                )[state.panes.len() as int].active_item,
            };
            &&& next.saved == state.saved
            &&& next.fresh_pane == state.fresh_pane
            &&& next.panes == state.panes
            &&& next.stage matches StageView::PopulatingPane(populated)
            &&& answer matches Some(ActionView::PopulatePane { activate, pinned_count })
            &&& match activate {
                Some(index) => {
                    &&& count <= index < total
                    &&& Some(items[index - count].serialized_item_id) == active_item
                    &&& forall|i: int|
                        index - count < i < items.len() ==> Some(
                            (#[trigger] items[i]).serialized_item_id,
                        ) != active_item
                },
                None => forall|i: int|
                    0 <= i < items.len() ==> Some((#[trigger] items[i]).serialized_item_id)
                        != active_item,
            }
            &&& match state.saved.items {
                SavedItems::NoSplits(_) => pinned_count is None,
                SavedItems::WithSplits(layout) => {
                    let saved = saved_panes(layout)[state.panes.len() as int].pinned_count;
                    pinned_count == Some(
                        if saved < total {
                            saved
                        } else {
                            total as nat
                        },
                    )
                },
            }
            &&& populated.id == pane.id
            &&& populated.items.len() == total
            &&& forall|i: int| 0 <= i < count ==> #[trigger] populated.items[i] == pane.items[i]
            &&& forall|i: int|
                count <= i < total ==> #[trigger] populated.items[i] == PaneItem::Terminal(
                    items[i - count],
                )
            &&& populated.active_item == match activate {
                Some(index) => Some(index),
                None => pane.active_item,
            }
            &&& populated.pinned_count == match pinned_count {
                Some(pinned) => pinned,
                None => pane.pinned_count,
            }
        }),
{
    let active_item = match state.saved.items {
        SavedItems::NoSplits(_) => state.saved.active_item_id,
        SavedItems::WithSplits(layout) => saved_panes(
            layout,
        )[state.panes.len() as int].active_item,
    };
    law_the_last_match_is_activated(pane.items.len(), items, active_item);
    law_populating_adds_tabs_behind(pane, items, active_item);
}

/// A step that fails ends a restoration that is under way: the panel is given up for the reason
/// that was told, and what was restored is not touched.
pub proof fn law_a_failed_step_gives_the_panel_up(state: RestoreState, error: Seq<char>)
    requires
        !(state.stage is Finished),
        !(state.stage is Failed),
    ensures
        ({
            let (next, answer) = restore_step(state, EventView::Failed(error));
            &&& next.stage is Failed
            &&& next.saved == state.saved
            &&& next.fresh_pane == state.fresh_pane
            &&& next.panes == state.panes
            &&& answer == Some(ActionView::Abort(error))
        }),
{
}

/// News that the restoration does not wait for change nothing and are not answered: those of a
/// step that was not asked for, and all news once the restoration has come to an end.
pub proof fn law_news_out_of_turn_change_nothing(state: RestoreState, event: EventView)
    requires
        match state.stage {
            StageView::CreatingPane => !(event is PaneCreated || event is Failed),
            StageView::LoadingTerminals(_) => !(event is TerminalsLoaded || event is Failed),
            StageView::PopulatingPane(_) => !(event is PanePopulated || event is Failed),
            StageView::CreatingShell(_) => !(event is ShellCreated || event is Failed),
            StageView::Finished | StageView::Failed => true,
        },
    ensures
        restore_step(state, event) == (state, None::<ActionView>),
{
}

/// The restored panel has exactly the restored panes, in their order, and no split of less than
/// two members. Its active pane is the one that stands for the first saved pane that was active;
/// if none was, it is the first pane. A panel that was saved without splits has its one pane, and
/// one that was saved without panes keeps the pane with which it began.
pub proof fn law_the_panel_has_the_restored_panes(
    fresh_pane: PaneView,
    saved: SavedPanel,
    restored: Seq<PaneView>,
)
    requires
        match saved.items {
            SavedItems::NoSplits(_) => restored.len() == 1,
            SavedItems::WithSplits(layout) => restored.len() == saved_panes(layout).len(),
        },
    ensures
        ({
            let (center, active_pane) = restored_panel(fresh_pane, saved, restored);
            match saved.items {
                SavedItems::NoSplits(_) => {
                    &&& center == RestoredLayout::Pane(restored[0])
                    &&& active_pane == restored[0].id
                },
                SavedItems::WithSplits(layout) => if restored.len() == 0 {
                    &&& center == RestoredLayout::Pane(fresh_pane)
                    &&& active_pane == fresh_pane.id
                } else {
                    let all = saved_panes(layout);
                    &&& restored_layout(layout, restored) == Some(center)
                    &&& panes(center) == restored
                    &&& is_normal(center)
                    &&& {
                        ||| exists|i: int|
                            0 <= i < all.len() && (#[trigger] all[i]).active && restored[i].id
                                == active_pane && forall|j: int|
                                0 <= j < i ==> !(#[trigger] all[j]).active
                        ||| active_pane == restored[0].id && forall|i: int|
                            0 <= i < all.len() ==> !(#[trigger] all[i]).active
                    }
                },
            }
        }),
{
    if let SavedItems::WithSplits(layout) = saved.items {
        crate::layout_laws::law_every_pane_comes_back(layout, restored);
        crate::restore::lemma_restored_is_none(layout, restored);
        crate::restore::law_restored_splits_have_members(layout, restored);
        law_the_first_active_pane_counts(saved_panes(layout), restored);
    }
}

} // verus!
