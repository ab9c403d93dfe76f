//! What saving and restoring a layout do together.

use vstd::prelude::*;
use crate::layout::Layout;
use crate::layout::LiveLayout;
use crate::layout::PaneItem;
use crate::layout::PaneView;
use crate::layout::RestoredLayout;
use crate::layout::TerminalItem;
use crate::layout::all_normal;
use crate::layout::is_normal;
use crate::layout::panes;
use crate::layout::panes_all;
use crate::panel_restore::ActionView;
use crate::panel_restore::EventView;
use crate::panel_restore::RestoreState;
use crate::panel_restore::StageView;
use crate::panel_restore::filled_pane;
use crate::panel_restore::pane_with_shell;
use crate::panel_restore::restore_start;
use crate::panel_restore::restore_step;
use crate::panel_restore::restored_panel;
use crate::restore::first_active;
use crate::restore::lemma_restored_is_none;
use crate::restore::populated_pane;
use crate::restore::restored_layout;
use crate::restore::restored_layouts;
use crate::restore::restored_pinned_count;
use crate::restore::tab_to_activate;
use crate::saved::SavedItems;
use crate::saved::SavedLayout;
use crate::saved::SavedPane;
use crate::saved::SavedPanel;
use crate::saved::saved_panes;
use crate::saved::saved_panes_all;
use crate::serialize::persistent_ids;
use crate::serialize::saved_layout;
use crate::serialize::saved_layouts;
use crate::serialize::saved_pane;

verus! {

/// What the outside work for one saved pane brought: the pane that was created, the terminals
/// that were loaded, and the terminal that is created if the pane would stay empty.
pub struct PaneOutcome {
    pub created: PaneView,
    pub loaded: Seq<TerminalItem>,
    pub shell: TerminalItem,
}

/// The pane that stands for a saved one.
pub open spec fn outcome_pane(saved: SavedPane, outcome: PaneOutcome) -> PaneView {
    let filled = filled_pane(outcome.created, saved, outcome.loaded);
    if filled.items.len() == 0 {
        pane_with_shell(filled, outcome.shell)
    } else {
        filled
    }
}

/// The panes that stand for saved ones, one for each.
pub open spec fn outcome_panes(saved: Seq<SavedPane>, outcomes: Seq<PaneOutcome>) -> Seq<PaneView> {
    Seq::new(saved.len(), |i: int| outcome_pane(saved[i], outcomes[i]))
}

/// The events by which a restoration learns of the outside work for one saved pane.
pub open spec fn outcome_events(saved: SavedPane, outcome: PaneOutcome) -> Seq<EventView> {
    let events = seq![
        EventView::PaneCreated(outcome.created),
        EventView::TerminalsLoaded(outcome.loaded),
        EventView::PanePopulated,
    ];
    if filled_pane(outcome.created, saved, outcome.loaded).items.len() == 0 {
        events.push(EventView::ShellCreated(outcome.shell))
    } else {
        events
    }
}

/// The events by which a restoration learns of the outside work for a sequence of saved panes.
pub open spec fn all_events(saved: Seq<SavedPane>, outcomes: Seq<PaneOutcome>) -> Seq<EventView>
    decreases saved.len(),
{
    if saved.len() == 0 {
        Seq::empty()
    } else {
        all_events(saved.drop_last(), outcomes) + outcome_events(
            saved.last(),
            outcomes[saved.len() - 1],
        )
    }
}

/// The state to which a sequence of events leads.
pub open spec fn run(state: RestoreState, events: Seq<EventView>) -> RestoreState
    decreases events.len(),
{
    if events.len() == 0 {
        state
    } else {
        restore_step(run(state, events.drop_last()), events.last()).0
    }
}

proof fn lemma_run_push(state: RestoreState, events: Seq<EventView>, event: EventView)
    ensures
        run(state, events.push(event)) == restore_step(run(state, events), event).0,
{
    assert(events.push(event).drop_last() =~= events);
}

proof fn lemma_run_outcome(
    state: RestoreState,
    events: Seq<EventView>,
    saved: SavedPane,
    outcome: PaneOutcome,
)
    requires
        run(state, events).saved.items is WithSplits,
        run(state, events).stage == StageView::CreatingPane,
        run(state, events).current() == saved,
    ensures
        run(state, events + outcome_events(saved, outcome)) == run(state, events).after_pane(
            outcome_pane(saved, outcome),
        ).0,
{
    let created = events.push(EventView::PaneCreated(outcome.created));
    let loaded = created.push(EventView::TerminalsLoaded(outcome.loaded));
    let populated = loaded.push(EventView::PanePopulated);
    let with_shell = populated.push(EventView::ShellCreated(outcome.shell));
    lemma_run_push(state, events, EventView::PaneCreated(outcome.created));
    lemma_run_push(state, created, EventView::TerminalsLoaded(outcome.loaded));
    lemma_run_push(state, loaded, EventView::PanePopulated);
    lemma_run_push(state, populated, EventView::ShellCreated(outcome.shell));
    if filled_pane(outcome.created, saved, outcome.loaded).items.len() == 0 {
        assert(events + outcome_events(saved, outcome) =~= with_shell);
    } else {
        assert(events + outcome_events(saved, outcome) =~= populated);
    }
}

proof fn lemma_run_prefix(
    fresh_pane: PaneView,
    saved: SavedPanel,
    outcomes: Seq<PaneOutcome>,
    count: nat,
)
    requires
        saved.items is WithSplits,
        outcomes.len() == saved.split_panes().len(),
        count <= outcomes.len(),
    ensures
        run(
            restore_start(fresh_pane, saved).0,
            all_events(saved.split_panes().take(count as int), outcomes),
        ) == (RestoreState {
            saved,
            fresh_pane,
            panes: outcome_panes(saved.split_panes().take(count as int), outcomes),
            stage: if count < outcomes.len() {
                StageView::CreatingPane
            } else {
                StageView::Finished
            },
        }),
    decreases count,
{
    let all = saved.split_panes();
    let start = restore_start(fresh_pane, saved).0;
    if count == 0 {
        assert(outcome_panes(all.take(0), outcomes) =~= Seq::empty());
    } else {
        let last = (count - 1) as nat;
        lemma_run_prefix(fresh_pane, saved, outcomes, last);
        assert(all.take(count as int).drop_last() =~= all.take(last as int));
        let events = all_events(all.take(last as int), outcomes);
        lemma_run_outcome(start, events, all[last as int], outcomes[last as int]);
        assert(outcome_panes(all.take(count as int), outcomes) =~= outcome_panes(
            all.take(last as int),
            outcomes,
        ).push(outcome_pane(all[last as int], outcomes[last as int])));
    }
}

/// A restoration of a panel with splits, told of the outside work for each saved pane in turn,
/// finishes, and has one pane for each saved one.
pub proof fn law_restoration_finishes(
    fresh_pane: PaneView,
    saved: SavedPanel,
    outcomes: Seq<PaneOutcome>,
)
    requires
        saved.items is WithSplits,
        outcomes.len() == saved.split_panes().len(),
    ensures
        run(
            restore_start(fresh_pane, saved).0,
            all_events(saved.split_panes(), outcomes),
        ) == (RestoreState {
            saved,
            fresh_pane,
            panes: outcome_panes(saved.split_panes(), outcomes),
            stage: StageView::Finished,
        }),
{
    lemma_run_prefix(fresh_pane, saved, outcomes, outcomes.len());
    assert(saved.split_panes().take(outcomes.len() as int) =~= saved.split_panes());
}

/// The tabs of a panel that was saved without splits come back behind those of the pane with
/// which the new panel begins. That pane stays the only one, and the active one.
pub proof fn law_panel_without_splits_comes_back(
    fresh_pane: PaneView,
    item_ids: Seq<u64>,
    active_item_id: Option<u64>,
    loaded: Seq<TerminalItem>,
)
    ensures
        ({
            let saved = SavedPanel { items: SavedItems::NoSplits(item_ids), active_item_id };
            let last = run(
                restore_start(fresh_pane, saved).0,
                seq![EventView::TerminalsLoaded(loaded), EventView::PanePopulated],
            );
            &&& restore_start(fresh_pane, saved).1 == ActionView::LoadTerminals(item_ids)
            &&& last.stage is Finished
            &&& restored_panel(fresh_pane, saved, last.panes) == (
                RestoredLayout::Pane(populated_pane(fresh_pane, loaded, active_item_id)),
                fresh_pane.id,
            )
        }),
{
    let saved = SavedPanel { items: SavedItems::NoSplits(item_ids), active_item_id };
    let start = restore_start(fresh_pane, saved).0;
    let first = Seq::<EventView>::empty().push(EventView::TerminalsLoaded(loaded));
    lemma_run_push(start, Seq::empty(), EventView::TerminalsLoaded(loaded));
    lemma_run_push(start, first, EventView::PanePopulated);
    assert(first.push(EventView::PanePopulated) =~= seq![
        EventView::TerminalsLoaded(loaded),
        EventView::PanePopulated,
    ]);
}

/// No pane of a split comes back blank.
pub proof fn law_no_blank_pane(saved: SavedPane, outcome: PaneOutcome)
    ensures
        outcome_pane(saved, outcome).items.len() > 0,
{
}

/// A restoration that failed stays failed.
pub proof fn law_failure_is_final(state: RestoreState, events: Seq<EventView>)
    requires
        state.stage is Failed,
    ensures
        run(state, events) == state,
    decreases events.len(),
{
    if events.len() > 0 {
        law_failure_is_final(state, events.drop_last());
    }
}

proof fn lemma_panes_all_push<W>(members: Seq<Layout<W>>, member: Layout<W>)
    ensures
        panes_all(members.push(member)) == panes_all(members) + panes(member),
{
    assert(members.push(member).drop_last() =~= members);
}

/// Every saved pane comes back, in the order in which the panes were saved, and no other pane.
/// A saved layout comes back unless it has no panes.
pub proof fn law_every_pane_comes_back(saved: SavedLayout, restored: Seq<PaneView>)
    requires
        restored.len() == saved_panes(saved).len(),
    ensures
        match restored_layout(saved, restored) {
            Some(layout) => panes(layout) == restored,
            None => restored.len() == 0,
        },
    decreases saved,
{
    match saved {
        SavedLayout::Pane(_) => {
            assert(panes(RestoredLayout::Pane(restored[0])) =~= restored);
        },
        SavedLayout::Group { children, .. } => {
            lemma_every_pane_comes_back(children, restored);
            lemma_restored_is_none(saved, restored);
            let members = restored_layouts(children, restored);
            if members.len() == 1 {
                assert(members =~= Seq::<RestoredLayout>::empty().push(members[0]));
                lemma_panes_all_push(Seq::empty(), members[0]);
                assert(panes_all(Seq::<RestoredLayout>::empty()) + panes(members[0]) =~= panes(
                    members[0],
                ));
            }
        },
    }
}

pub(crate) proof fn lemma_every_pane_comes_back(children: Seq<SavedLayout>, restored: Seq<PaneView>)
    requires
        restored.len() == saved_panes_all(children).len(),
    ensures
        panes_all(restored_layouts(children, restored)) == restored,
    decreases children,
{
    if children.len() == 0 {
        assert(restored =~= Seq::empty());
    } else {
        let count = saved_panes_all(children.drop_last()).len() as int;
        let before = restored_layouts(children.drop_last(), restored.take(count));
        lemma_every_pane_comes_back(children.drop_last(), restored.take(count));
        law_every_pane_comes_back(children.last(), restored.skip(count));
        assert(restored.take(count) + restored.skip(count) =~= restored);
        if let Some(member) = restored_layout(children.last(), restored.skip(count)) {
            lemma_panes_all_push(before, member);
        } else {
            assert(restored.take(count) =~= restored);
        }
    }
}

/// Every pane of a layout is saved, in the order in which the panes stand in it.
pub proof fn law_every_pane_is_saved(layout: LiveLayout, active_pane: u64)
    ensures
        saved_panes(saved_layout(layout, active_pane)) == panes(layout).map_values(
            |pane: PaneView| saved_pane(pane, pane.id == active_pane),
        ),
    decreases layout,
{
    let save = |pane: PaneView| saved_pane(pane, pane.id == active_pane);
    match layout {
        Layout::Pane(pane) => {
            assert(saved_panes(saved_layout(layout, active_pane)) =~= panes(layout).map_values(save));
        },
        Layout::Axis { members, .. } => {
            lemma_saved_panes_all(members, active_pane);
        },
    }
}

proof fn lemma_saved_panes_all(members: Seq<LiveLayout>, active_pane: u64)
    ensures
        saved_panes_all(saved_layouts(members, active_pane)) == panes_all(members).map_values(
            |pane: PaneView| saved_pane(pane, pane.id == active_pane),
        ),
    decreases members,
{
    let save = |pane: PaneView| saved_pane(pane, pane.id == active_pane);
    if members.len() == 0 {
        assert(panes_all(members).map_values(save) =~= Seq::empty());
    } else {
        lemma_saved_panes_all(members.drop_last(), active_pane);
        law_every_pane_is_saved(members.last(), active_pane);
        let saved = saved_layouts(members, active_pane);
        assert(saved.drop_last() =~= saved_layouts(members.drop_last(), active_pane));
        assert(panes_all(members).map_values(save) =~= panes_all(members.drop_last()).map_values(
            save,
        ) + panes(members.last()).map_values(save));
    }
}

proof fn lemma_first_active_at(saved: Seq<SavedPane>, restored: Seq<PaneView>, index: int)
    requires
        0 <= index < saved.len(),
        saved[index].active,
        forall|i: int| 0 <= i < index ==> !(#[trigger] saved[i]).active,
    ensures
        first_active(saved, restored) == Some(restored[index].id),
    decreases saved.len(),
{
    if index < saved.len() - 1 {
        lemma_first_active_at(saved.drop_last(), restored, index);
    } else {
        lemma_first_active_none(saved.drop_last(), restored);
    }
}

proof fn lemma_first_active_none(saved: Seq<SavedPane>, restored: Seq<PaneView>)
    requires
        forall|i: int| 0 <= i < saved.len() ==> !(#[trigger] saved[i]).active,
    ensures
        first_active(saved, restored) is None,
    decreases saved.len(),
{
    if saved.len() > 0 {
        lemma_first_active_none(saved.drop_last(), restored);
    }
}

/// The pane that stands for the active one is active again, wherever it stood in the layout.
pub proof fn law_active_pane_comes_back(
    layout: LiveLayout,
    active_pane: u64,
    restored: Seq<PaneView>,
    index: int,
)
    requires
        restored.len() == panes(layout).len(),
        0 <= index < panes(layout).len(),
        panes(layout)[index].id == active_pane,
        forall|i: int| 0 <= i < index ==> (#[trigger] panes(layout)[i]).id != active_pane,
    ensures
        first_active(saved_panes(saved_layout(layout, active_pane)), restored) == Some(
            restored[index].id,
        ),
{
    law_every_pane_is_saved(layout, active_pane);
    lemma_first_active_at(saved_panes(saved_layout(layout, active_pane)), restored, index);
}

/// If none of the panes was the active one, the first pane is active after a reopening.
pub proof fn law_first_pane_is_active_otherwise(
    layout: LiveLayout,
    active_pane: u64,
    active_item_id: Option<u64>,
    fresh_pane: PaneView,
    restored: Seq<PaneView>,
)
    requires
        restored.len() == panes(layout).len(),
        restored.len() > 0,
        forall|i: int| 0 <= i < restored.len() ==> (#[trigger] panes(layout)[i]).id != active_pane,
    ensures
        restored_panel(
            fresh_pane,
            SavedPanel {
                items: SavedItems::WithSplits(saved_layout(layout, active_pane)),
                active_item_id,
            },
            restored,
        ).1 == restored[0].id,
{
    let saved = saved_layout(layout, active_pane);
    law_every_pane_is_saved(layout, active_pane);
    law_every_pane_comes_back(saved, restored);
    lemma_first_active_none(saved_panes(saved), restored);
}

/// Whether a pane comes back as it is: it has tabs, all of them are saved, no more of them are
/// pinned than there are, and the active tab can be told by its id from those behind it.
pub open spec fn is_restorable_pane(pane: PaneView) -> bool {
    &&& pane.items.len() > 0
    &&& forall|i: int| 0 <= i < pane.items.len() ==> (#[trigger] pane.items[i]).persists()
    &&& pane.pinned_count <= pane.items.len()
    &&& pane.active_item matches Some(active) ==> {
        &&& 0 <= active < pane.items.len()
        &&& forall|i: int|
            active < i < pane.items.len() ==> (#[trigger] pane.items[i]).item_id()
                != pane.items[active].item_id()
    }
}

/// Whether a layout comes back as it is: its panes do, and each of its splits has at least two
/// members.
pub open spec fn is_restorable<W>(layout: Layout<W>) -> bool {
    &&& is_normal(layout)
    &&& forall|i: int|
        0 <= i < panes(layout).len() ==> is_restorable_pane(#[trigger] panes(layout)[i])
}

/// Whether the outside work for a saved pane went well: a blank pane was created, and every
/// terminal was loaded under the id by which it was saved.
pub open spec fn is_faithful(saved: SavedPane, outcome: PaneOutcome) -> bool {
    &&& outcome.created.items.len() == 0
    &&& outcome.created.active_item is None
    &&& outcome.loaded == saved.children.map_values(
        |id: u64| TerminalItem { serialized_item_id: id, is_task: false },
    )
}

/// Whether the outside work for each of a sequence of saved panes went well.
pub open spec fn are_faithful(saved: Seq<SavedPane>, outcomes: Seq<PaneOutcome>) -> bool {
    &&& outcomes.len() == saved.len()
    &&& forall|i: int|
        0 <= i < saved.len() ==> is_faithful(#[trigger] saved[i], outcomes[i])
}

/// The same splits with `panes` in the places of the panes.
pub open spec fn with_panes<W>(layout: Layout<W>, panes: Seq<PaneView>) -> Layout<W>
    decreases layout,
{
    match layout {
        Layout::Pane(_) => Layout::Pane(panes[0]),
        Layout::Axis { axis, flexes, members } => Layout::Axis {
            axis,
            flexes,
            members: all_with_panes(members, panes),
        },
    }
}

/// The same splits in each of a sequence of layouts, with `panes` in the places of the panes.
pub open spec fn all_with_panes<W>(members: Seq<Layout<W>>, panes: Seq<PaneView>) -> Seq<Layout<W>>
    decreases members,
{
    if members.len() == 0 {
        Seq::empty()
    } else {
        let count = panes_all(members.drop_last()).len() as int;
        all_with_panes(members.drop_last(), panes.take(count)).push(
            with_panes(members.last(), panes.skip(count)),
        )
    }
}

/// The layout in which every split is given its own weights.
pub open spec fn with_own_weights(layout: LiveLayout) -> RestoredLayout
    decreases layout,
{
    match layout {
        Layout::Pane(pane) => Layout::Pane(pane),
        Layout::Axis { axis, flexes, members } => Layout::Axis {
            axis,
            flexes: Some(flexes),
            members: all_with_own_weights(members),
        },
    }
}

/// The layouts in which every split is given its own weights.
pub open spec fn all_with_own_weights(members: Seq<LiveLayout>) -> Seq<RestoredLayout>
    decreases members,
{
    if members.len() == 0 {
        Seq::empty()
    } else {
        all_with_own_weights(members.drop_last()).push(with_own_weights(members.last()))
    }
}

/// The same panes under other handles.
pub open spec fn with_handles(panes: Seq<PaneView>, handles: Seq<u64>) -> Seq<PaneView> {
    Seq::new(panes.len(), |i: int| PaneView { id: handles[i], ..panes[i] })
}

proof fn lemma_persistent_ids_of_persistent(items: Seq<PaneItem>)
    requires
        forall|i: int| 0 <= i < items.len() ==> (#[trigger] items[i]).persists(),
    ensures
        persistent_ids(items) == items.map_values(|item: PaneItem| item.item_id()),
{
    lemma_filter_all(items);
}

proof fn lemma_filter_all(items: Seq<PaneItem>)
    requires
        forall|i: int| 0 <= i < items.len() ==> (#[trigger] items[i]).persists(),
    ensures
        items.filter(|item: PaneItem| item.persists()) == items,
    decreases items.len(),
{
    reveal(Seq::filter);
    if items.len() > 0 {
        lemma_filter_all(items.drop_last());
        assert(items.drop_last().push(items.last()) =~= items);
    } else {
        assert(items =~= Seq::empty());
    }
}

proof fn lemma_tab_to_activate_none(count: nat, items: Seq<TerminalItem>, active_item: Option<u64>)
    requires
        forall|i: int|
            0 <= i < items.len() ==> Some((#[trigger] items[i]).serialized_item_id) != active_item,
    ensures
        tab_to_activate(count, items, active_item) is None,
    decreases items.len(),
{
    if items.len() > 0 {
        lemma_tab_to_activate_none(count, items.drop_last(), active_item);
    }
}

proof fn lemma_tab_to_activate_at(count: nat, items: Seq<TerminalItem>, id: u64, index: int)
    requires
        0 <= index < items.len(),
        items[index].serialized_item_id == id,
        forall|i: int|
            index < i < items.len() ==> (#[trigger] items[i]).serialized_item_id != id,
    ensures
        tab_to_activate(count, items, Some(id)) == Some(count + index),
    decreases items.len(),
{
    if index < items.len() - 1 {
        lemma_tab_to_activate_at(count, items.drop_last(), id, index);
    }
}

/// A pane with its tabs, its active tab and its pinned tabs comes back as it was, under the
/// handle of the pane that was created for it.
pub proof fn law_pane_comes_back(pane: PaneView, active: bool, outcome: PaneOutcome)
    requires
        is_restorable_pane(pane),
        is_faithful(saved_pane(pane, active), outcome),
    ensures
        outcome_pane(saved_pane(pane, active), outcome) == (PaneView {
            id: outcome.created.id,
            ..pane
        }),
{
    let saved = saved_pane(pane, active);
    lemma_persistent_ids_of_persistent(pane.items);
    let loaded = outcome.loaded;
    let tab = |item: TerminalItem| PaneItem::Terminal(item);
    assert forall|i: int| 0 <= i < pane.items.len() implies #[trigger] tab(loaded[i])
        == pane.items[i] by {
        assert(pane.items[i].persists());
    }
    assert(outcome.created.items + loaded.map_values(tab) =~= pane.items);
    match pane.active_item {
        None => {
            lemma_tab_to_activate_none(0, loaded, None);
        },
        Some(index) => {
            let id = pane.items[index].item_id();
            assert(pane.items[index].persists());
            assert(saved.children[index] == id);
            assert forall|i: int| index < i < loaded.len() implies (
            #[trigger] loaded[i]).serialized_item_id != id by {
                assert(pane.items[i].item_id() != id);
            }
            lemma_tab_to_activate_at(0, loaded, id, index);
        },
    }
}

/// The splits of a layout come back with their directions and weights, whatever became of the
/// panes: the layout is the saved one with the restored panes in the places of its panes.
pub proof fn law_splits_come_back(layout: LiveLayout, active_pane: u64, restored: Seq<PaneView>)
    requires
        is_normal(layout),
        restored.len() == panes(layout).len(),
    ensures
        restored_layout(saved_layout(layout, active_pane), restored) == Some(
            with_own_weights(with_panes(layout, restored)),
        ),
    decreases layout,
{
    if let Layout::Axis { members, .. } = layout {
        lemma_all_splits_come_back(members, active_pane, restored);
    }
}

proof fn lemma_all_splits_come_back(
    members: Seq<LiveLayout>,
    active_pane: u64,
    restored: Seq<PaneView>,
)
    requires
        all_normal(members),
        restored.len() == panes_all(members).len(),
    ensures
        restored_layouts(saved_layouts(members, active_pane), restored) == all_with_own_weights(
            all_with_panes(members, restored),
        ),
        all_with_own_weights(all_with_panes(members, restored)).len() == members.len(),
    decreases members,
{
    if members.len() > 0 {
        let saved = saved_layouts(members, active_pane);
        assert(saved.drop_last() =~= saved_layouts(members.drop_last(), active_pane));
        lemma_saved_panes_all(members.drop_last(), active_pane);
        let count = panes_all(members.drop_last()).len() as int;
        lemma_all_splits_come_back(members.drop_last(), active_pane, restored.take(count));
        law_splits_come_back(members.last(), active_pane, restored.skip(count));
        assert(all_with_panes(members, restored).drop_last() =~= all_with_panes(
            members.drop_last(),
            restored.take(count),
        ));
    }
}

/// The tabs of a pane that are saved come back in their order, whichever other tabs the pane had.
/// A pane without such tabs comes back with a shell. No more tabs are pinned than there are saved
/// ones. If an active tab was saved, the active tab has its id again; else no tab is chosen.
pub proof fn law_saved_tabs_come_back(pane: PaneView, active: bool, outcome: PaneOutcome)
    requires
        is_faithful(saved_pane(pane, active), outcome),
    ensures
        ({
            let saved = saved_pane(pane, active);
            let tabs = pane.items.filter(|item: PaneItem| item.persists());
            let restored = outcome_pane(saved, outcome);
            &&& restored.id == outcome.created.id
            &&& restored.items == if tabs.len() == 0 {
                seq![PaneItem::Terminal(outcome.shell)]
            } else {
                tabs
            }
            &&& restored.pinned_count == restored_pinned_count(pane.pinned_count, tabs.len())
            &&& match (saved.active_item, restored.active_item) {
                (Some(id), Some(index)) => {
                    &&& 0 <= index < tabs.len()
                    &&& tabs[index].item_id() == id
                },
                (None, None) => true,
                _ => false,
            }
        }),
{
    let saved = saved_pane(pane, active);
    let loaded = outcome.loaded;
    let tabs = pane.items.filter(|item: PaneItem| item.persists());
    let tab = |item: TerminalItem| PaneItem::Terminal(item);
    assert forall|i: int| 0 <= i < tabs.len() implies #[trigger] tab(loaded[i]) == tabs[i] by {
        pane.items.lemma_filter_pred(|item: PaneItem| item.persists(), i);
    }
    assert(outcome.created.items + loaded.map_values(tab) =~= tabs);
    if tabs.len() == 0 {
        assert(tabs.push(PaneItem::Terminal(outcome.shell)) =~= seq![
            PaneItem::Terminal(outcome.shell),
        ]);
    }
    match saved.active_item {
        None => {
            lemma_tab_to_activate_none(0, loaded, None);
        },
        Some(id) => {
            let at = choose|at: int| 0 <= at < saved.children.len() && saved.children[at] == id;
            assert(loaded[at].serialized_item_id == id);
            lemma_tab_to_activate_some(loaded, id, at);
            lemma_tab_to_activate_is_last(loaded, Some(id));
            let index = tab_to_activate(0, loaded, Some(id))->0;
            assert(tab(loaded[index]) == tabs[index]);
        },
    }
}

proof fn lemma_tab_to_activate_some(items: Seq<TerminalItem>, id: u64, at: int)
    requires
        0 <= at < items.len(),
        items[at].serialized_item_id == id,
    ensures
        tab_to_activate(0, items, Some(id)) is Some,
    decreases items.len(),
{
    if items.last().serialized_item_id != id {
        assert(items.drop_last()[at] == items[at]);
        lemma_tab_to_activate_some(items.drop_last(), id, at);
    }
}

/// Reopening a panel with splits brings its splits and its active pane back, whatever the outside
/// work for its panes brought.
pub proof fn law_reopening_keeps_the_splits(
    layout: LiveLayout,
    active_index: int,
    active_item_id: Option<u64>,
    fresh_pane: PaneView,
    outcomes: Seq<PaneOutcome>,
)
    requires
        is_normal(layout),
        0 <= active_index < panes(layout).len(),
        forall|i: int|
            0 <= i < active_index ==> (#[trigger] panes(layout)[i]).id
                != panes(layout)[active_index].id,
        outcomes.len() == panes(layout).len(),
    ensures
        ({
            let saved = SavedPanel {
                items: SavedItems::WithSplits(
                    saved_layout(layout, panes(layout)[active_index].id),
                ),
                active_item_id,
            };
            let last = run(
                restore_start(fresh_pane, saved).0,
                all_events(saved.split_panes(), outcomes),
            );
            &&& last.stage is Finished
            &&& last.panes == outcome_panes(saved.split_panes(), outcomes)
            &&& restored_panel(fresh_pane, saved, last.panes) == (
                with_own_weights(with_panes(layout, last.panes)),
                last.panes[active_index].id,
            )
        }),
{
    let active_pane = panes(layout)[active_index].id;
    let saved = SavedPanel {
        items: SavedItems::WithSplits(saved_layout(layout, active_pane)),
        active_item_id,
    };
    law_every_pane_is_saved(layout, active_pane);
    law_restoration_finishes(fresh_pane, saved, outcomes);
    let restored = outcome_panes(saved.split_panes(), outcomes);
    law_splits_come_back(layout, active_pane, restored);
    law_active_pane_comes_back(layout, active_pane, restored, active_index);
}

/// Reopening a panel with splits brings its layout back: the splits with their directions and
/// weights, the panes with their tabs, active tabs and pinned tabs, and the active pane. Only
/// the handles of the panes are new.
pub proof fn law_reopening_restores_the_layout(
    layout: LiveLayout,
    active_index: int,
    active_item_id: Option<u64>,
    fresh_pane: PaneView,
    outcomes: Seq<PaneOutcome>,
)
    requires
        is_restorable(layout),
        0 <= active_index < panes(layout).len(),
        forall|i: int|
            0 <= i < active_index ==> (#[trigger] panes(layout)[i]).id
                != panes(layout)[active_index].id,
        are_faithful(
            saved_panes(saved_layout(layout, panes(layout)[active_index].id)),
            outcomes,
        ),
    ensures
        ({
            let saved = SavedPanel {
                items: SavedItems::WithSplits(
                    saved_layout(layout, panes(layout)[active_index].id),
                ),
                active_item_id,
            };
            let last = run(
                restore_start(fresh_pane, saved).0,
                all_events(saved.split_panes(), outcomes),
            );
            let handles = outcomes.map_values(|outcome: PaneOutcome| outcome.created.id);
            &&& last.stage is Finished
            &&& restored_panel(fresh_pane, saved, last.panes) == (
                with_own_weights(with_panes(layout, with_handles(panes(layout), handles))),
                handles[active_index],
            )
        }),
{
    let active_pane = panes(layout)[active_index].id;
    let saved_form = saved_layout(layout, active_pane);
    let all = panes(layout);
    law_every_pane_is_saved(layout, active_pane);
    law_reopening_keeps_the_splits(layout, active_index, active_item_id, fresh_pane, outcomes);
    let restored = outcome_panes(saved_panes(saved_form), outcomes);
    let handles = outcomes.map_values(|outcome: PaneOutcome| outcome.created.id);
    assert forall|i: int| 0 <= i < all.len() implies #[trigger] restored[i] == with_handles(
        all,
        handles,
    )[i] by {
        assert(is_restorable_pane(all[i]));
        assert(saved_panes(saved_form)[i] == saved_pane(all[i], all[i].id == active_pane));
        law_pane_comes_back(all[i], all[i].id == active_pane, outcomes[i]);
    }
    assert(restored =~= with_handles(all, handles));
}

/// Whether `live` is what an editor may make of a restored layout: the same splits with the same
/// panes, and with the weights that are given for them. Weights that are not given are the
/// editor's to choose.
pub open spec fn is_opened(restored: RestoredLayout, live: LiveLayout) -> bool
    decreases restored,
{
    match (restored, live) {
        (Layout::Pane(pane), Layout::Pane(live_pane)) => pane == live_pane,
        (
            Layout::Axis { axis, flexes, members },
            Layout::Axis { axis: live_axis, flexes: live_flexes, members: live_members },
        ) => {
            &&& axis == live_axis
            &&& flexes matches Some(flexes) ==> flexes == live_flexes
            &&& are_opened(members, live_members)
        },
        _ => false,
    }
}

/// Whether `live` is what an editor may make of a sequence of restored layouts.
pub open spec fn are_opened(restored: Seq<RestoredLayout>, live: Seq<LiveLayout>) -> bool
    decreases restored,
{
    &&& restored.len() == live.len()
    &&& restored.len() > 0 ==> {
        &&& are_opened(restored.drop_last(), live.drop_last())
        &&& is_opened(restored.last(), live.last())
    }
}

/// A layout whose splits are given their own weights is opened as it is: its saved weights leave
/// the editor nothing to choose.
pub proof fn law_own_weights_are_kept(layout: LiveLayout, live: LiveLayout)
    ensures
        is_opened(with_own_weights(layout), live) <==> live == layout,
    decreases layout,
{
    if let Layout::Axis { members, .. } = layout {
        if let Layout::Axis { members: live_members, .. } = live {
            lemma_all_own_weights_are_kept(members, live_members);
        }
    }
}

proof fn lemma_all_own_weights_are_kept(members: Seq<LiveLayout>, live: Seq<LiveLayout>)
    ensures
        are_opened(all_with_own_weights(members), live) <==> live == members,
        all_with_own_weights(members).len() == members.len(),
    decreases members,
{
    if members.len() > 0 {
        let restored = all_with_own_weights(members);
        assert(restored.drop_last() =~= all_with_own_weights(members.drop_last()));
        if live.len() > 0 {
            lemma_all_own_weights_are_kept(members.drop_last(), live.drop_last());
            law_own_weights_are_kept(members.last(), live.last());
            assert(members.drop_last().push(members.last()) =~= members);
            assert(live.drop_last().push(live.last()) =~= live);
        } else {
            lemma_all_own_weights_are_kept(members.drop_last(), live);
        }
    } else {
        assert(live.len() == 0 ==> live =~= members);
    }
}

proof fn lemma_opened_keeps_the_panes(restored: RestoredLayout, live: LiveLayout)
    requires
        is_opened(restored, live),
    ensures
        panes(live) == panes(restored),
        is_normal(live) == is_normal(restored),
    decreases restored,
{
    if let Layout::Axis { members, .. } = restored {
        lemma_all_opened_keep_the_panes(members, live->members);
    }
}

proof fn lemma_all_opened_keep_the_panes(restored: Seq<RestoredLayout>, live: Seq<LiveLayout>)
    requires
        are_opened(restored, live),
    ensures
        panes_all(live) == panes_all(restored),
        all_normal(live) == all_normal(restored),
    decreases restored,
{
    if restored.len() > 0 {
        lemma_all_opened_keep_the_panes(restored.drop_last(), live.drop_last());
        lemma_opened_keeps_the_panes(restored.last(), live.last());
    }
}

/// What came back once comes back again: a layout that was restored from any saved one, with
/// the outside work gone well, is one that a further reopening leaves as it is, whichever weights
/// the editor chose for splits that were saved without any.
pub proof fn law_restored_layouts_are_restorable(
    saved: SavedLayout,
    outcomes: Seq<PaneOutcome>,
    live: LiveLayout,
)
    requires
        are_faithful(saved_panes(saved), outcomes),
        forall|i: int| 0 <= i < outcomes.len() ==> !(#[trigger] outcomes[i]).shell.is_task,
    ensures
        restored_layout(saved, outcome_panes(saved_panes(saved), outcomes)) matches Some(layout)
            ==> is_opened(layout, live) ==> is_restorable(live),
{
    let all = saved_panes(saved);
    let restored = outcome_panes(all, outcomes);
    crate::restore::law_restored_splits_have_members(saved, restored);
    law_every_pane_comes_back(saved, restored);
    assert forall|i: int| 0 <= i < restored.len() implies is_restorable_pane(
        #[trigger] restored[i],
    ) by {
        assert(is_faithful(all[i], outcomes[i]));
        lemma_outcome_is_restorable(all[i], outcomes[i]);
    }
    if let Some(layout) = restored_layout(saved, restored) {
        if is_opened(layout, live) {
            lemma_opened_keeps_the_panes(layout, live);
        }
    }
}

proof fn lemma_outcome_is_restorable(saved: SavedPane, outcome: PaneOutcome)
    requires
        is_faithful(saved, outcome),
        !outcome.shell.is_task,
    ensures
        is_restorable_pane(outcome_pane(saved, outcome)),
{
    let loaded = outcome.loaded;
    let pane = outcome_pane(saved, outcome);
    if loaded.len() > 0 {
        assert forall|i: int| 0 <= i < pane.items.len() implies (
        #[trigger] pane.items[i]).persists() by {
            assert(pane.items[i] == PaneItem::Terminal(loaded[i]));
        }
    }
    lemma_tab_to_activate_is_last(loaded, saved.active_item);
}

proof fn lemma_tab_to_activate_is_last(items: Seq<TerminalItem>, active_item: Option<u64>)
    ensures
        tab_to_activate(0, items, active_item) matches Some(index) ==> {
            &&& 0 <= index < items.len()
            &&& Some(items[index].serialized_item_id) == active_item
            &&& forall|i: int|
                index < i < items.len() ==> Some((#[trigger] items[i]).serialized_item_id)
                    != active_item
        },
    decreases items.len(),
{
    if items.len() > 0 && Some(items.last().serialized_item_id) != active_item {
        let before = items.drop_last();
        lemma_tab_to_activate_is_last(before, active_item);
        if let Some(index) = tab_to_activate(0, before, active_item) {
            assert forall|i: int| index < i < items.len() implies Some(
                (#[trigger] items[i]).serialized_item_id,
            ) != active_item by {
                if i < before.len() {
                    assert(before[i] == items[i]);
                }
            }
        }
    }
}

} // verus!
