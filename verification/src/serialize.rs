//! Saving the layout of a terminal panel.

use std::collections::HashSet;
use vstd::prelude::*;
use crate::layout::Layout;
use crate::layout::LiveLayout;
use crate::layout::Member;
use crate::layout::Pane;
use crate::layout::PaneItem;
use crate::layout::PaneView;
use crate::layout::members_view;
use crate::saved::SavedLayout;
use crate::saved::SavedPane;
use crate::saved::SerializedAxis;
use crate::saved::SerializedPane;
use crate::saved::SerializedPaneGroup;
use crate::saved::groups_view;

verus! {

broadcast use vstd::std_specs::hash::group_hash_axioms;

/// The ids of the tabs that are saved, in the order of the tabs.
pub open spec fn persistent_ids(items: Seq<PaneItem>) -> Seq<u64> {
    items.filter(|item: PaneItem| item.persists()).map_values(|item: PaneItem| item.item_id())
}

/// The id of the active tab, where that tab is a terminal.
pub open spec fn active_terminal(pane: PaneView) -> Option<u64> {
    match pane.active_item {
        Some(index) => if 0 <= index < pane.items.len() && pane.items[index] is Terminal {
            Some(pane.items[index].item_id())
        } else {
            None
        },
        None => None,
    }
}

/// The saved form of a pane: the ids of its saved tabs, and the active one if it is among them.
pub open spec fn saved_pane(pane: PaneView, active: bool) -> SavedPane {
    let children = persistent_ids(pane.items);
    SavedPane {
        active,
        children,
        active_item: match active_terminal(pane) {
            Some(id) => if children.contains(id) {
                Some(id)
            } else {
                None
            },
            None => None,
        },
        pinned_count: pane.pinned_count,
    }
}

/// The saved form of a layout whose active pane has the handle `active_pane`. Every split is
/// saved with its weights.
pub open spec fn saved_layout(layout: LiveLayout, active_pane: u64) -> SavedLayout
    decreases layout,
{
    match layout {
        Layout::Pane(pane) => SavedLayout::Pane(saved_pane(pane, pane.id == active_pane)),
        Layout::Axis { axis, flexes, members } => SavedLayout::Group {
            axis,
            flexes: Some(flexes),
            children: saved_layouts(members, active_pane),
        },
    }
}

/// The saved forms of a sequence of layouts.
pub open spec fn saved_layouts(members: Seq<LiveLayout>, active_pane: u64) -> Seq<SavedLayout>
    decreases members,
{
    if members.len() == 0 {
        Seq::empty()
    } else {
        saved_layouts(members.drop_last(), active_pane).push(
            saved_layout(members.last(), active_pane),
        )
    }
}

proof fn lemma_persistent_ids_step(items: Seq<PaneItem>, index: int)
    requires
        0 <= index < items.len(),
    ensures
        persistent_ids(items.take(index + 1)) == if items[index].persists() {
            persistent_ids(items.take(index)).push(items[index].item_id())
        } else {
            persistent_ids(items.take(index))
        },
{
    reveal(Seq::filter);
    let pred = |item: PaneItem| item.persists();
    let id = |item: PaneItem| item.item_id();
    assert(items.take(index + 1).drop_last() =~= items.take(index));
    let before = items.take(index).filter(pred);
    if items[index].persists() {
        assert(items.take(index + 1).filter(pred) =~= before.push(items[index]));
        assert(before.push(items[index]).map_values(id) =~= before.map_values(id).push(
            id(items[index]),
        ));
    }
}

/// Saves the split tree of a panel whose active pane has the handle `active_pane`.
pub fn serialize_pane_group(pane_group: &Member, active_pane: u64) -> (saved: SerializedPaneGroup)
    ensures
        saved@ == saved_layout(pane_group@, active_pane),
{
    build_serialized_pane_group(pane_group, active_pane)
}

/// Saves a node of the split tree and what is below it.
pub fn build_serialized_pane_group(pane_group: &Member, active_pane: u64) -> (saved:
    SerializedPaneGroup)
    ensures
        saved@ == saved_layout(pane_group@, active_pane),
    decreases pane_group,
{
    match pane_group {
        Member::Pane(pane) => SerializedPaneGroup::Pane(
            serialize_pane(pane, pane.id == active_pane),
        ),
        Member::Axis { axis, flexes, members } => {
            let mut children: Vec<SerializedPaneGroup> = Vec::new();
            let mut index: usize = 0;
            while index < members.len()
                invariant
                    index <= members.len(),
                    pane_group matches Member::Axis { members: all, .. } && all == *members,
                    groups_view(children@) == saved_layouts(
                        members_view(members@.take(index as int)),
                        active_pane,
                    ),
                decreases members.len() - index,
            {
                let child = build_serialized_pane_group(&members[index], active_pane);
                proof {
                    let next = members@.take(index + 1);
                    assert(next.drop_last() =~= members@.take(index as int));
                    let views = members_view(next);
                    assert(views.drop_last() =~= members_view(members@.take(index as int)));
                    assert(children@.push(child).drop_last() =~= children@);
                }
                children.push(child);
                index += 1;
            }
            assert(members@.take(index as int) =~= members@);
            let weights = flexes.clone();
            assert(weights@ =~= flexes@);
            SerializedPaneGroup::Group {
                axis: SerializedAxis(*axis),
                flexes: Some(weights),
                children,
            }
        },
    }
}

/// Saves a pane: its terminals without those that run a task, its active tab where that tab is
/// saved, and how many of its tabs are pinned.
pub fn serialize_pane(pane: &Pane, active: bool) -> (saved: SerializedPane)
    ensures
        saved@ == saved_pane(pane@, active),
{
    let mut items_to_serialize: HashSet<u64> = HashSet::new();
    let mut children: Vec<u64> = Vec::new();
    let mut index: usize = 0;
    while index < pane.items.len()
        invariant
            index <= pane.items.len(),
            children@ == persistent_ids(pane.items@.take(index as int)),
            forall|id: u64| items_to_serialize@.contains(id) <==> children@.contains(id),
        decreases pane.items.len() - index,
    {
        proof {
            lemma_persistent_ids_step(pane.items@, index as int);
        }
        if let PaneItem::Terminal(terminal) = pane.items[index] {
            if !terminal.is_task {
                let id = terminal.serialized_item_id;
                items_to_serialize.insert(id);
                let ghost before = children@;
                children.push(id);
                assert forall|other: u64| items_to_serialize@.contains(other)
                    <==> children@.contains(other) by {
                    if before.contains(other) {
                        let at = choose|at: int| 0 <= at < before.len() && before[at] == other;
                        assert(children@[at] == other);
                    }
                    assert(children@[before.len() as int] == id);
                    if children@.contains(other) && other != id {
                        let at = choose|at: int|
                            0 <= at < children@.len() && children@[at] == other;
                        assert(before[at] == other);
                    }
                }
            }
        }
        index += 1;
    }
    assert(pane.items@.take(index as int) =~= pane.items@);
    let mut active_item: Option<u64> = None;
    if let Some(active_index) = pane.active_item {
        if active_index < pane.items.len() {
            if let PaneItem::Terminal(terminal) = pane.items[active_index] {
                if items_to_serialize.contains(&terminal.serialized_item_id) {
                    active_item = Some(terminal.serialized_item_id);
                }
            }
        }
    }
    SerializedPane { active, children, active_item, pinned_count: pane.pinned_count }
}

/// Every tab that is saved has its id among the saved ones.
pub(crate) proof fn lemma_persistent_ids_contain(items: Seq<PaneItem>, index: int)
    requires
        0 <= index < items.len(),
        items[index].persists(),
    ensures
        persistent_ids(items).contains(items[index].item_id()),
    decreases items.len(),
{
    let last = items.len() - 1;
    assert(items.take(last + 1) =~= items);
    lemma_persistent_ids_step(items, last);
    let before = persistent_ids(items.take(last));
    if index == last {
        assert(persistent_ids(items)[before.len() as int] == items[index].item_id());
    } else {
        assert(items.take(last)[index] == items[index]);
        lemma_persistent_ids_contain(items.take(last), index);
        let at = choose|at: int| 0 <= at < before.len() && before[at] == items[index].item_id();
        assert(persistent_ids(items)[at] == items[index].item_id());
    }
}

proof fn lemma_persistent_ids_come_from_tabs(items: Seq<PaneItem>, id: u64)
    requires
        persistent_ids(items).contains(id),
    ensures
        exists|i: int|
            0 <= i < items.len() && (#[trigger] items[i]).persists() && items[i].item_id() == id,
    decreases items.len(),
{
    if items.len() > 0 {
        let last = items.len() - 1;
        assert(items.take(last + 1) =~= items);
        lemma_persistent_ids_step(items, last);
        let before = persistent_ids(items.take(last));
        if items[last].persists() && items[last].item_id() == id {
        } else {
            let at = choose|at: int|
                0 <= at < persistent_ids(items).len() && persistent_ids(items)[at] == id;
            assert(before[at] == id);
            lemma_persistent_ids_come_from_tabs(items.take(last), id);
            let i = choose|i: int|
                0 <= i < last && (#[trigger] items.take(last)[i]).persists() && items.take(
                    last,
                )[i].item_id() == id;
            assert(items[i].persists() && items[i].item_id() == id);
        }
    } else {
        reveal(Seq::filter);
    }
}

/// The tabs that are saved are the terminals in which no task runs: neither a task nor a tab
/// that is no terminal is saved. The tab that is saved as the active one is a saved tab.
pub proof fn law_saved_tabs(pane: PaneView, active: bool)
    ensures
        forall|id: u64| #[trigger]
            saved_pane(pane, active).children.contains(id) <==> exists|i: int|
                0 <= i < pane.items.len() && (#[trigger] pane.items[i]).persists()
                    && pane.items[i].item_id() == id,
        saved_pane(pane, active).active_item matches Some(id) ==> saved_pane(
            pane,
            active,
        ).children.contains(id),
{
    assert forall|id: u64| #[trigger]
        saved_pane(pane, active).children.contains(id) <==> exists|i: int|
            0 <= i < pane.items.len() && (#[trigger] pane.items[i]).persists()
                && pane.items[i].item_id() == id by {
        if saved_pane(pane, active).children.contains(id) {
            lemma_persistent_ids_come_from_tabs(pane.items, id);
        }
        if exists|i: int|
            0 <= i < pane.items.len() && (#[trigger] pane.items[i]).persists()
                && pane.items[i].item_id() == id {
            let i = choose|i: int|
                0 <= i < pane.items.len() && (#[trigger] pane.items[i]).persists()
                    && pane.items[i].item_id() == id;
            lemma_persistent_ids_contain(pane.items, i);
        }
    }
}

/// Tabs are saved one by one, from left to right: a further tab adds its own id behind those of
/// the tabs before it if it is a terminal in which no task runs, and else adds nothing. Whether
/// the pane is active and how many tabs are pinned is saved as it is.
pub proof fn law_tabs_are_saved_one_by_one(pane: PaneView, active: bool, tab: PaneItem)
    ensures
        ({
            let saved = saved_pane(pane, active);
            let longer = saved_pane(PaneView { items: pane.items.push(tab), ..pane }, active);
            &&& pane.items.len() == 0 ==> saved.children.len() == 0
            &&& longer.children == match tab {
                PaneItem::Terminal(terminal) => if terminal.is_task {
                    saved.children
                } else {
                    saved.children.push(terminal.serialized_item_id)
                },
                PaneItem::Other => saved.children,
            }
            &&& saved.active == active
            &&& saved.pinned_count == pane.pinned_count
        }),
{
    let items = pane.items.push(tab);
    let last = pane.items.len() as int;
    lemma_persistent_ids_step(items, last);
    assert(items.take(last) =~= pane.items);
    assert(items.take(last + 1) =~= items);
    if pane.items.len() == 0 {
        reveal(Seq::filter);
    }
}

/// The active tab is saved by its own id: always if it is a terminal in which no task runs. The
/// id of a terminal that runs a task is saved only if a saved tab has the same one. Where the
/// active tab is no terminal, or there is none, none is saved.
pub proof fn law_active_tab_is_saved_by_its_id(pane: PaneView, active: bool)
    ensures
        match pane.active_item {
            Some(index) => if 0 <= index < pane.items.len() {
                match pane.items[index] {
                    PaneItem::Terminal(terminal) => {
                        let id = terminal.serialized_item_id;
                        let is_saved = exists|i: int|
                            0 <= i < pane.items.len() && (#[trigger] pane.items[i] matches
                                PaneItem::Terminal(other) && !other.is_task
                                && other.serialized_item_id == id);
                        &&& !terminal.is_task ==> saved_pane(pane, active).active_item == Some(id)
                        &&& is_saved ==> saved_pane(pane, active).active_item == Some(id)
                        &&& !is_saved ==> saved_pane(pane, active).active_item is None
                    },
                    PaneItem::Other => saved_pane(pane, active).active_item is None,
                }
            } else {
                saved_pane(pane, active).active_item is None
            },
            None => saved_pane(pane, active).active_item is None,
        },
{
    if let Some(index) = pane.active_item {
        if 0 <= index < pane.items.len() {
            if let PaneItem::Terminal(terminal) = pane.items[index] {
                let id = terminal.serialized_item_id;
                if persistent_ids(pane.items).contains(id) {
                    lemma_persistent_ids_come_from_tabs(pane.items, id);
                    let i = choose|i: int|
                        0 <= i < pane.items.len() && (#[trigger] pane.items[i]).persists()
                            && pane.items[i].item_id() == id;
                    assert(pane.items[i] matches PaneItem::Terminal(other) && !other.is_task
                        && other.serialized_item_id == id);
                }
                if exists|i: int|
                    0 <= i < pane.items.len() && (#[trigger] pane.items[i] matches
                        PaneItem::Terminal(other) && !other.is_task && other.serialized_item_id
                        == id) {
                    let i = choose|i: int|
                        0 <= i < pane.items.len() && (#[trigger] pane.items[i] matches
                            PaneItem::Terminal(other) && !other.is_task
                            && other.serialized_item_id == id);
                    lemma_persistent_ids_contain(pane.items, i);
                }
                if !terminal.is_task {
                    lemma_persistent_ids_contain(pane.items, index);
                }
            }
        }
    }
}

/// Every node of a split tree is saved in its place: a pane as a pane, which is active if it has
/// the handle of the active one, and a split as a split with its direction, its weights and its
/// members.
pub proof fn law_nodes_are_saved_in_place(layout: LiveLayout, active_pane: u64)
    ensures
        match (layout, saved_layout(layout, active_pane)) {
            (Layout::Pane(pane), SavedLayout::Pane(saved)) => {
                saved == saved_pane(pane, pane.id == active_pane)
            },
            (
                Layout::Axis { axis, flexes, members },
                SavedLayout::Group { axis: saved_axis, flexes: saved_flexes, children },
            ) => {
                &&& saved_axis == axis
                &&& saved_flexes == Some(flexes)
                &&& children.len() == members.len()
                &&& forall|i: int|
                    0 <= i < members.len() ==> #[trigger] children[i] == saved_layout(
                        members[i],
                        active_pane,
                    )
            },
            _ => false,
        },
{
    if let Layout::Axis { members, .. } = layout {
        lemma_saved_layouts(members, active_pane);
    }
}

proof fn lemma_saved_layouts(members: Seq<LiveLayout>, active_pane: u64)
    ensures
        saved_layouts(members, active_pane).len() == members.len(),
        forall|i: int|
            0 <= i < members.len() ==> #[trigger] saved_layouts(members, active_pane)[i]
                == saved_layout(members[i], active_pane),
    decreases members.len(),
{
    if members.len() > 0 {
        let before = members.drop_last();
        lemma_saved_layouts(before, active_pane);
        assert forall|i: int| 0 <= i < members.len() implies #[trigger] saved_layouts(
            members,
            active_pane,
        )[i] == saved_layout(members[i], active_pane) by {
            if i < before.len() {
                assert(saved_layouts(before, active_pane)[i] == saved_layout(
                    before[i],
                    active_pane,
                ));
            }
        }
    }
}

} // verus!
