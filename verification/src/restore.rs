//! Restoring the panes and splits of a saved layout.

use vstd::prelude::*;
use crate::layout::Layout;
use crate::layout::Pane;
use crate::layout::PaneItem;
use crate::layout::PaneView;
use crate::layout::RestoredLayout;
use crate::layout::RestoredMember;
use crate::layout::TerminalItem;
use crate::layout::all_normal;
use crate::layout::flexes_view;
use crate::layout::index_view;
use crate::layout::is_normal;
use crate::layout::pane_views;
use crate::layout::panes;
use crate::layout::panes_all;
use crate::layout::restored_views;
use crate::saved::SavedLayout;
use crate::saved::SavedPane;
use crate::saved::SerializedPaneGroup;
use crate::saved::groups_view;
use crate::saved::saved_panes;
use crate::saved::saved_panes_all;

verus! {

/// The index of the tab to activate once `items` stand behind the first `count` tabs of a pane:
/// that of the last one with the id `active_item`.
pub open spec fn tab_to_activate(
    count: nat,
    items: Seq<TerminalItem>,
    active_item: Option<u64>,
) -> Option<int>
    decreases items.len(),
{
    if items.len() == 0 {
        None
    } else if Some(items.last().serialized_item_id) == active_item {
        Some(count + items.len() - 1)
    } else {
        tab_to_activate(count, items.drop_last(), active_item)
    }
}

/// A pane behind whose tabs `items` were added.
pub open spec fn populated_pane(
    pane: PaneView,
    items: Seq<TerminalItem>,
    active_item: Option<u64>,
) -> PaneView {
    PaneView {
        items: pane.items + items.map_values(|item: TerminalItem| PaneItem::Terminal(item)),
        active_item: match tab_to_activate(pane.items.len(), items, active_item) {
            Some(index) => Some(index),
            None => pane.active_item,
        },
        ..pane
    }
}

/// Adds `items` behind the tabs of a pane, and activates the last of them that has the id
/// `active_item`. Without such an item the active tab is not touched. Returns the index of the
/// tab that was activated.
pub fn populate_pane_items(
    pane: &mut Pane,
    items: &Vec<TerminalItem>,
    active_item: Option<u64>,
) -> (activated: Option<usize>)
    ensures
        final(pane)@ == populated_pane(old(pane)@, items@, active_item),
        index_view(activated) == tab_to_activate(old(pane)@.items.len(), items@, active_item),
{
    let mut active_item_index: Option<usize> = None;
    let mut next: usize = 0;
    let ghost before = pane@;
    let ghost tab = |item: TerminalItem| PaneItem::Terminal(item);
    assert(before.items + items@.take(0).map_values(tab) =~= before.items);
    while next < items.len()
        invariant
            next <= items.len(),
            tab == |item: TerminalItem| PaneItem::Terminal(item),
            pane.items@ == before.items + items@.take(next as int).map_values(tab),
            pane.id == before.id,
            index_view(pane.active_item) == before.active_item,
            pane.pinned_count == before.pinned_count,
            index_view(active_item_index) == tab_to_activate(
                before.items.len(),
                items@.take(next as int),
                active_item,
            ),
        decreases items.len() - next,
    {
        let item = items[next];
        let item_index = pane.items.len();
        assert(items@.take(next + 1).drop_last() =~= items@.take(next as int));
        if let Some(active_id) = active_item {
            if item.serialized_item_id == active_id {
                active_item_index = Some(item_index);
            }
        }
        pane.items.push(PaneItem::Terminal(item));
        assert(pane.items@ =~= before.items + items@.take(next + 1).map_values(tab));
        next += 1;
    }
    assert(items@.take(next as int) =~= items@);
    if active_item_index.is_some() {
        pane.active_item = active_item_index;
    }
    active_item_index
}

/// The smaller of a saved number of pinned tabs and the number of tabs there are.
pub open spec fn restored_pinned_count(pinned_count: nat, items: nat) -> nat {
    if pinned_count <= items {
        pinned_count
    } else {
        items
    }
}

/// The layout that comes back from a saved one, with `restored` in the places of its panes. A
/// split of which one member comes back gives way to that member, and a split of which none
/// does is left out.
pub open spec fn restored_layout(saved: SavedLayout, restored: Seq<PaneView>) -> Option<
    RestoredLayout,
>
    decreases saved,
{
    match saved {
        SavedLayout::Pane(_) => Some(Layout::Pane(restored[0])),
        SavedLayout::Group { axis, flexes, children } => {
            let members = restored_layouts(children, restored);
            if members.len() == 0 {
                None
            } else if members.len() == 1 {
                Some(members[0])
            } else {
                Some(Layout::Axis { axis, flexes, members })
            }
        },
    }
}

/// The layouts that come back from a sequence of saved ones.
pub open spec fn restored_layouts(children: Seq<SavedLayout>, restored: Seq<PaneView>) -> Seq<
    RestoredLayout,
>
    decreases children,
{
    if children.len() == 0 {
        Seq::empty()
    } else {
        let count = saved_panes_all(children.drop_last()).len() as int;
        let before = restored_layouts(children.drop_last(), restored.take(count));
        match restored_layout(children.last(), restored.skip(count)) {
            Some(member) => before.push(member),
            None => before,
        }
    }
}

/// The handle of the pane that stands for the first of the saved panes that was active.
pub open spec fn first_active(saved: Seq<SavedPane>, restored: Seq<PaneView>) -> Option<u64>
    decreases saved.len(),
{
    if saved.len() == 0 {
        None
    } else {
        match first_active(saved.drop_last(), restored) {
            Some(id) => Some(id),
            None => if saved.last().active {
                Some(restored[saved.len() - 1].id)
            } else {
                None
            },
        }
    }
}

proof fn lemma_first_active_add(
    saved: Seq<SavedPane>,
    more: Seq<SavedPane>,
    restored: Seq<PaneView>,
)
    requires
        saved.len() + more.len() <= restored.len(),
    ensures
        first_active(saved + more, restored) == match first_active(saved, restored) {
            Some(id) => Some(id),
            None => first_active(more, restored.skip(saved.len() as int)),
        },
    decreases more.len(),
{
    if more.len() == 0 {
        assert(saved + more =~= saved);
    } else {
        lemma_first_active_add(saved, more.drop_last(), restored);
        assert((saved + more).drop_last() =~= saved + more.drop_last());
    }
}

/// Only the panes that stand for saved ones decide which is active.
proof fn lemma_first_active_take(saved: Seq<SavedPane>, restored: Seq<PaneView>, count: int)
    requires
        saved.len() <= count <= restored.len(),
    ensures
        first_active(saved, restored.take(count)) == first_active(saved, restored),
    decreases saved.len(),
{
    if saved.len() > 0 {
        lemma_first_active_take(saved.drop_last(), restored, count);
    }
}

proof fn lemma_saved_panes_prefix(children: Seq<SavedLayout>, count: int)
    requires
        0 <= count <= children.len(),
    ensures
        saved_panes_all(children.take(count)).len() <= saved_panes_all(children).len(),
    decreases children.len(),
{
    if count < children.len() {
        lemma_saved_panes_prefix(children.drop_last(), count);
        assert(children.drop_last().take(count) =~= children.take(count));
    } else {
        assert(children.take(count) =~= children);
    }
}

fn copy_flexes(flexes: &Option<Vec<u32>>) -> (copy: Option<Vec<u32>>)
    ensures
        flexes_view(copy) == flexes_view(*flexes),
{
    match flexes {
        Some(flexes) => Some(flexes.clone()),
        None => None,
    }
}

/// Puts `panes` in the places of the panes of a saved split tree. Returns the tree, and the
/// handle of the pane that was saved as the active one; `None` for a tree without panes.
pub fn deserialize_pane_group(serialized: &SerializedPaneGroup, panes: &Vec<Pane>) -> (restored:
    Option<(RestoredMember, Option<u64>)>)
    requires
        panes.len() == saved_panes(serialized@).len(),
    ensures
        match restored {
            Some((member, active_pane)) => {
                &&& restored_layout(serialized@, pane_views(panes@)) == Some(member@)
                &&& active_pane == first_active(saved_panes(serialized@), pane_views(panes@))
            },
            None => restored_layout(serialized@, pane_views(panes@)) is None,
        },
{
    let (restored, end) = deserialize_pane_group_from(serialized, panes, 0);
    assert(pane_views(panes@).subrange(0, end as int) =~= pane_views(panes@));
    restored
}

fn deserialize_pane_group_from(
    serialized: &SerializedPaneGroup,
    panes: &Vec<Pane>,
    start: usize,
) -> (result: (Option<(RestoredMember, Option<u64>)>, usize))
    requires
        start + saved_panes(serialized@).len() <= panes.len(),
    ensures
        result.1 == start + saved_panes(serialized@).len(),
        ({
            let used = pane_views(panes@).subrange(start as int, result.1 as int);
            match result.0 {
                Some((member, active_pane)) => {
                    &&& restored_layout(serialized@, used) == Some(member@)
                    &&& active_pane == first_active(saved_panes(serialized@), used)
                },
                None => restored_layout(serialized@, used) is None,
            }
        }),
    decreases serialized,
{
    match serialized {
        SerializedPaneGroup::Pane(serialized_pane) => {
            let pane = panes[start].clone();
            let active_pane = if serialized_pane.active {
                Some(pane.id)
            } else {
                None
            };
            proof {
                let saved = saved_panes(serialized@);
                let used = pane_views(panes@).subrange(start as int, start + 1);
                assert(used[0] == pane@);
                assert(first_active(saved.drop_last(), used) is None);
            }
            (Some((RestoredMember::Pane(pane), active_pane)), start + 1)
        },
        SerializedPaneGroup::Group { axis, flexes, children } => {
            let mut current_active_pane: Option<u64> = None;
            let mut members: Vec<RestoredMember> = Vec::new();
            let mut next: usize = start;
            let mut index: usize = 0;
            let ghost all = pane_views(panes@);
            let ghost saved = groups_view(children@);
            assert(all.subrange(start as int, next as int) =~= Seq::empty());
            proof {
                crate::saved::lemma_groups_view(children@);
                assert(saved.take(0) =~= Seq::empty());
            }
            while index < children.len()
                invariant
                    index <= children.len(),
                    serialized matches SerializedPaneGroup::Group { children: every, .. } && every
                        == *children,
                    all == pane_views(panes@),
                    saved == groups_view(children@),
                    saved.len() == children.len(),
                    start + saved_panes_all(saved).len() <= panes.len(),
                    next == start + saved_panes_all(saved.take(index as int)).len(),
                    next <= panes.len(),
                    restored_views(members@) == restored_layouts(
                        saved.take(index as int),
                        all.subrange(start as int, next as int),
                    ),
                    current_active_pane == first_active(
                        saved_panes_all(saved.take(index as int)),
                        all.subrange(start as int, next as int),
                    ),
                decreases children.len() - index,
            {
                let ghost before = saved.take(index as int);
                let ghost after = saved.take(index + 1);
                proof {
                    crate::saved::lemma_groups_view(children@);
                    assert(after.drop_last() =~= before);
                    lemma_saved_panes_prefix(saved, index + 1);
                }
                let (child, end) = deserialize_pane_group_from(&children[index], panes, next);
                proof {
                    let used = all.subrange(start as int, end as int);
                    let count = saved_panes_all(before).len() as int;
                    assert(used.take(count) =~= all.subrange(start as int, next as int));
                    assert(used.skip(count) =~= all.subrange(next as int, end as int));
                    lemma_first_active_add(saved_panes_all(before), saved_panes(after.last()), used);
                    lemma_first_active_take(saved_panes_all(before), used, count);
                }
                if let Some((new_member, active_pane)) = child {
                    proof {
                        assert(members@.push(new_member).drop_last() =~= members@);
                    }
                    members.push(new_member);
                    if current_active_pane.is_none() {
                        current_active_pane = active_pane;
                    }
                } else {
                    proof {
                        lemma_restored_is_none(
                            after.last(),
                            all.subrange(next as int, end as int),
                        );
                    }
                }
                next = end;
                index += 1;
            }
            proof {
                assert(saved.take(index as int) =~= saved);
                crate::layout::lemma_restored_views(members@);
            }
            if members.len() == 0 {
                (None, next)
            } else if members.len() == 1 {
                let member = members.remove(0);
                (Some((member, current_active_pane)), next)
            } else {
                (
                    Some(
                        (
                            RestoredMember::Axis {
                                axis: axis.0,
                                flexes: copy_flexes(flexes),
                                members,
                            },
                            current_active_pane,
                        ),
                    ),
                    next,
                )
            }
        },
    }
}

/// A saved layout comes back unless it has no panes.
pub(crate) proof fn lemma_restored_is_none(saved: SavedLayout, restored: Seq<PaneView>)
    requires
        restored.len() == saved_panes(saved).len(),
    ensures
        restored_layout(saved, restored) is None <==> saved_panes(saved).len() == 0,
    decreases saved,
{
    if let SavedLayout::Group { children, .. } = saved {
        lemma_restored_layouts_count(children, restored);
    }
}

proof fn lemma_restored_layouts_count(children: Seq<SavedLayout>, restored: Seq<PaneView>)
    requires
        restored.len() == saved_panes_all(children).len(),
    ensures
        restored_layouts(children, restored).len() == 0 <==> saved_panes_all(children).len() == 0,
    decreases children,
{
    if children.len() > 0 {
        let count = saved_panes_all(children.drop_last()).len() as int;
        lemma_restored_layouts_count(children.drop_last(), restored.take(count));
        lemma_restored_is_none(children.last(), restored.skip(count));
    }
}

/// No split of a layout that came back has less than two members.
pub proof fn law_restored_splits_have_members(saved: SavedLayout, restored: Seq<PaneView>)
    ensures
        restored_layout(saved, restored) matches Some(layout) ==> is_normal(layout),
    decreases saved,
{
    if let SavedLayout::Group { children, .. } = saved {
        lemma_restored_are_normal(children, restored);
        let members = restored_layouts(children, restored);
        if members.len() == 1 {
            assert(members.last() == members[0]);
        }
    }
}

proof fn lemma_restored_are_normal(children: Seq<SavedLayout>, restored: Seq<PaneView>)
    ensures
        all_normal(restored_layouts(children, restored)),
    decreases children,
{
    if children.len() > 0 {
        let count = saved_panes_all(children.drop_last()).len() as int;
        let before = restored_layouts(children.drop_last(), restored.take(count));
        lemma_restored_are_normal(children.drop_last(), restored.take(count));
        law_restored_splits_have_members(children.last(), restored.skip(count));
        if let Some(member) = restored_layout(children.last(), restored.skip(count)) {
            assert(before.push(member).drop_last() =~= before);
        }
    }
}

/// The tab to activate is the last of the added ones that has the wanted id: it has the id, none
/// behind it has, and there is none to activate only if none of the added tabs has it.
pub proof fn law_the_last_match_is_activated(
    count: nat,
    items: Seq<TerminalItem>,
    active_item: Option<u64>,
)
    ensures
        match tab_to_activate(count, items, active_item) {
            Some(index) => {
                &&& count <= index < count + items.len()
                &&& Some(items[index - count].serialized_item_id) == active_item
                &&& forall|i: int|
                    index - count < i < items.len() ==> Some(
                        (#[trigger] items[i]).serialized_item_id,
                    ) != active_item
            },
            None => forall|i: int|
                0 <= i < items.len() ==> Some((#[trigger] items[i]).serialized_item_id)
                    != active_item,
        },
    decreases items.len(),
{
    if items.len() > 0 && Some(items.last().serialized_item_id) != active_item {
        let before = items.drop_last();
        law_the_last_match_is_activated(count, before, active_item);
        assert forall|i: int|
            0 <= i < items.len() && (tab_to_activate(count, before, active_item) matches Some(index)
                ==> index - count < i) implies Some((#[trigger] items[i]).serialized_item_id)
            != active_item by {
            if i < before.len() {
                assert(before[i] == items[i]);
            }
        }
    }
}

/// Populating a pane adds the terminals behind its tabs, in their order, and touches neither the
/// tabs before them nor the handle nor the pinned tabs. The active tab changes only to one that
/// was asked for.
pub proof fn law_populating_adds_tabs_behind(
    pane: PaneView,
    items: Seq<TerminalItem>,
    active_item: Option<u64>,
)
    ensures
        ({
            let populated = populated_pane(pane, items, active_item);
            let count = pane.items.len();
            &&& populated.id == pane.id
            &&& populated.pinned_count == pane.pinned_count
            &&& populated.items.len() == count + items.len()
            &&& forall|i: int| 0 <= i < count ==> #[trigger] populated.items[i] == pane.items[i]
            &&& forall|i: int|
                count <= i < count + items.len() ==> #[trigger] populated.items[i]
                    == PaneItem::Terminal(items[i - count])
            &&& match populated.active_item {
                Some(index) => {
                    ||| {
                        &&& count <= index < count + items.len()
                        &&& Some(items[index - count].serialized_item_id) == active_item
                        &&& forall|i: int|
                            index - count < i < items.len() ==> Some(
                                (#[trigger] items[i]).serialized_item_id,
                            ) != active_item
                    }
                    ||| populated.active_item == pane.active_item && forall|i: int|
                        0 <= i < items.len() ==> Some((#[trigger] items[i]).serialized_item_id)
                            != active_item
                },
                None => pane.active_item is None && forall|i: int|
                    0 <= i < items.len() ==> Some((#[trigger] items[i]).serialized_item_id)
                        != active_item,
            }
        }),
{
    law_the_last_match_is_activated(pane.items.len(), items, active_item);
}

/// The number of pinned tabs that is restored is the saved one, or the number of tabs where there
/// are fewer.
pub proof fn law_pinned_tabs_are_capped(pinned_count: nat, items: nat)
    ensures
        restored_pinned_count(pinned_count, items) <= pinned_count,
        restored_pinned_count(pinned_count, items) <= items,
        restored_pinned_count(pinned_count, items) == pinned_count || restored_pinned_count(
            pinned_count,
            items,
        ) == items,
{
}

/// The pane that is active again is the one that stands for the first saved pane that was active,
/// and none only if none was.
pub proof fn law_the_first_active_pane_counts(saved: Seq<SavedPane>, restored: Seq<PaneView>)
    ensures
        match first_active(saved, restored) {
            Some(id) => exists|i: int|
                0 <= i < saved.len() && (#[trigger] saved[i]).active && restored[i].id == id
                    && forall|j: int| 0 <= j < i ==> !(#[trigger] saved[j]).active,
            None => forall|i: int| 0 <= i < saved.len() ==> !(#[trigger] saved[i]).active,
        },
    decreases saved.len(),
{
    if saved.len() > 0 {
        let before = saved.drop_last();
        law_the_first_active_pane_counts(before, restored);
        match first_active(before, restored) {
            Some(id) => {
                let i = choose|i: int|
                    0 <= i < before.len() && (#[trigger] before[i]).active && restored[i].id == id
                        && forall|j: int| 0 <= j < i ==> !(#[trigger] before[j]).active;
                assert(saved[i].active);
                assert forall|j: int| 0 <= j < i implies !(#[trigger] saved[j]).active by {
                    assert(before[j] == saved[j]);
                }
            },
            None => {
                assert forall|j: int| 0 <= j < before.len() implies !(
                #[trigger] saved[j]).active by {
                    assert(before[j] == saved[j]);
                }
                if saved.last().active {
                    assert(saved[saved.len() - 1].active);
                }
            },
        }
    }
}

/// Which saved nodes come back. A pane comes back as the pane that stands for it. Of the members
/// of a split, those with panes come back, in their order, each with its own panes. A split with
/// at least two such members comes back with its direction and its weights. One with a single
/// such member gives way to it, and one without any is gone.
pub proof fn law_what_a_saved_node_comes_back_as(saved: SavedLayout, restored: Seq<PaneView>)
    requires
        restored.len() == saved_panes(saved).len(),
    ensures
        match saved {
            SavedLayout::Pane(_) => restored_layout(saved, restored) == Some(
                RestoredLayout::Pane(restored[0]),
            ),
            SavedLayout::Group { axis, flexes, children } => {
                let kept = children.filter(|child: SavedLayout| saved_panes(child).len() > 0);
                if kept.len() == 0 {
                    restored_layout(saved, restored) is None
                } else if kept.len() == 1 {
                    restored_layout(saved, restored) == restored_layout(kept[0], restored)
                } else {
                    &&& restored_layout(saved, restored) matches Some(
                        Layout::Axis { axis: restored_axis, flexes: restored_flexes, members },
                    )
                    &&& restored_axis == axis
                    &&& restored_flexes == flexes
                    &&& members.len() == kept.len()
                    &&& panes_all(members) == restored
                    &&& forall|i: int|
                        0 <= i < kept.len() ==> {
                            &&& panes(#[trigger] members[i]).len() == saved_panes(kept[i]).len()
                            &&& restored_layout(kept[i], panes(members[i])) == Some(members[i])
                        }
                }
            },
        },
{
    if let SavedLayout::Group { children, .. } = saved {
        lemma_kept_members(children, restored);
        let kept = children.filter(|child: SavedLayout| saved_panes(child).len() > 0);
        let members = restored_layouts(children, restored);
        if kept.len() == 1 {
            assert(members =~= seq![members[0]]);
            assert(members.drop_last() =~= Seq::empty());
            assert(panes_all(members) == panes_all(members.drop_last()) + panes(members[0]));
            assert(panes_all(members) =~= panes(members[0]));
        }
    }
}

proof fn lemma_kept_members(children: Seq<SavedLayout>, restored: Seq<PaneView>)
    requires
        restored.len() == saved_panes_all(children).len(),
    ensures
        ({
            let kept = children.filter(|child: SavedLayout| saved_panes(child).len() > 0);
            let members = restored_layouts(children, restored);
            &&& members.len() == kept.len()
            &&& panes_all(members) == restored
            &&& forall|i: int|
                0 <= i < kept.len() ==> {
                    &&& panes(#[trigger] members[i]).len() == saved_panes(kept[i]).len()
                    &&& restored_layout(kept[i], panes(members[i])) == Some(members[i])
                }
        }),
    decreases children.len(),
{
    reveal(Seq::filter);
    crate::layout_laws::lemma_every_pane_comes_back(children, restored);
    if children.len() > 0 {
        let count = saved_panes_all(children.drop_last()).len() as int;
        let before = children.drop_last();
        let last = children.last();
        lemma_kept_members(before, restored.take(count));
        lemma_restored_is_none(last, restored.skip(count));
        crate::layout_laws::law_every_pane_comes_back(last, restored.skip(count));
        let kept = children.filter(|child: SavedLayout| saved_panes(child).len() > 0);
        let kept_before = before.filter(|child: SavedLayout| saved_panes(child).len() > 0);
        let members = restored_layouts(children, restored);
        let members_before = restored_layouts(before, restored.take(count));
        assert forall|i: int| 0 <= i < kept.len() implies {
            &&& panes(#[trigger] members[i]).len() == saved_panes(kept[i]).len()
            &&& restored_layout(kept[i], panes(members[i])) == Some(members[i])
        } by {
            if i < kept_before.len() {
                assert(members[i] == members_before[i]);
                assert(kept[i] == kept_before[i]);
            }
        }
    }
}

} // verus!
