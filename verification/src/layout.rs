//! The split layouts of a terminal panel: the live tree of panes, and the tree that comes back
//! from a saved panel.

use vstd::prelude::*;

verus! {

/// The direction in which the members of a split are laid out.
#[derive(Clone, Copy, Debug, PartialEq, Eq, Structural)]
pub enum Axis {
    Horizontal,
    Vertical,
}

/// A terminal tab: the id under which it is saved, and whether it runs a task.
#[derive(Clone, Copy, Debug, PartialEq, Eq, Structural)]
pub struct TerminalItem {
    pub serialized_item_id: u64,
    pub is_task: bool,
}

/// A tab of a pane.
#[derive(Clone, Copy, Debug, PartialEq, Eq, Structural)]
pub enum PaneItem {
    Terminal(TerminalItem),
    Other,
}

impl PaneItem {
    /// Whether the tab is part of the saved layout: it is a terminal, and no task runs in it.
    pub open spec fn persists(self) -> bool {
        self matches PaneItem::Terminal(terminal) && !terminal.is_task
    }

    /// The id under which a terminal tab is saved.
    pub open spec fn item_id(self) -> u64
        recommends
            self is Terminal,
    {
        self->Terminal_0.serialized_item_id
    }
}

/// A pane: its handle, its tabs from left to right, the tab chosen as the active one (`None`
/// where no tab was chosen), and the number of pinned tabs.
#[derive(Debug, PartialEq, Eq)]
pub struct Pane {
    pub id: u64,
    pub items: Vec<PaneItem>,
    pub active_item: Option<usize>,
    pub pinned_count: usize,
}

/// A node of the split tree. The weights of a split are the bit patterns of single precision
/// numbers.
#[derive(Debug, PartialEq, Eq)]
pub enum Member {
    Pane(Pane),
    Axis { axis: Axis, flexes: Vec<u32>, members: Vec<Member> },
}

/// A node of a split tree that comes back from a saved panel. A split is given the weights with
/// which it was saved; where there are none, they are left to the editor.
#[derive(Debug, PartialEq, Eq)]
pub enum RestoredMember {
    Pane(Pane),
    Axis { axis: Axis, flexes: Option<Vec<u32>>, members: Vec<RestoredMember> },
}

/// What a [`Pane`] is.
#[verifier::ext_equal]
pub struct PaneView {
    pub id: u64,
    pub items: Seq<PaneItem>,
    pub active_item: Option<int>,
    pub pinned_count: nat,
}

/// What a split tree is, where `W` is what it says of the weights of a split.
pub enum Layout<W> {
    Pane(PaneView),
    Axis { axis: Axis, flexes: W, members: Seq<Layout<W>> },
}

/// What a [`Member`] is.
pub type LiveLayout = Layout<Seq<u32>>;

/// What a [`RestoredMember`] is.
pub type RestoredLayout = Layout<Option<Seq<u32>>>;

impl View for Pane {
    type V = PaneView;

    open spec fn view(&self) -> PaneView {
        PaneView {
            id: self.id,
            items: self.items@,
            active_item: index_view(self.active_item),
            pinned_count: self.pinned_count as nat,
        }
    }
}

/// The index of a tab, if there is one.
pub open spec fn index_view(index: Option<usize>) -> Option<int> {
    match index {
        Some(index) => Some(index as int),
        None => None,
    }
}

impl Clone for Pane {
    fn clone(&self) -> (copy: Self)
        ensures
            copy@ == self@,
    {
        let items = self.items.clone();
        assert(items@ =~= self.items@);
        Pane {
            id: self.id,
            items,
            active_item: self.active_item,
            pinned_count: self.pinned_count,
        }
    }
}

/// What the panes in `panes` are, one for each.
pub open spec fn pane_views(panes: Seq<Pane>) -> Seq<PaneView> {
    panes.map_values(|pane: Pane| pane@)
}

/// The weights of a split as a sequence, where there are any.
pub open spec fn flexes_view(flexes: Option<Vec<u32>>) -> Option<Seq<u32>> {
    match flexes {
        Some(flexes) => Some(flexes@),
        None => None,
    }
}

/// The layout that a live tree describes.
pub open spec fn member_view(member: Member) -> LiveLayout
    decreases member,
{
    match member {
        Member::Pane(pane) => Layout::Pane(pane@),
        Member::Axis { axis, flexes, members } => Layout::Axis {
            axis,
            flexes: flexes@,
            members: members_view(members@),
        },
    }
}

/// The layouts that the live trees in `members` describe, one for each.
pub open spec fn members_view(members: Seq<Member>) -> Seq<LiveLayout>
    decreases members,
{
    if members.len() == 0 {
        Seq::empty()
    } else {
        members_view(members.drop_last()).push(member_view(members.last()))
    }
}

impl View for Member {
    type V = LiveLayout;

    open spec fn view(&self) -> LiveLayout {
        member_view(*self)
    }
}

/// The layout that a restored tree describes.
pub open spec fn restored_view(member: RestoredMember) -> RestoredLayout
    decreases member,
{
    match member {
        RestoredMember::Pane(pane) => Layout::Pane(pane@),
        RestoredMember::Axis { axis, flexes, members } => Layout::Axis {
            axis,
            flexes: flexes_view(flexes),
            members: restored_views(members@),
        },
    }
}

/// The layouts that the restored trees in `members` describe, one for each.
pub open spec fn restored_views(members: Seq<RestoredMember>) -> Seq<RestoredLayout>
    decreases members,
{
    if members.len() == 0 {
        Seq::empty()
    } else {
        restored_views(members.drop_last()).push(restored_view(members.last()))
    }
}

impl View for RestoredMember {
    type V = RestoredLayout;

    open spec fn view(&self) -> RestoredLayout {
        restored_view(*self)
    }
}

/// Every restored tree keeps its place in the sequence of the layouts.
pub(crate) proof fn lemma_restored_views(members: Seq<RestoredMember>)
    ensures
        restored_views(members).len() == members.len(),
        forall|i: int|
            0 <= i < members.len() ==> #[trigger] restored_views(members)[i] == restored_view(
                members[i],
            ),
    decreases members.len(),
{
    if members.len() > 0 {
        lemma_restored_views(members.drop_last());
        assert forall|i: int| 0 <= i < members.len() implies #[trigger] restored_views(members)[i]
            == restored_view(members[i]) by {
            if i < members.len() - 1 {
                assert(restored_views(members.drop_last())[i] == restored_view(
                    members.drop_last()[i],
                ));
            }
        }
    }
}

/// The panes of a layout, in the order in which they stand in it.
pub open spec fn panes<W>(layout: Layout<W>) -> Seq<PaneView>
    decreases layout,
{
    match layout {
        Layout::Pane(pane) => seq![pane],
        Layout::Axis { members, .. } => panes_all(members),
    }
}

/// The panes of a sequence of layouts, one layout after the other.
pub open spec fn panes_all<W>(members: Seq<Layout<W>>) -> Seq<PaneView>
    decreases members,
{
    if members.len() == 0 {
        Seq::empty()
    } else {
        panes_all(members.drop_last()) + panes(members.last())
    }
}

/// Whether no split of a layout stands for less than two members.
pub open spec fn is_normal<W>(layout: Layout<W>) -> bool
    decreases layout,
{
    match layout {
        Layout::Pane(_) => true,
        Layout::Axis { members, .. } => members.len() >= 2 && all_normal(members),
    }
}

/// Whether no split of a sequence of layouts stands for less than two members.
pub open spec fn all_normal<W>(members: Seq<Layout<W>>) -> bool
    decreases members,
{
    members.len() == 0 || (all_normal(members.drop_last()) && is_normal(members.last()))
}

/// The panes of a layout begin with those of its first member.
proof fn lemma_panes_all_starts_with_first<W>(members: Seq<Layout<W>>)
    requires
        members.len() > 0,
    ensures
        panes_all(members).len() >= panes(members[0]).len(),
        panes_all(members).take(panes(members[0]).len() as int) == panes(members[0]),
    decreases members.len(),
{
    let first = panes(members[0]);
    if members.len() == 1 {
        assert(panes_all(members.drop_last()) =~= Seq::empty());
        assert(panes_all(members) =~= first);
    } else {
        lemma_panes_all_starts_with_first(members.drop_last());
        let before = panes_all(members.drop_last());
        assert(panes_all(members).take(first.len() as int) =~= before.take(first.len() as int));
    }
}

/// The members of a sequence of normal layouts are normal.
proof fn lemma_all_normal<W>(members: Seq<Layout<W>>, index: int)
    requires
        all_normal(members),
        0 <= index < members.len(),
    ensures
        is_normal(members[index]),
    decreases members.len(),
{
    if index < members.len() - 1 {
        lemma_all_normal(members.drop_last(), index);
    }
}

/// A layout in which every split has members holds a pane.
pub(crate) proof fn lemma_normal_has_panes<W>(layout: Layout<W>)
    requires
        is_normal(layout),
    ensures
        panes(layout).len() > 0,
    decreases layout,
{
    if let Layout::Axis { members, .. } = layout {
        lemma_all_normal(members, 0);
        lemma_normal_has_panes(members[0]);
        lemma_panes_all_starts_with_first(members);
    }
}

impl RestoredMember {
    /// The handle of the first pane of the tree.
    pub fn first_pane(&self) -> (id: u64)
        requires
            is_normal(self@),
        ensures
            panes(self@).len() > 0,
            id == panes(self@)[0].id,
        decreases self,
    {
        match self {
            RestoredMember::Pane(pane) => pane.id,
            RestoredMember::Axis { axis, flexes, members } => {
                proof {
                    lemma_restored_views(members@);
                    let views = restored_views(members@);
                    lemma_all_normal(views, 0);
                    lemma_normal_has_panes(views[0]);
                    lemma_panes_all_starts_with_first(views);
                    let first = panes(views[0]);
                    assert(panes_all(views).take(first.len() as int)[0] == first[0]);
                }
                members[0].first_pane()
            },
        }
    }
}

/// The panes of a split are those of its members, one member after the other.
pub proof fn law_panes_stand_in_order<W>(layout: Layout<W>)
    ensures
        match layout {
            Layout::Pane(pane) => panes(layout) == seq![pane],
            Layout::Axis { members, .. } => panes(layout) == members.map_values(
                |member: Layout<W>| panes(member),
            ).flatten(),
        },
{
    if let Layout::Axis { members, .. } = layout {
        lemma_panes_all_flatten(members);
    }
}

proof fn lemma_panes_all_flatten<W>(members: Seq<Layout<W>>)
    ensures
        panes_all(members) == members.map_values(|member: Layout<W>| panes(member)).flatten(),
    decreases members.len(),
{
    let of_member = |member: Layout<W>| panes(member);
    if members.len() > 0 {
        lemma_panes_all_flatten(members.drop_last());
        members.drop_last().map_values(of_member).lemma_flatten_push(panes(members.last()));
        assert(members.map_values(of_member) =~= members.drop_last().map_values(of_member).push(
            panes(members.last()),
        ));
    }
}

/// A layout is normal if and only if it is a pane, or a split of at least two members that are
/// normal themselves.
pub proof fn law_normal_splits_have_two_members<W>(layout: Layout<W>)
    ensures
        match layout {
            Layout::Pane(_) => is_normal(layout),
            Layout::Axis { members, .. } => is_normal(layout) <==> members.len() >= 2 && forall|
                i: int,
            |
                0 <= i < members.len() ==> is_normal(#[trigger] members[i]),
        },
{
    if let Layout::Axis { members, .. } = layout {
        if all_normal(members) {
            assert forall|i: int| 0 <= i < members.len() implies is_normal(
                #[trigger] members[i],
            ) by {
                lemma_all_normal(members, i);
            }
        }
        if forall|i: int| 0 <= i < members.len() ==> is_normal(#[trigger] members[i]) {
            lemma_normal_members(members);
        }
    }
}

proof fn lemma_normal_members<W>(members: Seq<Layout<W>>)
    requires
        forall|i: int| 0 <= i < members.len() ==> is_normal(#[trigger] members[i]),
    ensures
        all_normal(members),
    decreases members.len(),
{
    if members.len() > 0 {
        assert(is_normal(members[members.len() - 1]));
        assert forall|i: int| 0 <= i < members.len() - 1 implies is_normal(
            #[trigger] members.drop_last()[i],
        ) by {
            assert(is_normal(members[i]));
        }
        lemma_normal_members(members.drop_last());
    }
}

} // verus!
