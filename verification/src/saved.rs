//! The saved form of a terminal panel.

use vstd::prelude::*;
use crate::layout::Axis;
use crate::layout::flexes_view;

verus! {

/// The saved state of a terminal panel.
#[derive(Debug, PartialEq, Eq)]
pub struct SerializedTerminalPanel {
    pub items: SerializedItems,
    /// The active tab of a panel that was saved without splits. Kept for such panels alone: a
    /// panel with splits has an active tab in each pane.
    pub active_item_id: Option<u64>,
}

/// The tabs of a saved terminal panel.
#[derive(Debug, PartialEq, Eq)]
pub enum SerializedItems {
    /// The form in which panels were saved before they could be split.
    NoSplits(Vec<u64>),
    WithSplits(SerializedPaneGroup),
}

/// A saved split tree. The weights of a split are the bit patterns of single precision numbers.
#[derive(Debug, PartialEq, Eq)]
pub enum SerializedPaneGroup {
    Pane(SerializedPane),
    Group { axis: SerializedAxis, flexes: Option<Vec<u32>>, children: Vec<SerializedPaneGroup> },
}

/// A saved pane.
#[derive(Debug, PartialEq, Eq)]
pub struct SerializedPane {
    pub active: bool,
    pub children: Vec<u64>,
    pub active_item: Option<u64>,
    pub pinned_count: usize,
}

/// The direction of a saved split.
#[derive(Clone, Copy, Debug, PartialEq, Eq, Structural)]
pub struct SerializedAxis(pub Axis);

/// What a [`SerializedPane`] is.
pub struct SavedPane {
    pub active: bool,
    pub children: Seq<u64>,
    pub active_item: Option<u64>,
    pub pinned_count: nat,
}

/// What a [`SerializedPaneGroup`] is.
pub enum SavedLayout {
    Pane(SavedPane),
    Group { axis: Axis, flexes: Option<Seq<u32>>, children: Seq<SavedLayout> },
}

/// What [`SerializedItems`] are.
pub enum SavedItems {
    NoSplits(Seq<u64>),
    WithSplits(SavedLayout),
}

/// What a [`SerializedTerminalPanel`] is.
pub struct SavedPanel {
    pub items: SavedItems,
    pub active_item_id: Option<u64>,
}

impl View for SerializedPane {
    type V = SavedPane;

    open spec fn view(&self) -> SavedPane {
        SavedPane {
            active: self.active,
            children: self.children@,
            active_item: self.active_item,
            pinned_count: self.pinned_count as nat,
        }
    }
}

impl Clone for SerializedPane {
    fn clone(&self) -> (copy: Self)
        ensures
            copy@ == self@,
    {
        let children = self.children.clone();
        assert(children@ =~= self.children@);
        SerializedPane {
            active: self.active,
            children,
            active_item: self.active_item,
            pinned_count: self.pinned_count,
        }
    }
}

/// What the saved panes in `panes` are, one for each.
pub open spec fn saved_pane_views(panes: Seq<SerializedPane>) -> Seq<SavedPane> {
    panes.map_values(|pane: SerializedPane| pane@)
}

/// The layout that a saved split tree describes.
pub open spec fn group_view(group: SerializedPaneGroup) -> SavedLayout
    decreases group,
{
    match group {
        SerializedPaneGroup::Pane(pane) => SavedLayout::Pane(pane@),
        SerializedPaneGroup::Group { axis, flexes, children } => SavedLayout::Group {
            axis: axis.0,
            flexes: flexes_view(flexes),
            children: groups_view(children@),
        },
    }
}

/// The layouts that the saved trees in `groups` describe, one for each.
pub open spec fn groups_view(groups: Seq<SerializedPaneGroup>) -> Seq<SavedLayout>
    decreases groups,
{
    if groups.len() == 0 {
        Seq::empty()
    } else {
        groups_view(groups.drop_last()).push(group_view(groups.last()))
    }
}

impl View for SerializedPaneGroup {
    type V = SavedLayout;

    open spec fn view(&self) -> SavedLayout {
        group_view(*self)
    }
}

/// Every saved tree keeps its place in the sequence of its layouts.
pub(crate) proof fn lemma_groups_view(groups: Seq<SerializedPaneGroup>)
    ensures
        groups_view(groups).len() == groups.len(),
        forall|i: int|
            0 <= i < groups.len() ==> #[trigger] groups_view(groups)[i] == group_view(groups[i]),
    decreases groups.len(),
{
    if groups.len() > 0 {
        lemma_groups_view(groups.drop_last());
        assert forall|i: int| 0 <= i < groups.len() implies #[trigger] groups_view(groups)[i]
            == group_view(groups[i]) by {
            if i < groups.len() - 1 {
                assert(groups_view(groups.drop_last())[i] == group_view(groups.drop_last()[i]));
            }
        }
    }
}

impl View for SerializedItems {
    type V = SavedItems;

    open spec fn view(&self) -> SavedItems {
        match *self {
            SerializedItems::NoSplits(children) => SavedItems::NoSplits(children@),
            SerializedItems::WithSplits(group) => SavedItems::WithSplits(group@),
        }
    }
}

impl View for SerializedTerminalPanel {
    type V = SavedPanel;

    open spec fn view(&self) -> SavedPanel {
        SavedPanel { items: self.items@, active_item_id: self.active_item_id }
    }
}

/// The panes of a saved layout, in the order in which they stand in it.
pub open spec fn saved_panes(layout: SavedLayout) -> Seq<SavedPane>
    decreases layout,
{
    match layout {
        SavedLayout::Pane(pane) => seq![pane],
        SavedLayout::Group { children, .. } => saved_panes_all(children),
    }
}

/// The panes of a sequence of saved layouts, one layout after the other.
pub open spec fn saved_panes_all(children: Seq<SavedLayout>) -> Seq<SavedPane>
    decreases children,
{
    if children.len() == 0 {
        Seq::empty()
    } else {
        saved_panes_all(children.drop_last()) + saved_panes(children.last())
    }
}

impl SerializedPaneGroup {
    /// Appends the panes of the tree to `panes`, in the order in which they stand in it.
    pub fn collect_panes(&self, panes: &mut Vec<SerializedPane>)
        ensures
            saved_pane_views(final(panes)@) == saved_pane_views(old(panes)@) + saved_panes(self@),
        decreases self,
    {
        match self {
            SerializedPaneGroup::Pane(pane) => {
                panes.push(pane.clone());
                assert(saved_pane_views(panes@) =~= saved_pane_views(old(panes)@) + saved_panes(
                    self@,
                ));
            },
            SerializedPaneGroup::Group { axis, flexes, children } => {
                let mut index: usize = 0;
                let ghost before = saved_pane_views(panes@);
                assert(before + saved_panes_all(groups_view(children@.take(0))) =~= before);
                while index < children.len()
                    invariant
                        index <= children.len(),
                        self matches SerializedPaneGroup::Group { children: every, .. } && every
                            == *children,
                        saved_pane_views(panes@) == before + saved_panes_all(
                            groups_view(children@.take(index as int)),
                        ),
                    decreases children.len() - index,
                {
                    proof {
                        let next = children@.take(index + 1);
                        assert(next.drop_last() =~= children@.take(index as int));
                        let views = groups_view(next);
                        assert(views.drop_last() =~= groups_view(children@.take(index as int)));
                        assert(saved_panes_all(views) =~= saved_panes_all(views.drop_last())
                            + saved_panes(views.last()));
                    }
                    children[index].collect_panes(panes);
                    assert(saved_pane_views(panes@) =~= before + saved_panes_all(
                        groups_view(children@.take(index + 1)),
                    ));
                    index += 1;
                }
                assert(children@.take(index as int) =~= children@);
            },
        }
    }
}

/// The word that stands for an axis in the saved form.
pub open spec fn axis_text(axis: Axis) -> Seq<char> {
    match axis {
        Axis::Horizontal => "horizontal"@,
        Axis::Vertical => "vertical"@,
    }
}

/// A word that stands for no axis.
#[derive(Clone, Debug, PartialEq, Eq)]
pub struct InvalidAxis {
    pub value: String,
}

impl InvalidAxis {
    /// The text of the error.
    pub fn message(&self) -> (message: String)
        ensures
            message@ == "Invalid axis value: '"@ + self.value@ + "'"@,
    {
        "Invalid axis value: '".to_owned().concat(self.value.as_str()).concat("'")
    }
}

impl SerializedAxis {
    /// The word that stands for the axis.
    pub fn serialize(&self) -> (text: &'static str)
        ensures
            text@ == axis_text(self.0),
    {
        match self.0 {
            Axis::Horizontal => "horizontal",
            Axis::Vertical => "vertical",
        }
    }

    /// The axis that a word stands for. Words for which there is none are refused.
    pub fn deserialize(text: &str) -> (result: Result<SerializedAxis, InvalidAxis>)
        ensures
            match result {
                Ok(axis) => text@ == axis_text(axis.0),
                Err(error) => {
                    &&& error.value@ == text@
                    &&& forall|axis: Axis| text@ != #[trigger] axis_text(axis)
                },
            },
    {
        let value = text.to_owned();
        if value == "horizontal".to_owned() {
            Ok(SerializedAxis(Axis::Horizontal))
        } else if value == "vertical".to_owned() {
            Ok(SerializedAxis(Axis::Vertical))
        } else {
            Err(InvalidAxis { value })
        }
    }
}

/// Every axis is read back from the word it is saved as, and from no other: an axis has one
/// word, and no two axes share one.
pub proof fn law_axis_text_is_injective(first: Axis, second: Axis)
    ensures
        axis_text(first) == axis_text(second) <==> first == second,
{
    reveal_strlit("horizontal");
    reveal_strlit("vertical");
    assert("horizontal"@.len() != "vertical"@.len());
}

/// The panes of a saved split are those of its members, one member after the other.
pub proof fn law_saved_panes_stand_in_order(layout: SavedLayout)
    ensures
        match layout {
            SavedLayout::Pane(pane) => saved_panes(layout) == seq![pane],
            SavedLayout::Group { children, .. } => saved_panes(layout) == children.map_values(
                |child: SavedLayout| saved_panes(child),
            ).flatten(),
        },
{
    if let SavedLayout::Group { children, .. } = layout {
        lemma_saved_panes_all_flatten(children);
    }
}

proof fn lemma_saved_panes_all_flatten(children: Seq<SavedLayout>)
    ensures
        saved_panes_all(children) == children.map_values(
            |child: SavedLayout| saved_panes(child),
        ).flatten(),
    decreases children.len(),
{
    let of_child = |child: SavedLayout| saved_panes(child);
    if children.len() > 0 {
        lemma_saved_panes_all_flatten(children.drop_last());
        children.drop_last().map_values(of_child).lemma_flatten_push(saved_panes(children.last()));
        assert(children.map_values(of_child) =~= children.drop_last().map_values(of_child).push(
            saved_panes(children.last()),
        ));
    }
}

} // verus!
