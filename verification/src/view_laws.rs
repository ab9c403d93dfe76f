//! That the views show everything: each field of a value, as it is.

use vstd::prelude::*;
use crate::layout::Layout;
use crate::layout::Member;
use crate::layout::Pane;
use crate::layout::RestoredMember;
use crate::layout::flexes_view;
use crate::layout::index_view;
use crate::layout::lemma_restored_views;
use crate::layout::member_view;
use crate::layout::members_view;
use crate::layout::pane_views;
use crate::native_path::NativePath;
use crate::native_path::PathView;
use crate::native_path::path_view;
use crate::panel_restore::ActionView;
use crate::panel_restore::EventView;
use crate::panel_restore::RestoreAction;
use crate::panel_restore::RestoreEvent;
use crate::saved::SavedItems;
use crate::saved::SavedLayout;
use crate::saved::SerializedItems;
use crate::saved::SerializedPane;
use crate::saved::SerializedPaneGroup;
use crate::saved::SerializedTerminalPanel;
use crate::saved::lemma_groups_view;
use crate::saved::saved_pane_views;
use crate::terminal_db::TerminalRow;
use crate::terminal_source::SerializedTerminalSource;
use crate::terminal_source::SourceErrorView;
use crate::terminal_source::SourceView;
use crate::terminal_source::TerminalSourceError;
use crate::terminal_source::text_view;

verus! {

/// What may be absent is seen if it is there.
pub proof fn law_what_is_there_is_seen(
    text: String,
    path: NativePath,
    index: usize,
    flexes: Vec<u32>,
)
    ensures
        text_view(Some(text)) == Some(text@),
        text_view(None) is None,
        path_view(Some(path)) == Some(path@),
        path_view(None) is None,
        index_view(Some(index)) == Some(index as int),
        index_view(None) is None,
        flexes_view(Some(flexes)) == Some(flexes@),
        flexes_view(None) is None,
{
}

/// A pane is seen with its handle, its tabs, its active tab and its pinned tabs.
pub proof fn law_panes_are_seen_whole(pane: Pane)
    ensures
        pane@.id == pane.id,
        pane@.items == pane.items@,
        pane.active_item is Some <==> pane@.active_item is Some,
        pane.active_item is Some ==> pane@.active_item->0 == pane.active_item->0,
        pane@.pinned_count == pane.pinned_count,
{
}

/// Panes are seen one by one, in their order.
pub proof fn law_rows_of_panes_are_seen_whole(panes: Seq<Pane>, saved: Seq<SerializedPane>)
    ensures
        pane_views(panes).len() == panes.len(),
        forall|i: int| 0 <= i < panes.len() ==> #[trigger] pane_views(panes)[i] == panes[i]@,
        saved_pane_views(saved).len() == saved.len(),
        forall|i: int| 0 <= i < saved.len() ==> #[trigger] saved_pane_views(saved)[i] == saved[i]@,
{
}

proof fn lemma_members_view(members: Seq<Member>)
    ensures
        members_view(members).len() == members.len(),
        forall|i: int|
            0 <= i < members.len() ==> #[trigger] members_view(members)[i] == member_view(
                members[i],
            ),
    decreases members.len(),
{
    if members.len() > 0 {
        let before = members.drop_last();
        lemma_members_view(before);
        assert forall|i: int| 0 <= i < members.len() implies #[trigger] members_view(members)[i]
            == member_view(members[i]) by {
            if i < before.len() {
                assert(members_view(before)[i] == member_view(before[i]));
            }
        }
    }
}

/// A node of a live tree is seen as the pane or the split that it is, with the members of the
/// split in their order.
pub proof fn law_members_are_seen_whole(member: Member)
    ensures
        match (member, member@) {
            (Member::Pane(pane), Layout::Pane(seen)) => seen == pane@,
            (
                Member::Axis { axis, flexes, members },
                Layout::Axis { axis: seen_axis, flexes: seen_flexes, members: seen },
            ) => {
                &&& seen_axis == axis
                &&& seen_flexes == flexes@
                &&& seen.len() == members.len()
                &&& forall|i: int| 0 <= i < members.len() ==> #[trigger] seen[i] == members[i]@
            },
            _ => false,
        },
{
    if let Member::Axis { members, .. } = member {
        lemma_members_view(members@);
    }
}

/// A node of a restored tree is seen as the pane or the split that it is, with the members of the
/// split in their order.
pub proof fn law_restored_members_are_seen_whole(member: RestoredMember)
    ensures
        match (member, member@) {
            (RestoredMember::Pane(pane), Layout::Pane(seen)) => seen == pane@,
            (
                RestoredMember::Axis { axis, flexes, members },
                Layout::Axis { axis: seen_axis, flexes: seen_flexes, members: seen },
            ) => {
                &&& seen_axis == axis
                &&& flexes is Some <==> seen_flexes is Some
                &&& flexes is Some ==> seen_flexes->0 == flexes->0@
                &&& seen.len() == members.len()
                &&& forall|i: int| 0 <= i < members.len() ==> #[trigger] seen[i] == members[i]@
            },
            _ => false,
        },
{
    if let RestoredMember::Axis { members, .. } = member {
        lemma_restored_views(members@);
    }
}

/// A saved pane is seen with all that is saved of it.
pub proof fn law_saved_panes_are_seen_whole(pane: SerializedPane)
    ensures
        pane@.active == pane.active,
        pane@.children == pane.children@,
        pane@.active_item == pane.active_item,
        pane@.pinned_count == pane.pinned_count,
{
}

/// A node of a saved tree is seen as the pane or the split that it is, with the members of the
/// split in their order.
pub proof fn law_saved_groups_are_seen_whole(group: SerializedPaneGroup)
    ensures
        match (group, group@) {
            (SerializedPaneGroup::Pane(pane), SavedLayout::Pane(seen)) => seen == pane@,
            (
                SerializedPaneGroup::Group { axis, flexes, children },
                SavedLayout::Group { axis: seen_axis, flexes: seen_flexes, children: seen },
            ) => {
                &&& seen_axis == axis.0
                &&& flexes is Some <==> seen_flexes is Some
                &&& flexes is Some ==> seen_flexes->0 == flexes->0@
                &&& seen.len() == children.len()
                &&& forall|i: int| 0 <= i < children.len() ==> #[trigger] seen[i] == children[i]@
            },
            _ => false,
        },
{
    if let SerializedPaneGroup::Group { children, .. } = group {
        lemma_groups_view(children@);
    }
}

/// A saved panel is seen with its active tab, and with its tabs or its tree.
pub proof fn law_saved_panels_are_seen_whole(panel: SerializedTerminalPanel)
    ensures
        panel@.active_item_id == panel.active_item_id,
        panel@.items == panel.items@,
        match (panel.items, panel.items@) {
            (SerializedItems::NoSplits(ids), SavedItems::NoSplits(seen)) => seen == ids@,
            (SerializedItems::WithSplits(group), SavedItems::WithSplits(seen)) => seen == group@,
            _ => false,
        },
{
}

/// News are seen as what they are.
pub proof fn law_events_are_seen_whole(event: RestoreEvent)
    ensures
        match (event, event@) {
            (RestoreEvent::PaneCreated(pane), EventView::PaneCreated(seen)) => seen == pane@,
            (RestoreEvent::TerminalsLoaded(items), EventView::TerminalsLoaded(seen)) => seen
                == items@,
            (RestoreEvent::PanePopulated, EventView::PanePopulated) => true,
            (RestoreEvent::ShellCreated(item), EventView::ShellCreated(seen)) => seen == item,
            (RestoreEvent::Failed(error), EventView::Failed(seen)) => seen == error@,
            _ => false,
        },
{
}

/// Actions are seen as what they ask for.
pub proof fn law_actions_are_seen_whole(action: RestoreAction)
    ensures
        match (action, action@) {
            (RestoreAction::CreatePane, ActionView::CreatePane) => true,
            (RestoreAction::LoadTerminals(ids), ActionView::LoadTerminals(seen)) => seen == ids@,
            (
                RestoreAction::PopulatePane { activate, pinned_count },
                ActionView::PopulatePane { activate: seen_activate, pinned_count: seen_count },
            ) => {
                &&& activate is Some <==> seen_activate is Some
                &&& activate is Some ==> seen_activate->0 == activate->0
                &&& pinned_count is Some <==> seen_count is Some
                &&& pinned_count is Some ==> seen_count->0 == pinned_count->0
            },
            (RestoreAction::CreateShell, ActionView::CreateShell) => true,
            (RestoreAction::Finish, ActionView::Finish) => true,
            (RestoreAction::Abort(error), ActionView::Abort(seen)) => seen == error@,
            _ => false,
        },
{
}

/// A row is seen with all of its columns, and with the terminal to which it belongs.
pub proof fn law_rows_are_seen_whole(row: TerminalRow)
    ensures
        row.key() == (row.workspace_id, row.item_id),
        row.working_directory is Some <==> row@.working_directory is Some,
        row.working_directory is Some ==> row@.working_directory->0 == row.working_directory->0@,
        row.working_directory_path is Some <==> row@.working_directory_path is Some,
        row.working_directory_path is Some ==> row@.working_directory_path->0
            == row.working_directory_path->0@,
        row.custom_title is Some <==> row@.custom_title is Some,
        row.custom_title is Some ==> row@.custom_title->0 == row.custom_title->0@,
        row@.terminal_kind == row.terminal_kind@,
        row.remote_tmux_session_name is Some <==> row@.remote_tmux_session_name is Some,
        row.remote_tmux_session_name is Some ==> row@.remote_tmux_session_name->0
            == row.remote_tmux_session_name->0@,
{
}

/// A path is seen with its bytes or its units.
pub proof fn law_paths_are_seen_whole(path: NativePath)
    ensures
        match (path, path@) {
            (NativePath::Bytes(bytes), PathView::Bytes(seen)) => seen == bytes@,
            (NativePath::Wide(units), PathView::Wide(seen)) => seen == units@,
            _ => false,
        },
{
}

/// What a terminal shows, and why that cannot be told, is seen with its name or its kind.
pub proof fn law_sources_are_seen_whole(
    source: SerializedTerminalSource,
    error: TerminalSourceError,
)
    ensures
        match (source, source@) {
            (SerializedTerminalSource::Shell, SourceView::Shell) => true,
            (SerializedTerminalSource::Tmux(name), SourceView::Tmux(seen)) => seen == name@,
            _ => false,
        },
        match (error, error@) {
            (
                TerminalSourceError::MissingSessionName,
                SourceErrorView::MissingSessionName,
            ) => true,
            (TerminalSourceError::UnknownKind(kind), SourceErrorView::UnknownKind(seen)) => seen
                == kind@,
            _ => false,
        },
{
}

} // verus!
