//! Attaching a terminal to an existing tmux session.

use vstd::prelude::*;
use crate::terminal_db::TableView;
use crate::terminal_db::law_saved_source_is_read_back;
use crate::terminal_source::SourceView;
use crate::terminal_source::text_view;

verus! {

/// The text that an empty field for the name of a session shows.
pub const SESSION_NAME_PLACEHOLDER: &'static str = "Exact tmux session name";

/// The message where a project has no tmux sessions.
pub const UNAVAILABLE_MESSAGE: &'static str = "tmux sessions are unavailable for this project";

/// The error where there is no terminal panel to attach a session in.
pub const NO_PANEL_MESSAGE: &'static str = "terminal panel is unavailable";

/// What heads the report of an attach that failed.
pub const ATTACH_FAILED_MESSAGE: &'static str = "Failed to attach tmux session";

/// The headline of the dialog.
pub const MODAL_HEADLINE: &'static str = "Attach tmux Session";

/// Where the terminal for a session is put.
#[derive(Clone, Copy, Debug, PartialEq, Eq, Structural)]
pub enum TmuxTarget {
    Panel,
    Center,
}

/// The command to which a notification belongs. A new notification takes the place of an older
/// one of the same command.
#[derive(Clone, Copy, Debug, PartialEq, Eq, Structural)]
pub enum NotificationId {
    AttachTmuxSession,
    NewCenterTmux,
}

impl TmuxTarget {
    /// The command that puts terminals there.
    pub fn notification_id(self) -> (id: NotificationId)
        ensures
            id == match self {
                TmuxTarget::Panel => NotificationId::AttachTmuxSession,
                TmuxTarget::Center => NotificationId::NewCenterTmux,
            },
    {
        match self {
            TmuxTarget::Panel => NotificationId::AttachTmuxSession,
            TmuxTarget::Center => NotificationId::NewCenterTmux,
        }
    }
}

/// A tmux session, given by its name.
#[derive(Debug, PartialEq, Eq)]
pub struct TmuxSession {
    pub name: String,
}

/// A program and its arguments. No shell reads them.
#[derive(Debug, PartialEq, Eq)]
pub struct TmuxCommand {
    pub program: String,
    pub args: Vec<String>,
}

/// What tmux is told to attach to: the session that has the name, and none whose name only
/// begins with it.
pub open spec fn attach_target(session_name: Seq<char>) -> Seq<char> {
    "="@ + session_name
}

/// The arguments with which tmux attaches to a session and starts no server.
pub open spec fn attach_arguments(session_name: Seq<char>) -> Seq<Seq<char>> {
    seq!["-N"@, "attach-session"@, "-t"@, attach_target(session_name)]
}

impl TmuxSession {
    /// The command that attaches to the session. The name of the session is part of one argument.
    pub fn attach_command(&self) -> (command: TmuxCommand)
        ensures
            command.program@ == "tmux"@,
            command.args@.map_values(|arg: String| arg@) == attach_arguments(self.name@),
    {
        let mut args: Vec<String> = Vec::new();
        args.push("-N".to_owned());
        args.push("attach-session".to_owned());
        args.push("-t".to_owned());
        args.push("=".to_owned().concat(self.name.as_str()));
        assert(args@.map_values(|arg: String| arg@) =~= attach_arguments(self.name@));
        TmuxCommand { program: "tmux".to_owned(), args }
    }
}

/// The dialog that asks for the name of a session.
#[derive(Debug, PartialEq, Eq)]
pub struct TmuxModal {
    /// The machine on which the sessions are.
    pub location: String,
    pub target: TmuxTarget,
    /// Why the last name was refused.
    pub error: Option<String>,
}

/// What follows the command to attach a session.
#[derive(Debug, PartialEq, Eq)]
pub enum ShowAction {
    /// Show a notification.
    ShowToast { id: NotificationId, message: &'static str },
    /// Open the dialog, or close it where it is open.
    ToggleModal(TmuxModal),
}

/// The state of the window in which the dialog was opened.
#[derive(Clone, Copy, Debug, PartialEq, Eq, Structural)]
pub enum WorkspaceState {
    Closed,
    Open { has_terminal_panel: bool },
}

/// How a session is attached.
#[derive(Debug, PartialEq, Eq)]
pub enum AttachTask {
    InPanel(TmuxSession),
    InCenter(TmuxSession),
    /// Not at all, for the reason given.
    Fail(&'static str),
}

/// What follows the confirmation of the dialog.
#[derive(Debug, PartialEq, Eq)]
pub enum ConfirmAction {
    /// Show the dialog again: its error has changed.
    Notify,
    /// Leave everything as it is.
    Ignore,
    /// Attach, report a failure under the given headline, and close the dialog.
    AttachAndDismiss { task: AttachTask, failure_headline: &'static str },
}

/// What the dialog shows.
#[derive(Debug, PartialEq, Eq)]
pub struct ModalContent {
    pub headline: &'static str,
    pub description: String,
    pub error: Option<String>,
}

/// Answers the command to attach a session in the terminal panel.
pub fn show_in_panel(location: Option<String>) -> (action: ShowAction)
    ensures
        is_answer(action, text_view(location), TmuxTarget::Panel),
{
    show(location, TmuxTarget::Panel)
}

/// Answers the command to attach a session in a center pane.
pub fn show_in_center(location: Option<String>) -> (action: ShowAction)
    ensures
        is_answer(action, text_view(location), TmuxTarget::Center),
{
    show(location, TmuxTarget::Center)
}

/// Whether `action` is the answer to the command to attach a session: a dialog without an error
/// for the place at which the project has its sessions, or a notification if it has none.
pub open spec fn is_answer(
    action: ShowAction,
    location: Option<Seq<char>>,
    target: TmuxTarget,
) -> bool {
    match action {
        ShowAction::ShowToast { id, message } => {
            &&& location is None
            &&& id == match target {
                TmuxTarget::Panel => NotificationId::AttachTmuxSession,
                TmuxTarget::Center => NotificationId::NewCenterTmux,
            }
            &&& message@ == UNAVAILABLE_MESSAGE@
        },
        ShowAction::ToggleModal(modal) => {
            &&& location == Some(modal.location@)
            &&& modal.target == target
            &&& modal.error is None
        },
    }
}

/// Answers the command to attach a session in a place. `location` names the machine on which the
/// project has its sessions.
pub fn show(location: Option<String>, target: TmuxTarget) -> (action: ShowAction)
    ensures
        is_answer(action, text_view(location), target),
{
    match location {
        Some(location) => ShowAction::ToggleModal(TmuxModal::new(location, target)),
        None => ShowAction::ShowToast {
            id: target.notification_id(),
            message: UNAVAILABLE_MESSAGE,
        },
    }
}

impl TmuxModal {
    /// A dialog without an error.
    pub fn new(location: String, target: TmuxTarget) -> (modal: TmuxModal)
        ensures
            modal.location@ == location@,
            modal.target == target,
            modal.error is None,
    {
        TmuxModal { location, target, error: None }
    }

    /// Whether `action` is the answer to the confirmation of the dialog, and `after` the dialog
    /// then.
    pub open spec fn is_confirmed_by(
        self,
        session: Result<TmuxSession, String>,
        workspace: WorkspaceState,
        action: ConfirmAction,
        after: TmuxModal,
    ) -> bool {
        &&& after.location == self.location
        &&& after.target == self.target
        &&& after.error == match session {
            Err(error) => Some(error),
            Ok(_) => self.error,
        }
        &&& match action {
            ConfirmAction::Notify => session is Err,
            ConfirmAction::Ignore => session is Ok && workspace is Closed,
            ConfirmAction::AttachAndDismiss { task, failure_headline } => {
                &&& session is Ok
                &&& workspace is Open
                &&& failure_headline@ == ATTACH_FAILED_MESSAGE@
                &&& match task {
                    AttachTask::InPanel(attached) => {
                        &&& self.target is Panel
                        &&& workspace->has_terminal_panel
                        &&& attached == session->Ok_0
                    },
                    AttachTask::InCenter(attached) => {
                        &&& self.target is Center
                        &&& attached == session->Ok_0
                    },
                    AttachTask::Fail(reason) => {
                        &&& self.target is Panel
                        &&& !workspace->has_terminal_panel
                        &&& reason@ == NO_PANEL_MESSAGE@
                    },
                }
            },
        }
    }

    /// Answers the confirmation of the dialog. `session` is the session with the name that was
    /// entered, or why the name was refused.
    pub fn confirm(
        &mut self,
        session: Result<TmuxSession, String>,
        workspace: WorkspaceState,
    ) -> (action: ConfirmAction)
        ensures
            old(self).is_confirmed_by(session, workspace, action, *final(self)),
    {
        let session = match session {
            Ok(session) => session,
            Err(error) => {
                self.error = Some(error);
                return ConfirmAction::Notify;
            },
        };
        let has_terminal_panel = match workspace {
            WorkspaceState::Closed => {
                return ConfirmAction::Ignore;
            },
            WorkspaceState::Open { has_terminal_panel } => has_terminal_panel,
        };
        let task = match self.target {
            TmuxTarget::Panel => if has_terminal_panel {
                AttachTask::InPanel(session)
            } else {
                AttachTask::Fail(NO_PANEL_MESSAGE)
            },
            TmuxTarget::Center => AttachTask::InCenter(session),
        };
        ConfirmAction::AttachAndDismiss { task, failure_headline: ATTACH_FAILED_MESSAGE }
    }

    /// What the dialog shows.
    pub fn render(&self) -> (content: ModalContent)
        ensures
            content.headline@ == MODAL_HEADLINE@,
            content.description@ == "Attach an existing session on "@ + self.location@,
            content.error == self.error,
    {
        let description = "Attach an existing session on ".to_owned().concat(
            self.location.as_str(),
        );
        let error = match &self.error {
            Some(error) => Some(error.clone()),
            None => None,
        };
        ModalContent { headline: MODAL_HEADLINE, description, error }
    }
}

/// A session is attached to by its exact name: different names are different targets, and the
/// name stands in one argument, behind the mark that asks for an exact match.
pub proof fn law_attach_target_is_exact(first: Seq<char>, second: Seq<char>)
    ensures
        attach_target(first) == attach_target(second) <==> first == second,
        attach_arguments(first).len() == attach_arguments(second).len(),
        forall|i: int|
            0 <= i < 3 ==> #[trigger] attach_arguments(first)[i] == attach_arguments(second)[i],
{
    let mark = "="@.len() as int;
    assert(attach_target(first).skip(mark) =~= first);
    assert(attach_target(second).skip(mark) =~= second);
}

/// A tmux terminal that is restored attaches to the session to which it was attached when its
/// source was saved.
pub proof fn law_restored_terminal_attaches_to_its_session(
    table: TableView,
    key: (i64, u64),
    session_name: Seq<char>,
)
    ensures
        table.with_row(key, table.row_or_blank(key).with_source(Some(session_name))).source(key)
            matches Ok(Some(SourceView::Tmux(restored))) && attach_arguments(restored)
            == attach_arguments(session_name),
{
    law_saved_source_is_read_back(table, key, Some(session_name));
}

/// A session is attached to by one fixed command: the arguments keep tmux from starting a server
/// and ask for the session whose name is the entered one, character by character.
pub proof fn law_attach_arguments_are_fixed(session_name: Seq<char>)
    ensures
        attach_arguments(session_name).len() == 4,
        attach_arguments(session_name)[0] == "-N"@,
        attach_arguments(session_name)[1] == "attach-session"@,
        attach_arguments(session_name)[2] == "-t"@,
        attach_arguments(session_name)[3].len() == session_name.len() + 1,
        attach_arguments(session_name)[3][0] == '=',
        forall|i: int|
            0 < i <= session_name.len() ==> #[trigger] attach_arguments(session_name)[3][i]
                == session_name[i - 1],
{
    reveal_strlit("=");
}

/// The command to attach a session has one answer: the dialog for the machine and the place, if
/// the project has sessions on a machine, and else a notification of the command that was given.
pub proof fn law_the_command_has_one_answer(
    action: ShowAction,
    location: Option<Seq<char>>,
    target: TmuxTarget,
)
    requires
        is_answer(action, location, target),
    ensures
        match location {
            Some(location) => action matches ShowAction::ToggleModal(modal) && modal.location@
                == location && modal.target == target && modal.error is None,
            None => action matches ShowAction::ShowToast { id, message } && message@
                == "tmux sessions are unavailable for this project"@ && (id
                == NotificationId::AttachTmuxSession <==> target == TmuxTarget::Panel),
        },
{
}

/// The confirmation of the dialog has one answer. A refused name is shown with its reason, and
/// nothing is attached. An accepted one leaves the dialog as it is: in a window that is gone
/// nothing happens; else the very session is attached where the dialog was asked to, which fails
/// in a panel that is not there. The machine and the place of the dialog never change.
pub proof fn law_the_confirmation_has_one_answer(
    modal: TmuxModal,
    session: Result<TmuxSession, String>,
    workspace: WorkspaceState,
    action: ConfirmAction,
    after: TmuxModal,
)
    requires
        modal.is_confirmed_by(session, workspace, action, after),
    ensures
        after.location == modal.location && after.target == modal.target,
        match session {
            Err(error) => after.error == Some(error) && action is Notify,
            Ok(session) => {
                &&& after.error == modal.error
                &&& match workspace {
                    WorkspaceState::Closed => action is Ignore,
                    WorkspaceState::Open { has_terminal_panel } => {
                        &&& action matches ConfirmAction::AttachAndDismiss {
                            task,
                            failure_headline,
                        }
                        &&& failure_headline@ == "Failed to attach tmux session"@
                        &&& modal.target == TmuxTarget::Center ==> task == AttachTask::InCenter(
                            session,
                        )
                        &&& modal.target == TmuxTarget::Panel && has_terminal_panel ==> task
                            == AttachTask::InPanel(session)
                        &&& modal.target == TmuxTarget::Panel && !has_terminal_panel ==> (
                        task matches AttachTask::Fail(reason) && reason@
                            == "terminal panel is unavailable"@)
                    },
                }
            },
        },
{
}

} // verus!
