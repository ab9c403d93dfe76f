use terminal_view::register_zed_scheme::register_zed_scheme;
use terminal_view::remote_tmux::{
    show, show_in_center, show_in_panel, AttachTask, ConfirmAction, ModalContent, NotificationId,
    ShowAction, TmuxCommand, TmuxModal, TmuxSession, TmuxTarget, WorkspaceState,
    SESSION_NAME_PLACEHOLDER,
};

fn session(name: &str) -> TmuxSession {
    TmuxSession { name: name.to_string() }
}

fn modal(target: TmuxTarget) -> TmuxModal {
    TmuxModal::new("build-host".to_string(), target)
}

fn attach(task: AttachTask) -> ConfirmAction {
    ConfirmAction::AttachAndDismiss {
        task,
        failure_headline: "Failed to attach tmux session",
    }
}

const WITH_PANEL: WorkspaceState = WorkspaceState::Open { has_terminal_panel: true };
const WITHOUT_PANEL: WorkspaceState = WorkspaceState::Open { has_terminal_panel: false };

#[test]
fn projects_without_tmux_get_a_notification() {
    assert_eq!(
        show_in_panel(None),
        ShowAction::ShowToast {
            id: NotificationId::AttachTmuxSession,
            message: "tmux sessions are unavailable for this project",
        }
    );
    assert_eq!(
        show_in_center(None),
        ShowAction::ShowToast {
            id: NotificationId::NewCenterTmux,
            message: "tmux sessions are unavailable for this project",
        }
    );
    assert_eq!(TmuxTarget::Panel.notification_id(), NotificationId::AttachTmuxSession);
    assert_eq!(TmuxTarget::Center.notification_id(), NotificationId::NewCenterTmux);
}

#[test]
fn projects_with_tmux_get_the_dialog() {
    let location = Some("build-host".to_string());
    assert_eq!(
        show_in_panel(location.clone()),
        ShowAction::ToggleModal(modal(TmuxTarget::Panel))
    );
    assert_eq!(
        show_in_center(location.clone()),
        ShowAction::ToggleModal(modal(TmuxTarget::Center))
    );
    assert_eq!(
        show(location, TmuxTarget::Center),
        ShowAction::ToggleModal(modal(TmuxTarget::Center))
    );
    assert_eq!(SESSION_NAME_PLACEHOLDER, "Exact tmux session name");
}

#[test]
fn refused_names_are_shown_in_the_dialog() {
    let mut dialog = modal(TmuxTarget::Panel);
    assert_eq!(
        dialog.confirm(Err("name is empty".to_string()), WITH_PANEL),
        ConfirmAction::Notify
    );
    assert_eq!(dialog.error, Some("name is empty".to_string()));
    assert_eq!(
        dialog.render(),
        ModalContent {
            headline: "Attach tmux Session",
            description: "Attach an existing session on build-host".to_string(),
            error: Some("name is empty".to_string()),
        }
    );
    assert_eq!(
        dialog.confirm(Ok(session("api")), WITH_PANEL),
        attach(AttachTask::InPanel(session("api")))
    );
    assert_eq!(dialog.error, Some("name is empty".to_string()));
}

#[test]
fn sessions_are_attached_where_they_were_asked_for() {
    assert_eq!(
        modal(TmuxTarget::Panel).confirm(Ok(session("api worker")), WITH_PANEL),
        attach(AttachTask::InPanel(session("api worker")))
    );
    assert_eq!(
        modal(TmuxTarget::Panel).confirm(Ok(session("api")), WITHOUT_PANEL),
        attach(AttachTask::Fail("terminal panel is unavailable"))
    );
    assert_eq!(
        modal(TmuxTarget::Center).confirm(Ok(session("api")), WITHOUT_PANEL),
        attach(AttachTask::InCenter(session("api")))
    );
    assert_eq!(
        modal(TmuxTarget::Center).confirm(Ok(session("api")), WorkspaceState::Closed),
        ConfirmAction::Ignore
    );
    assert_eq!(modal(TmuxTarget::Center).render().error, None);
}

#[test]
fn the_session_name_is_one_argument() {
    assert_eq!(
        session("api; rm -rf /").attach_command(),
        TmuxCommand {
            program: "tmux".to_string(),
            args: vec![
                "-N".to_string(),
                "attach-session".to_string(),
                "-t".to_string(),
                "=api; rm -rf /".to_string(),
            ],
        }
    );
}

#[test]
fn the_tmux_build_registers_no_scheme() {
    assert_eq!(register_zed_scheme(true), None);
    assert_eq!(register_zed_scheme(false), Some("zed"));
}
