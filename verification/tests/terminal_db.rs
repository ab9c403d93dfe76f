use terminal_view::native_path::NativePath;
use terminal_view::terminal_db::{TerminalDb, TerminalDbError, TerminalRow};
use terminal_view::terminal_source::{
    read_terminal_source, terminal_kind, unknown_kind_message, SerializedTerminalSource,
    TerminalSourceError,
};

fn terminal_db() -> TerminalDb {
    TerminalDb::new(vec![1])
}

fn bytes(path: &[u8]) -> NativePath {
    NativePath::Bytes(path.to_vec())
}

#[test]
fn terminal_source_round_trips_and_defaults_to_shell() {
    let mut db = terminal_db();
    let workspace_id = 1;

    db.save_custom_title(1, workspace_id, None)
        .expect("create legacy-style terminal row");
    assert_eq!(
        db.get_terminal_source(1, workspace_id).unwrap(),
        Some(SerializedTerminalSource::Shell)
    );

    db.save_terminal_source(1, workspace_id, Some("api worker".to_string()))
        .expect("save tmux source");
    assert_eq!(
        db.get_terminal_source(1, workspace_id).unwrap(),
        Some(SerializedTerminalSource::Tmux("api worker".to_string()))
    );

    db.save_terminal_source(1, workspace_id, None)
        .expect("restore shell source");
    assert_eq!(
        db.get_terminal_source(1, workspace_id).unwrap(),
        Some(SerializedTerminalSource::Shell)
    );
}

#[test]
fn invalid_tmux_source_never_becomes_a_shell() {
    let mut db = terminal_db();
    let workspace_id = 1;
    db.save_custom_title(1, workspace_id, None)
        .expect("create terminal row");
    let mut row = db.row(1, workspace_id).expect("row").clone();
    row.terminal_kind = "remote_tmux".to_string();
    row.remote_tmux_session_name = None;
    db.put_row(row).expect("corrupt terminal source");

    assert!(db.get_terminal_source(1, workspace_id).is_err());
    assert_eq!(
        db.get_terminal_source(1, workspace_id),
        Err(TerminalSourceError::MissingSessionName)
    );
}

#[test]
fn unknown_kinds_are_errors() {
    let mut db = terminal_db();
    let mut row = TerminalRow::new(4, 1);
    row.terminal_kind = "say \"hi\"".to_string();
    db.put_row(row).unwrap();
    let error = db.get_terminal_source(4, 1).unwrap_err();
    assert_eq!(error, TerminalSourceError::UnknownKind("say \"hi\"".to_string()));
    assert_eq!(error.message(), "unknown terminal kind \"say \\\"hi\\\"\"");
    assert_eq!(unknown_kind_message("\"x\""), "unknown terminal kind \"x\"");
    assert_eq!(
        TerminalSourceError::MissingSessionName.message(),
        "tmux terminal is missing its session name"
    );
}

#[test]
fn terminals_without_a_row_have_no_source() {
    let db = terminal_db();
    assert_eq!(db.get_terminal_source(9, 1), Ok(None));
    assert_eq!(db.get_custom_title(9, 1), None);
    assert_eq!(db.get_working_directory(9, 1), None);
    assert!(db.row(9, 1).is_none());
}

#[test]
fn kinds_by_session_name() {
    assert_eq!(terminal_kind(&None), "shell");
    assert_eq!(terminal_kind(&Some("x".to_string())), "remote_tmux");
    assert_eq!(
        read_terminal_source(&"shell".to_string(), &Some("ignored".to_string())),
        Ok(SerializedTerminalSource::Shell)
    );
    assert_eq!(
        read_terminal_source(&"remote_tmux".to_string(), &Some("".to_string())),
        Ok(SerializedTerminalSource::Tmux("".to_string()))
    );
    assert_eq!(
        read_terminal_source(&"Shell".to_string(), &None),
        Err(TerminalSourceError::UnknownKind("Shell".to_string()))
    );
}

#[test]
fn saves_keep_the_other_columns() {
    let mut db = terminal_db();
    db.save_terminal_source(1, 1, Some("api".to_string())).unwrap();
    db.save_working_directory(1, 1, bytes(b"/home/me")).unwrap();
    db.save_custom_title(1, 1, Some("build".to_string())).unwrap();
    assert_eq!(
        db.row(1, 1),
        Some(&TerminalRow {
            workspace_id: 1,
            item_id: 1,
            working_directory: Some(bytes(b"/home/me")),
            working_directory_path: Some("/home/me".to_string()),
            custom_title: Some("build".to_string()),
            terminal_kind: "remote_tmux".to_string(),
            remote_tmux_session_name: Some("api".to_string()),
        })
    );
    db.save_custom_title(1, 1, None).unwrap();
    db.save_working_directory(1, 1, bytes(b"/tmp")).unwrap();
    assert_eq!(db.get_custom_title(1, 1), Some(None));
    assert_eq!(db.get_working_directory(1, 1), Some(Some(bytes(b"/tmp"))));
    assert_eq!(
        db.get_terminal_source(1, 1),
        Ok(Some(SerializedTerminalSource::Tmux("api".to_string())))
    );
}

#[test]
fn working_directories_are_also_saved_as_text() {
    let mut db = terminal_db();
    db.save_working_directory(1, 1, bytes(&[0x66, 0xff, 0x6f])).unwrap();
    let row = db.row(1, 1).unwrap();
    assert_eq!(row.working_directory, Some(bytes(&[0x66, 0xff, 0x6f])));
    assert_eq!(row.working_directory_path.as_deref(), Some("f\u{fffd}o"));
    assert_eq!(row.terminal_kind, "shell");

    db.save_working_directory(2, 1, bytes("/tmp/\u{e9}".as_bytes())).unwrap();
    assert_eq!(
        db.row(2, 1).unwrap().working_directory_path.as_deref(),
        Some("/tmp/\u{e9}")
    );

    db.save_working_directory_as(3, 1, bytes(&[1]), "one".to_string()).unwrap();
    let row = db.row(3, 1).unwrap();
    assert_eq!(row.working_directory, Some(bytes(&[1])));
    assert_eq!(row.working_directory_path.as_deref(), Some("one"));
}

#[test]
fn wide_working_directories_are_also_saved_as_text() {
    let mut db = terminal_db();
    // A half of a pair that stands alone gives one replacement character.
    let path = NativePath::Wide(vec![0x66, 0x6f, 0xd800, 0x6f, 0xdd1e, 0xd834]);
    db.save_working_directory(1, 1, path.clone()).unwrap();
    assert_eq!(
        db.row(1, 1).unwrap().working_directory_path.as_deref(),
        Some("fo\u{fffd}o\u{fffd}\u{fffd}")
    );
    assert_eq!(db.get_working_directory(1, 1), Some(Some(path)));

    let text = "C:\\\u{e9}\u{1d11e}\u{10ffff}";
    let path = NativePath::Wide(text.encode_utf16().collect());
    assert_eq!(path.to_string_lossy(), text);
    assert_eq!(NativePath::Wide(vec![]).to_string_lossy(), "");
    assert_eq!(
        NativePath::Wide(vec![0xd834, 0xd834, 0xdd1e, 0xdd1e]).to_string_lossy(),
        "\u{fffd}\u{1d11e}\u{fffd}"
    );
    assert_eq!(
        NativePath::Wide(vec![0xd7ff, 0xe000, 0xffff, 0xdbff, 0xdfff]).to_string_lossy(),
        "\u{d7ff}\u{e000}\u{ffff}\u{10ffff}"
    );
}

#[test]
fn other_terminals_are_untouched() {
    let mut db = TerminalDb::new(vec![1, 2]);
    db.save_terminal_source(1, 1, Some("one".to_string())).unwrap();
    db.save_terminal_source(1, 2, Some("two".to_string())).unwrap();
    db.save_terminal_source(2, 1, None).unwrap();
    db.save_terminal_source(1, 1, None).unwrap();
    assert_eq!(
        db.get_terminal_source(1, 2),
        Ok(Some(SerializedTerminalSource::Tmux("two".to_string())))
    );
    assert_eq!(db.item_ids(2), vec![1]);
    let mut ids = db.item_ids(1);
    ids.sort();
    assert_eq!(ids, vec![1, 2]);
}

#[test]
fn unknown_workspaces_are_refused() {
    let mut db = terminal_db();
    let refused = Err(TerminalDbError::UnknownWorkspace);
    assert_eq!(db.save_terminal_source(1, 7, None), refused);
    assert_eq!(db.save_custom_title(1, 7, None), refused);
    assert_eq!(db.save_working_directory(1, 7, bytes(&[])), refused);
    assert_eq!(db.put_row(TerminalRow::new(1, 7)), refused);
    assert_eq!(db, terminal_db());
}

#[test]
fn terminals_move_between_workspaces() {
    let mut db = TerminalDb::new(vec![1, 2]);
    db.save_terminal_source(1, 1, Some("api".to_string())).unwrap();
    assert_eq!(db.update_workspace_id(2, 1, 1), Ok(()));
    assert_eq!(db.get_terminal_source(1, 1), Ok(None));
    assert_eq!(
        db.get_terminal_source(1, 2),
        Ok(Some(SerializedTerminalSource::Tmux("api".to_string())))
    );
    assert_eq!(db.update_workspace_id(2, 2, 1), Ok(()));
    assert_eq!(db.update_workspace_id(1, 2, 99), Ok(()));
    assert_eq!(
        db.update_workspace_id(3, 2, 1),
        Err(TerminalDbError::UnknownWorkspace)
    );
    db.save_terminal_source(1, 1, None).unwrap();
    assert_eq!(
        db.update_workspace_id(1, 2, 1),
        Err(TerminalDbError::DuplicateTerminal)
    );
    assert_eq!(
        db.get_terminal_source(1, 2),
        Ok(Some(SerializedTerminalSource::Tmux("api".to_string())))
    );
    db.delete(1, 2);
    assert_eq!(db.get_terminal_source(1, 2), Ok(None));
    assert_eq!(
        db.get_terminal_source(1, 1),
        Ok(Some(SerializedTerminalSource::Shell))
    );
}

#[test]
fn moving_back_undoes_a_move() {
    let mut db = TerminalDb::new(vec![1, 2]);
    db.save_terminal_source(5, 1, Some("api".to_string())).unwrap();
    db.save_custom_title(5, 1, Some("build".to_string())).unwrap();
    let before = db.clone();
    db.update_workspace_id(2, 1, 5).unwrap();
    assert_eq!(db.get_custom_title(5, 2), Some(Some("build".to_string())));
    assert_ne!(db, before);
    db.update_workspace_id(1, 2, 5).unwrap();
    assert_eq!(db, before);
}
