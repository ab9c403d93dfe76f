use std::collections::HashSet;
use terminal_view::cleanup::{
    collect_serialized_pane_group_terminal_ids, collect_serialized_terminal_ids,
    delete_unloaded_terminals_in_database, stale_terminal_ids, CenterItem, CleanupError,
    StoredPanel,
};
use terminal_view::layout::Axis;
use terminal_view::panel_key::terminal_panel_key;
use terminal_view::saved::{
    SerializedAxis, SerializedItems, SerializedPane, SerializedPaneGroup, SerializedTerminalPanel,
};
use terminal_view::terminal_db::TerminalDb;
use terminal_view::terminal_source::SerializedTerminalSource;

const CENTER_TERMINAL_ID: u64 = 101;
const PANEL_TERMINAL_ID: u64 = 202;
const ORPHAN_TERMINAL_ID: u64 = 303;

fn serialized_panel() -> SerializedTerminalPanel {
    SerializedTerminalPanel {
        items: SerializedItems::WithSplits(SerializedPaneGroup::Group {
            axis: SerializedAxis(Axis::Horizontal),
            flexes: None,
            children: vec![SerializedPaneGroup::Group {
                axis: SerializedAxis(Axis::Vertical),
                flexes: None,
                children: vec![SerializedPaneGroup::Pane(SerializedPane {
                    active: true,
                    children: vec![PANEL_TERMINAL_ID],
                    active_item: Some(PANEL_TERMINAL_ID),
                    pinned_count: 0,
                })],
            }],
        }),
        active_item_id: None,
    }
}

fn center_items() -> Vec<CenterItem> {
    vec![CenterItem {
        workspace_id: 1,
        item_id: 101,
        kind: "Terminal".to_string(),
    }]
}

fn terminal_cleanup_fixture() -> TerminalDb {
    let mut db = TerminalDb::new(vec![1]);
    let workspace_id = 1;
    db.save_terminal_source(
        CENTER_TERMINAL_ID,
        workspace_id,
        Some("center session".to_string()),
    )
    .expect("save center tmux terminal");
    db.save_terminal_source(
        PANEL_TERMINAL_ID,
        workspace_id,
        Some("panel session".to_string()),
    )
    .expect("save panel tmux terminal");
    db.save_terminal_source(
        ORPHAN_TERMINAL_ID,
        workspace_id,
        Some("orphan session".to_string()),
    )
    .expect("save orphan tmux terminal");
    db
}

fn assert_preserved_tmux_terminals(db: &TerminalDb) {
    let workspace_id = 1;
    assert_eq!(
        db.get_terminal_source(CENTER_TERMINAL_ID, workspace_id)
            .expect("read center terminal source"),
        Some(SerializedTerminalSource::Tmux("center session".to_string()))
    );
    assert_eq!(
        db.get_terminal_source(PANEL_TERMINAL_ID, workspace_id)
            .expect("read panel terminal source"),
        Some(SerializedTerminalSource::Tmux("panel session".to_string()))
    );
}

fn assert_terminal_cleanup_order(panel_first: bool) {
    let mut db = terminal_cleanup_fixture();
    let workspace_id = 1;
    let panel = StoredPanel::Valid(serialized_panel());

    for _ in 0..2 {
        let loaded_items = if panel_first {
            [PANEL_TERMINAL_ID, CENTER_TERMINAL_ID]
        } else {
            [CENTER_TERMINAL_ID, PANEL_TERMINAL_ID]
        };
        for loaded_item in loaded_items {
            delete_unloaded_terminals_in_database(
                &vec![loaded_item],
                workspace_id,
                &mut db,
                &center_items(),
                &panel,
            )
            .expect("clean up unloaded terminals");
        }

        assert_preserved_tmux_terminals(&db);
        assert_eq!(
            db.get_terminal_source(ORPHAN_TERMINAL_ID, workspace_id)
                .expect("read orphan terminal source"),
            None
        );
    }
}

#[test]
fn terminal_cleanup_preserves_center_and_panel_tmux_center_first() {
    assert_terminal_cleanup_order(false);
}

#[test]
fn terminal_cleanup_preserves_center_and_panel_tmux_panel_first() {
    assert_terminal_cleanup_order(true);
}

#[test]
fn terminal_cleanup_rolls_back_when_panel_json_is_invalid() {
    let mut db = terminal_cleanup_fixture();
    let parse_error = serde_json::from_str::<serde_json::Value>("{")
        .expect_err("corrupt terminal panel JSON")
        .to_string();

    let workspace_id = 1;
    let result = delete_unloaded_terminals_in_database(
        &vec![CENTER_TERMINAL_ID],
        workspace_id,
        &mut db,
        &center_items(),
        &StoredPanel::Invalid(parse_error.clone()),
    );
    assert!(result.is_err());
    assert_preserved_tmux_terminals(&db);
    assert_eq!(
        db.get_terminal_source(ORPHAN_TERMINAL_ID, workspace_id)
            .expect("read orphan after failed cleanup"),
        Some(SerializedTerminalSource::Tmux("orphan session".to_string()))
    );

    let error = result.unwrap_err();
    assert_eq!(error, CleanupError::InvalidPanel(parse_error));
    assert_eq!(
        error.message(),
        "failed to parse TerminalPanel state while cleaning up terminals"
    );
    assert_eq!(terminal_panel_key(workspace_id), "\"TerminalPanel\"-\"1\"");
}

#[test]
fn cleanup_reports_what_it_deleted() {
    let mut db = terminal_cleanup_fixture();
    let deleted = delete_unloaded_terminals_in_database(
        &vec![],
        1,
        &mut db,
        &center_items(),
        &StoredPanel::Missing,
    )
    .unwrap();
    assert_eq!(deleted, vec![PANEL_TERMINAL_ID, ORPHAN_TERMINAL_ID]);
    assert_eq!(db.item_ids(1), vec![CENTER_TERMINAL_ID]);
}

#[test]
fn cleanup_keeps_loaded_terminals_and_other_workspaces() {
    let mut db = TerminalDb::new(vec![1, 2]);
    for item_id in 1..5 {
        db.save_terminal_source(item_id, 1, None).unwrap();
        db.save_terminal_source(item_id, 2, None).unwrap();
    }
    let items = vec![
        CenterItem { workspace_id: 1, item_id: 2, kind: "Editor".to_string() },
        CenterItem { workspace_id: 2, item_id: 3, kind: "Terminal".to_string() },
        CenterItem { workspace_id: 1, item_id: 4, kind: "Terminal".to_string() },
    ];
    let deleted =
        delete_unloaded_terminals_in_database(&vec![1], 1, &mut db, &items, &StoredPanel::Missing)
            .unwrap();
    assert_eq!(deleted, vec![2, 3]);
    assert_eq!(db.item_ids(1), vec![1, 4]);
    assert_eq!(db.item_ids(2), vec![1, 2, 3, 4]);
}

#[test]
fn panels_without_splits_protect_their_terminals() {
    let mut db = TerminalDb::new(vec![1]);
    for item_id in 1..5 {
        db.save_terminal_source(item_id, 1, None).unwrap();
    }
    let panel = StoredPanel::Valid(SerializedTerminalPanel {
        items: SerializedItems::NoSplits(vec![1, 3]),
        active_item_id: Some(4),
    });
    let deleted =
        delete_unloaded_terminals_in_database(&vec![], 1, &mut db, &vec![], &panel).unwrap();
    assert_eq!(deleted, vec![2]);
}

#[test]
fn ids_of_a_saved_panel() {
    let mut ids: HashSet<u64> = HashSet::new();
    ids.insert(7);
    collect_serialized_terminal_ids(&serialized_panel().items, &mut ids);
    assert_eq!(ids, HashSet::from([7, PANEL_TERMINAL_ID]));

    let pane = SerializedPaneGroup::Pane(SerializedPane {
        active: false,
        children: vec![1, 2],
        active_item: Some(3),
        pinned_count: 0,
    });
    collect_serialized_pane_group_terminal_ids(&pane, &mut ids);
    assert_eq!(ids, HashSet::from([7, PANEL_TERMINAL_ID, 1, 2, 3]));
    assert_eq!(stale_terminal_ids(&vec![9, 1, 8, 3, 9], &ids), vec![9, 8, 9]);
}

#[test]
fn panel_keys() {
    assert_eq!(terminal_panel_key(0), "\"TerminalPanel\"-\"0\"");
    assert_eq!(terminal_panel_key(-10), "\"TerminalPanel\"-\"-10\"");
    for id in [1, 42, 1234567890, i64::MAX, i64::MIN, -1] {
        assert_eq!(
            terminal_panel_key(id),
            format!("{:?}-{:?}", "TerminalPanel", id.to_string())
        );
    }
}
