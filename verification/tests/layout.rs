use terminal_view::layout::{Axis, Member, Pane, PaneItem, RestoredMember, TerminalItem};
use terminal_view::panel_restore::{PanelRestore, RestoreAction, RestoreEvent, TerminalPanel};
use terminal_view::restore::{deserialize_pane_group, populate_pane_items};
use terminal_view::saved::{
    InvalidAxis, SerializedAxis, SerializedItems, SerializedPane, SerializedPaneGroup,
    SerializedTerminalPanel,
};
use terminal_view::serialize::{serialize_pane, serialize_pane_group};

fn terminal(id: u64) -> TerminalItem {
    TerminalItem { serialized_item_id: id, is_task: false }
}

fn pane(id: u64, ids: &[u64], active_item: Option<usize>, pinned_count: usize) -> Pane {
    Pane {
        id,
        items: ids.iter().map(|id| PaneItem::Terminal(terminal(*id))).collect(),
        active_item,
        pinned_count,
    }
}

fn blank(id: u64) -> Pane {
    pane(id, &[], None, 0)
}

fn split(axis: Axis, members: Vec<Member>) -> Member {
    let flexes = vec![1.5f32.to_bits(); members.len()];
    Member::Axis { axis, flexes, members }
}

/// What an editor makes of a restored tree that splits evenly where no weights are given.
fn open(restored: RestoredMember) -> Member {
    match restored {
        RestoredMember::Pane(pane) => Member::Pane(pane),
        RestoredMember::Axis { axis, flexes, members } => Member::Axis {
            axis,
            flexes: flexes.unwrap_or_else(|| vec![1f32.to_bits(); members.len()]),
            members: members.into_iter().map(open).collect(),
        },
    }
}

/// Restores a panel with work that always succeeds: panes get the handles from 1000 on, shells
/// the ids from 9000 on.
fn reopen(serialized: SerializedTerminalPanel) -> (TerminalPanel, Vec<RestoreAction>) {
    let (mut restore, mut action) = PanelRestore::start(blank(1), serialized);
    let mut actions = Vec::new();
    let mut next_pane = 1000;
    let mut next_shell = 9000;
    loop {
        let event = match &action {
            RestoreAction::CreatePane => {
                next_pane += 1;
                RestoreEvent::PaneCreated(blank(next_pane - 1))
            }
            RestoreAction::LoadTerminals(ids) => {
                RestoreEvent::TerminalsLoaded(ids.iter().map(|id| terminal(*id)).collect())
            }
            RestoreAction::PopulatePane { .. } => RestoreEvent::PanePopulated,
            RestoreAction::CreateShell => {
                next_shell += 1;
                RestoreEvent::ShellCreated(terminal(next_shell - 1))
            }
            RestoreAction::Finish => {
                actions.push(action);
                assert!(!restore.is_restoring());
                return (restore.finish().expect("finished"), actions);
            }
            RestoreAction::Abort(error) => panic!("{error}"),
        };
        assert!(restore.is_restoring());
        actions.push(action);
        let (next, next_action) = restore.step(event);
        restore = next;
        action = next_action.expect("expected event");
    }
}

fn saved(group: SerializedPaneGroup) -> SerializedTerminalPanel {
    SerializedTerminalPanel {
        items: SerializedItems::WithSplits(group),
        active_item_id: None,
    }
}

fn saved_pane(active: bool, children: Vec<u64>) -> SerializedPaneGroup {
    SerializedPaneGroup::Pane(SerializedPane {
        active,
        children,
        active_item: None,
        pinned_count: 0,
    })
}

fn saved_group(children: Vec<SerializedPaneGroup>) -> SerializedPaneGroup {
    SerializedPaneGroup::Group {
        axis: SerializedAxis(Axis::Vertical),
        flexes: None,
        children,
    }
}

#[test]
fn axis_words() {
    assert_eq!(SerializedAxis(Axis::Horizontal).serialize(), "horizontal");
    assert_eq!(SerializedAxis(Axis::Vertical).serialize(), "vertical");
    for axis in [Axis::Horizontal, Axis::Vertical] {
        assert_eq!(
            SerializedAxis::deserialize(SerializedAxis(axis).serialize()),
            Ok(SerializedAxis(axis))
        );
    }
    let error = SerializedAxis::deserialize("Horizontal").unwrap_err();
    assert_eq!(error, InvalidAxis { value: "Horizontal".to_string() });
    assert_eq!(error.message(), "Invalid axis value: 'Horizontal'");
    assert!(SerializedAxis::deserialize("").is_err());
}

#[test]
fn tasks_and_other_tabs_are_not_saved() {
    let task = TerminalItem { serialized_item_id: 2, is_task: true };
    let items = vec![
        PaneItem::Terminal(terminal(1)),
        PaneItem::Terminal(task),
        PaneItem::Other,
        PaneItem::Terminal(terminal(3)),
    ];
    let mut pane = Pane { id: 5, items, active_item: Some(3), pinned_count: 2 };
    assert_eq!(
        serialize_pane(&pane, true),
        SerializedPane {
            active: true,
            children: vec![1, 3],
            active_item: Some(3),
            pinned_count: 2,
        }
    );
    for unsaved in [Some(1), Some(2), Some(9), None] {
        pane.active_item = unsaved;
        assert_eq!(serialize_pane(&pane, false).active_item, None);
    }
}

#[test]
fn a_task_with_the_id_of_a_saved_tab_can_be_active() {
    let task = TerminalItem { serialized_item_id: 1, is_task: true };
    let pane = Pane {
        id: 5,
        items: vec![PaneItem::Terminal(task), PaneItem::Terminal(terminal(1))],
        active_item: Some(0),
        pinned_count: 0,
    };
    let saved = serialize_pane(&pane, false);
    assert_eq!(saved.children, vec![1]);
    assert_eq!(saved.active_item, Some(1));
}

#[test]
fn trees_are_saved_as_they_are() {
    let tree = split(
        Axis::Horizontal,
        vec![
            Member::Pane(pane(10, &[1], Some(0), 0)),
            Member::Axis { axis: Axis::Vertical, flexes: vec![], members: vec![] },
            Member::Pane(pane(11, &[2, 3], Some(1), 1)),
        ],
    );
    assert_eq!(
        serialize_pane_group(&tree, 11),
        SerializedPaneGroup::Group {
            axis: SerializedAxis(Axis::Horizontal),
            flexes: Some(vec![1.5f32.to_bits(); 3]),
            children: vec![
                SerializedPaneGroup::Pane(SerializedPane {
                    active: false,
                    children: vec![1],
                    active_item: Some(1),
                    pinned_count: 0,
                }),
                SerializedPaneGroup::Group {
                    axis: SerializedAxis(Axis::Vertical),
                    flexes: Some(vec![]),
                    children: vec![],
                },
                SerializedPaneGroup::Pane(SerializedPane {
                    active: true,
                    children: vec![2, 3],
                    active_item: Some(3),
                    pinned_count: 1,
                }),
            ],
        }
    );
}

#[test]
fn populating_a_pane_activates_the_last_match() {
    let mut target = pane(1, &[7], Some(0), 0);
    let items = vec![terminal(8), terminal(9), terminal(8)];
    assert_eq!(populate_pane_items(&mut target, &items, Some(8)), Some(3));
    assert_eq!(target, pane(1, &[7, 8, 9, 8], Some(3), 0));

    let mut target = pane(1, &[7], Some(0), 0);
    assert_eq!(populate_pane_items(&mut target, &items, Some(7)), None);
    assert_eq!(target, pane(1, &[7, 8, 9, 8], Some(0), 0));

    let mut target = blank(1);
    assert_eq!(populate_pane_items(&mut target, &vec![], Some(7)), None);
    assert_eq!(target, blank(1));
}

#[test]
fn reopening_restores_the_layout() {
    let tree = |handles: [u64; 4]| {
        split(
            Axis::Horizontal,
            vec![
                Member::Pane(pane(handles[0], &[1, 2], Some(0), 1)),
                split(
                    Axis::Vertical,
                    vec![
                        Member::Pane(pane(handles[1], &[3], None, 0)),
                        Member::Pane(pane(handles[2], &[4, 5, 6], Some(2), 3)),
                    ],
                ),
                Member::Pane(pane(handles[3], &[7], Some(0), 0)),
            ],
        )
    };
    let group = serialize_pane_group(&tree([20, 21, 22, 23]), 22);
    let (panel, _) = reopen(saved(group));
    assert_eq!(panel.active_pane, 1002);
    assert!(!panel.restoring);
    let center = open(panel.center);
    assert_eq!(center, tree([1000, 1001, 1002, 1003]));

    let group = serialize_pane_group(&center, panel.active_pane);
    let (again, _) = reopen(saved(group));
    assert_eq!(again.active_pane, panel.active_pane);
    assert_eq!(open(again.center), center);
}

#[test]
fn reopening_keeps_the_splits_around_unsaved_tabs() {
    let task = PaneItem::Terminal(TerminalItem { serialized_item_id: 2, is_task: true });
    let mut mixed = pane(20, &[1, 3], Some(2), 4);
    mixed.items.insert(1, task);
    mixed.items.insert(0, PaneItem::Other);
    let tasks = Pane { id: 21, items: vec![task], active_item: Some(0), pinned_count: 1 };
    let tree = split(Axis::Vertical, vec![Member::Pane(mixed), Member::Pane(tasks)]);
    let (panel, _) = reopen(saved(serialize_pane_group(&tree, 21)));
    assert_eq!(
        panel,
        TerminalPanel {
            center: RestoredMember::Axis {
                axis: Axis::Vertical,
                flexes: Some(vec![1.5f32.to_bits(); 2]),
                members: vec![
                    RestoredMember::Pane(pane(1000, &[1, 3], None, 2)),
                    RestoredMember::Pane(pane(1001, &[9000], None, 0)),
                ],
            },
            active_pane: 1001,
            restoring: false,
        }
    );
}

#[test]
fn weights_are_saved_once_the_editor_has_chosen_them() {
    let group = saved_group(vec![saved_pane(false, vec![1]), saved_pane(true, vec![2])]);
    let (panel, _) = reopen(saved(group));
    let active_pane = panel.active_pane;
    let saved_again = serialize_pane_group(&open(panel.center), active_pane);
    assert_eq!(
        saved_again,
        SerializedPaneGroup::Group {
            axis: SerializedAxis(Axis::Vertical),
            flexes: Some(vec![1f32.to_bits(); 2]),
            children: vec![saved_pane(false, vec![1]), saved_pane(true, vec![2])],
        }
    );
}

#[test]
fn steps_of_a_restoration() {
    let group = saved_group(vec![
        SerializedPaneGroup::Pane(SerializedPane {
            active: true,
            children: vec![1, 2],
            active_item: Some(1),
            pinned_count: 9,
        }),
        SerializedPaneGroup::Pane(SerializedPane {
            active: true,
            children: vec![],
            active_item: Some(4),
            pinned_count: 3,
        }),
    ]);
    let (panel, actions) = reopen(saved(group));
    assert_eq!(
        actions,
        vec![
            RestoreAction::CreatePane,
            RestoreAction::LoadTerminals(vec![1, 2]),
            RestoreAction::PopulatePane { activate: Some(0), pinned_count: Some(2) },
            RestoreAction::CreatePane,
            RestoreAction::LoadTerminals(vec![]),
            RestoreAction::PopulatePane { activate: None, pinned_count: Some(0) },
            RestoreAction::CreateShell,
            RestoreAction::Finish,
        ]
    );
    assert_eq!(panel.active_pane, 1000);
    assert_eq!(
        panel.center,
        RestoredMember::Axis {
            axis: Axis::Vertical,
            flexes: None,
            members: vec![
                RestoredMember::Pane(pane(1000, &[1, 2], Some(0), 2)),
                RestoredMember::Pane(pane(1001, &[9000], None, 0)),
            ],
        }
    );
}

#[test]
fn splits_with_less_than_two_members_give_way() {
    let group = saved_group(vec![
        saved_group(vec![]),
        saved_group(vec![saved_group(vec![saved_pane(false, vec![1])]), saved_group(vec![])]),
    ]);
    let (panel, _) = reopen(saved(group));
    assert_eq!(panel.center, RestoredMember::Pane(pane(1000, &[1], None, 0)));
    assert_eq!(panel.active_pane, 1000);

    let (panel, actions) = reopen(saved(saved_group(vec![saved_group(vec![])])));
    assert_eq!(panel.center, RestoredMember::Pane(blank(1)));
    assert_eq!(panel.active_pane, 1);
    assert_eq!(actions, vec![RestoreAction::Finish]);
}

#[test]
fn groups_take_their_panes_in_order() {
    let group = saved_group(vec![
        saved_pane(false, vec![]),
        saved_group(vec![saved_pane(true, vec![]), saved_pane(true, vec![])]),
    ]);
    let panes = vec![blank(5), blank(6), blank(7)];
    let (member, active_pane) = deserialize_pane_group(&group, &panes).unwrap();
    assert_eq!(active_pane, Some(6));
    assert_eq!(member.first_pane(), 5);
    assert!(deserialize_pane_group(&saved_group(vec![]), &vec![]).is_none());

    let mut leaves = Vec::new();
    group.collect_panes(&mut leaves);
    assert_eq!(
        leaves.iter().map(|pane| pane.active).collect::<Vec<_>>(),
        vec![false, true, true]
    );
}

#[test]
fn panels_without_splits_fill_the_first_pane() {
    let serialized = SerializedTerminalPanel {
        items: SerializedItems::NoSplits(vec![4, 5]),
        active_item_id: Some(5),
    };
    let (panel, actions) = reopen(serialized);
    assert_eq!(
        actions,
        vec![
            RestoreAction::LoadTerminals(vec![4, 5]),
            RestoreAction::PopulatePane { activate: Some(1), pinned_count: None },
            RestoreAction::Finish,
        ]
    );
    assert_eq!(panel.center, RestoredMember::Pane(pane(1, &[4, 5], Some(1), 0)));

    let empty = SerializedTerminalPanel {
        items: SerializedItems::NoSplits(vec![]),
        active_item_id: None,
    };
    let (panel, actions) = reopen(empty);
    assert_eq!(panel.center, RestoredMember::Pane(blank(1)));
    assert_eq!(actions.len(), 3);
}

#[test]
fn a_failed_step_ends_the_restoration() {
    let (restore, _) = PanelRestore::start(blank(1), saved(saved_pane(true, vec![1])));
    let (restore, action) = restore.step(RestoreEvent::PaneCreated(blank(2)));
    assert_eq!(action, Some(RestoreAction::LoadTerminals(vec![1])));
    let (restore, action) = restore.step(RestoreEvent::Failed("gone".to_string()));
    assert_eq!(action, Some(RestoreAction::Abort("gone".to_string())));
    let (restore, action) = restore.step(RestoreEvent::TerminalsLoaded(vec![terminal(1)]));
    assert_eq!(action, None);
    assert!(restore.is_restoring());
    assert_eq!(restore.finish(), None);
}

#[test]
fn events_out_of_turn_change_nothing() {
    let (restore, action) = PanelRestore::start(blank(1), saved(saved_pane(true, vec![1])));
    assert_eq!(action, RestoreAction::CreatePane);
    let (restore, action) = restore.step(RestoreEvent::PanePopulated);
    assert_eq!(action, None);
    let (restore, action) = restore.step(RestoreEvent::ShellCreated(terminal(3)));
    assert_eq!(action, None);
    let (same, _) = PanelRestore::start(blank(1), saved(saved_pane(true, vec![1])));
    assert_eq!(restore, same);
    assert_eq!(restore.finish(), None);
}
