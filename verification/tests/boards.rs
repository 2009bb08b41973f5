use mybox::adoption::entity_count;
use mybox::adoption::local_only_workspace;
use mybox::adoption::merge_guest_workspace_into_account;
use mybox::adoption::rekey_workspace_for_account;
use mybox::calendar::calendar_days;
use mybox::calendar::date_value;
use mybox::calendar::days_in_month;
use mybox::calendar::due_date_label;
use mybox::calendar::first_weekday;
use mybox::calendar::is_overdue;
use mybox::calendar::month_name;
use mybox::calendar::note_color_background;
use mybox::calendar::note_color_ink;
use mybox::calendar::parse_due_date;
use mybox::calendar::shift_month;
use mybox::calendar::DueCalendar;
use mybox::controls::act_on_board;
use mybox::controls::entitlement_message;
use mybox::controls::exports_raw_records;
use mybox::controls::keyboard_target_is_editable;
use mybox::controls::note_body;
use mybox::controls::note_count;
use mybox::controls::note_title;
use mybox::controls::press_key;
use mybox::controls::prevents_default;
use mybox::controls::raw_export_message;
use mybox::controls::request_failed;
use mybox::controls::request_succeeded;
use mybox::controls::KeyAction;
use mybox::controls::Modifiers;
use mybox::controls::Panels;
use mybox::desk::Desk;
use mybox::desk::Placement;
use mybox::edits::ClickTarget;
use mybox::frames::frame_is_frozen;
use mybox::frames::group_members;
use mybox::frames::newcomers;
use mybox::frames::slot_of;
use mybox::identity::distinct_ids;
use mybox::model::empty_board;
use mybox::model::same_board;
use mybox::model::BoardData;
use mybox::model::Coordinate;
use mybox::model::Group;
use mybox::model::Note;
use mybox::model::NoteColor;
use mybox::model::NoteStatus;
use mybox::model::Space;
use mybox::model::Tombstone;
use mybox::model::TombstoneKind;
use mybox::model::WorkspaceData;
use mybox::persist::board_to_persist;
use mybox::persist::should_queue_crdt_projection;
use mybox::records::is_readable_record;
use mybox::records::mark_future_schema;
use mybox::records::parse_board;
use mybox::records::parse_workspace;
use mybox::records::saved_notes;
use mybox::spaces::normalize_space_name;
use mybox::status::StorageStatus;
use mybox::workspace::normalize_workspace;
use mybox::workspace::LegacyId;
use mybox::workspace::Surroundings;

fn at(value: f64) -> Coordinate {
    Coordinate { bits: value.to_bits() }
}

fn note(id: u64, text: &str) -> Note {
    Note {
        id,
        stable_id: String::new(),
        text: text.to_owned(),
        color: NoteColor::Yellow,
        status: NoteStatus::Todo,
        due_date: None,
        x: at(0.0),
        y: at(0.0),
        rotation: 0,
        group_id: None,
        group_stable_id: None,
        created_at: 0,
        updated_at: 0,
        deleted_at: None,
    }
}

fn group(id: u64, label: &str) -> Group {
    Group {
        id,
        stable_id: String::new(),
        label: label.to_owned(),
        origin: None,
        size: None,
        created_at: 0,
        updated_at: 0,
        deleted_at: None,
    }
}

fn space(id: u64, stable_id: &str, name: &str) -> Space {
    Space {
        id,
        stable_id: stable_id.to_owned(),
        name: name.to_owned(),
        sync_enabled: false,
        sync_override: None,
        metadata_version: 0,
        archived: false,
        created_at: 0,
        updated_at: 0,
        deleted_at: None,
        board: empty_board(1),
    }
}

fn surroundings(valid: &[&str]) -> Surroundings {
    Surroundings {
        schema_version: 1,
        device_id: "device".to_owned(),
        now: 1_000,
        valid_ids: valid.iter().map(|id| (*id).to_owned()).collect(),
        legacy_ids: vec![
            LegacyId {
                kind: TombstoneKind::Space,
                id: 1,
                stable_id: "legacy-space-1".to_owned(),
            },
            LegacyId {
                kind: TombstoneKind::Space,
                id: 2,
                stable_id: "legacy-space-2".to_owned(),
            },
            LegacyId {
                kind: TombstoneKind::Space,
                id: 7,
                stable_id: "legacy-space-7".to_owned(),
            },
        ],
    }
}

#[test]
fn remote_projection_does_not_hide_a_local_edit_before_the_effect_runs() {
    let canonical = empty_board(1);
    let projected = BoardData {
        notes: vec![note(0, "local edit")],
        ..empty_board(1)
    };

    assert!(!should_queue_crdt_projection(true, Some(&canonical), &canonical));
    assert!(should_queue_crdt_projection(true, Some(&canonical), &projected));
    assert!(should_queue_crdt_projection(false, Some(&canonical), &canonical));
    assert!(should_queue_crdt_projection(true, None, &projected));
}

#[test]
fn guest_adoption_rekeys_compatibility_ids_but_preserves_stable_identity() {
    let space_stable_id = "legacy-space-7";
    let note_stable_id = "legacy-note-10";
    let group_stable_id = "legacy-group-20";
    let deleted_note_stable_id = "legacy-note-11";
    let workspace = WorkspaceData {
        spaces: vec![Space {
            board: BoardData {
                notes: vec![Note {
                    stable_id: note_stable_id.to_owned(),
                    group_id: Some(20),
                    group_stable_id: Some(group_stable_id.to_owned()),
                    ..note(10, "adopt me")
                }],
                groups: vec![Group {
                    stable_id: group_stable_id.to_owned(),
                    ..group(20, "adopted group")
                }],
                tombstones: vec![Tombstone {
                    kind: TombstoneKind::Note,
                    id: 11,
                    stable_id: deleted_note_stable_id.to_owned(),
                    deleted_at: 123,
                }],
                ..empty_board(1)
            },
            ..space(7, space_stable_id, "guest space")
        }],
        active_space_id: 7,
        schema_version: 1,
        device_id: "guest-device".to_owned(),
        tombstones: vec![Tombstone {
            kind: TombstoneKind::Space,
            id: 7,
            stable_id: space_stable_id.to_owned(),
            deleted_at: 456,
        }],
    };

    let count = entity_count(&workspace).unwrap();
    let seeds: Vec<u64> = (0..count as u64).map(|i| 1_000 + i).collect();
    let adopted = rekey_workspace_for_account(workspace, &distinct_ids(&seeds));
    let space = &adopted.spaces[0];
    assert_ne!(space.id, 7);
    assert_eq!(space.stable_id, space_stable_id);
    assert_eq!(adopted.active_space_id, space.id);
    assert_eq!(adopted.tombstones[0].id, space.id);
    assert_eq!(adopted.tombstones[0].stable_id, space_stable_id);

    let note = &space.board.notes[0];
    let group = &space.board.groups[0];
    assert_ne!(note.id, 10);
    assert_ne!(group.id, 20);
    assert_eq!(note.stable_id, note_stable_id);
    assert_eq!(note.group_id, Some(group.id));
    assert_eq!(note.group_stable_id.as_deref(), Some(group_stable_id));
    assert_eq!(group.stable_id, group_stable_id);
    assert_ne!(space.board.tombstones[0].id, 11);
    assert_eq!(space.board.tombstones[0].stable_id, deleted_note_stable_id);
}

#[test]
fn legacy_space_sync_defaults_follow_the_local_namespace() {
    let raw = r#"{
        "schema_version": 1,
        "device_id": "device",
        "tombstones": [],
        "spaces": [{
            "id": 7,
            "stable_id": "legacy-space-7",
            "name": "legacy",
            "metadata_version": 0,
            "archived": false,
            "created_at": 1,
            "updated_at": 1,
            "deleted_at": null,
            "board": {"schema_version": 1, "notes": [], "groups": [], "tombstones": []}
        }],
        "active_space_id": 7
    }"#;
    let decoded = || WorkspaceData {
        schema_version: 1,
        device_id: "device".to_owned(),
        tombstones: Vec::new(),
        spaces: vec![Space {
            created_at: 1,
            updated_at: 1,
            ..space(7, "legacy-space-7", "legacy")
        }],
        active_space_id: 7,
    };
    let env = surroundings(&["legacy-space-7"]);
    let guest = parse_workspace(&env, raw, Some(decoded()), "guest:test")
        .expect("legacy guest workspace should parse");
    assert!(!guest.spaces[0].sync_enabled);
    let account = parse_workspace(&env, raw, Some(decoded()), "account:test")
        .expect("legacy account workspace should parse");
    assert!(account.spaces[0].sync_enabled);
}

#[test]
fn guest_spaces_merge_into_an_account_as_local_only_vaults() {
    let account_stable_id = "00000000-0000-4000-8000-000000000001";
    let guest_stable_id = "00000000-0000-4000-8000-000000000002";
    let account = WorkspaceData {
        spaces: vec![Space {
            sync_enabled: true,
            ..space(10, account_stable_id, "synced vault")
        }],
        active_space_id: 10,
        schema_version: 1,
        device_id: "account-device".to_owned(),
        tombstones: Vec::new(),
    };
    let guest = WorkspaceData {
        spaces: vec![Space {
            board: BoardData {
                notes: vec![note(0, "stays on this device")],
                ..empty_board(1)
            },
            ..space(20, guest_stable_id, "private vault")
        }],
        active_space_id: 20,
        schema_version: 1,
        device_id: "guest-device".to_owned(),
        tombstones: Vec::new(),
    };
    let env = surroundings(&[account_stable_id, guest_stable_id]);
    let ids = distinct_ids(&vec![100, 101, 102, 103]);

    let merged = merge_guest_workspace_into_account(&env, account, guest, &ids);
    assert_eq!(merged.spaces.len(), 2);
    assert!(merged
        .spaces
        .iter()
        .find(|space| space.stable_id == account_stable_id)
        .is_some_and(|space| space.sync_enabled));
    let private = merged
        .spaces
        .iter()
        .find(|space| space.stable_id == guest_stable_id)
        .expect("guest vault should remain available after login");
    assert!(!private.sync_enabled);
    assert_eq!(private.board.notes[0].text, "stays on this device");
}

#[test]
fn local_only_workspace_does_not_carry_synced_vaults_between_accounts() {
    let workspace = WorkspaceData {
        spaces: vec![
            space(1, "", "private"),
            Space { sync_enabled: true, ..space(2, "", "cloud") },
        ],
        active_space_id: 1,
        schema_version: 1,
        device_id: "device".to_owned(),
        tombstones: Vec::new(),
    };
    let local = local_only_workspace(&surroundings(&[]), workspace);
    assert_eq!(local.spaces.len(), 1);
    assert_eq!(local.spaces[0].name, "private");
}

#[test]
fn calendar_handles_month_lengths_and_year_boundaries() {
    assert_eq!(days_in_month(2028, 2), 29);
    assert_eq!(days_in_month(2027, 2), 28);
    assert_eq!(first_weekday(2026, 9), 2);
    assert_eq!(calendar_days(2026, 9).len(), 32);
    assert_eq!(shift_month(2026, 1, -1), (2025, 12));
    assert_eq!(shift_month(2026, 12, 1), (2027, 1));
}

#[test]
fn legacy_done_notes_load_as_completed() {
    let raw = r#"{"notes":[{"id":1,"text":"ship it","color":"Yellow","done":true,"x":0.0,"y":0.0,"rotation":0}],"groups":[]}"#;
    let decoded = BoardData {
        notes: vec![note(1, "ship it")],
        ..empty_board(1)
    };
    let board = parse_board(raw, Some(decoded), None, 1).expect("legacy board should load");

    assert_eq!(board.notes[0].status, NoteStatus::Done);
    assert_eq!(board.notes[0].due_date, None);
}

#[test]
fn status_and_due_date_round_trip() {
    let board = BoardData {
        notes: vec![Note {
            color: NoteColor::Pink,
            status: NoteStatus::InProgress,
            due_date: Some("2026-09-02".to_owned()),
            ..note(1, "follow up")
        }],
        ..empty_board(1)
    };
    let raw = r#"{"schema_version":1,"notes":[{"id":1,"stable_id":"","text":"follow up","color":"Pink","status":"InProgress","due_date":"2026-09-02","x":0.0,"y":0.0,"rotation":0,"group_id":null,"group_stable_id":null,"created_at":0,"updated_at":0,"deleted_at":null}],"groups":[],"tombstones":[]}"#;
    let restored = parse_board(raw, Some(board), None, 1).expect("board should deserialize");

    assert_eq!(restored.notes[0].status, NoteStatus::InProgress);
    assert_eq!(restored.notes[0].due_date.as_deref(), Some("2026-09-02"));
}

#[test]
fn space_names_are_trimmed_and_have_a_safe_fallback() {
    assert_eq!(normalize_space_name("  personal  "), "personal");
    assert_eq!(normalize_space_name("   "), "untitled space");
    assert_eq!(normalize_space_name(&"x".repeat(60)).len(), 48);
}

#[test]
fn records_of_a_newer_client_are_left_alone() {
    assert!(mark_future_schema(r#"{"schema_version": 2}"#, 1));
    assert!(!mark_future_schema(r#"{"schema_version": 1}"#, 1));
    assert!(!mark_future_schema("no json", 1));
    assert!(is_readable_record(r#"{"schema_version": 1, "notes": []}"#, 1));
    assert!(!is_readable_record(r#"{"schema_version": 9, "notes": []}"#, 1));
    let notes = saved_notes(r#"{"notes":[{"done":true},{"status":"Todo"}]}"#);
    assert_eq!(notes.len(), 2);
    assert_eq!(notes[0].done, Some(true));
    assert!(!notes[0].has_status);
    assert!(notes[1].has_status);
}

#[test]
fn months_begin_where_the_last_one_ended() {
    for year in 1..=2400 {
        for month in 1..=12 {
            let (next_year, next_month) = shift_month(year, month, 1);
            assert_eq!(
                first_weekday(next_year, next_month),
                (first_weekday(year, month) + days_in_month(year, month)) % 7
            );
            assert_eq!(shift_month(next_year, next_month, -1), (year, month));
        }
    }
    assert_eq!(first_weekday(1970, 1), 4);
}

#[test]
fn calendar_pages_hold_every_day() {
    let page = calendar_days(2026, 9);
    assert_eq!(page[0], None);
    assert_eq!(page[1], None);
    assert_eq!(page[2], Some(1));
    assert_eq!(page[31], Some(30));
}

#[test]
fn due_dates_are_named_and_read_back() {
    assert_eq!(due_date_label(None, false), "add due");
    assert_eq!(due_date_label(Some("2026-09-02"), false), "due Sep 02");
    assert_eq!(due_date_label(Some("2026-09-02"), true), "overdue · Sep 02");
    assert_eq!(due_date_label(Some("2026-13-02"), false), "2026-13-02");
    assert_eq!(due_date_label(Some("tomorrow"), false), "tomorrow");
    assert_eq!(parse_due_date("2026-09-02"), Some((2026, 9, 2)));
    assert_eq!(parse_due_date("2026-09-02-x"), Some((2026, 9, 2)));
    assert_eq!(parse_due_date("-1-09-02"), None);
    assert_eq!(parse_due_date("2026-09"), None);
    assert_eq!(date_value(2026, 9, 2), "2026-09-02");
    assert_eq!(date_value(33, 1, 12), "0033-01-12");
    assert_eq!(date_value(-3, 1, 12), "-003-01-12");
    assert_eq!(parse_due_date(&date_value(2026, 9, 2)), Some((2026, 9, 2)));
    assert!(is_overdue(Some("2026-09-02"), NoteStatus::Todo, "2026-09-03"));
    assert!(!is_overdue(Some("2026-09-02"), NoteStatus::Done, "2026-09-03"));
    assert!(!is_overdue(Some("2026-09-03"), NoteStatus::Todo, "2026-09-03"));
    assert!(!is_overdue(Some("2026-soon"), NoteStatus::Todo, "2026-09-03"));
    assert!(!is_overdue(None, NoteStatus::Todo, "2026-09-03"));
}

#[test]
fn calendars_open_at_the_due_date() {
    let mut calendar = DueCalendar::new(&None, 2026, 9);
    assert_eq!(calendar.heading(), "September 2026");
    calendar.toggle(&Some("2027-01-05".to_owned()));
    assert!(calendar.open);
    assert_eq!((calendar.year, calendar.month), (2027, 1));
    calendar.turn(-1);
    assert_eq!((calendar.year, calendar.month), (2026, 12));
    calendar.toggle(&Some("2027-01-05".to_owned()));
    assert!(!calendar.open);
    assert_eq!((calendar.year, calendar.month), (2026, 12));
    calendar.show(&Some("2027-01-05".to_owned()));
    assert!(calendar.open);
    assert_eq!((calendar.year, calendar.month), (2027, 1));
    calendar.close();
    assert!(!calendar.open);
    assert_eq!(month_name(0), "Month");
    assert_eq!(month_name(12), "December");
    assert_eq!(note_color_background(NoteColor::Lavender), "var(--color-note-lav)");
    assert_eq!(note_color_ink(NoteColor::Pink), "var(--color-note-ink-pink)");
}

#[test]
fn undo_and_redo_go_back_and_forth() {
    let mut desk = Desk::new(1, vec![note(1, "one")], Vec::new());
    let before = desk.board_snapshot();
    desk.cycle_status(1, NoteStatus::Done);
    let after = desk.board_snapshot();
    assert!(!same_board(&before, &after));
    desk.undo();
    assert!(same_board(&desk.board_snapshot(), &before));
    desk.redo();
    assert!(same_board(&desk.board_snapshot(), &after));
}

#[test]
fn histories_stay_bounded() {
    let mut desk = Desk::new(1, vec![note(1, "one")], Vec::new());
    for i in 0..150 {
        desk.set_note_due_date(1, Some(format!("{i}")));
    }
    assert_eq!(desk.history.undo.len(), 100);
}

#[test]
fn notes_are_created_grouped_and_deleted() {
    let mut desk = Desk::new(1, Vec::new(), Vec::new());
    desk.create_note(1, "n1".to_owned(), at(0.0), at(0.0), 5);
    desk.create_note(2, "n2".to_owned(), at(10.0), at(0.0), 6);
    assert_eq!(desk.notes.len(), 2);
    assert_eq!(desk.editing, Some(2));
    desk.commit_pending_edit();
    desk.selection = vec![1, 2];
    assert!(desk.buttons().group);
    assert!(!desk.buttons().ungroup);
    desk.create_group(9, &"g9".to_owned(), Some((at(-24.0), at(-52.0))), 7);
    assert_eq!(desk.notes[0].group_id, Some(9));
    assert_eq!(desk.notes[1].group_id, Some(9));
    desk.selection = vec![1];
    assert!(desk.buttons().ungroup);
    desk.ungroup_selection();
    assert_eq!(desk.notes[0].group_id, None);
    desk.delete_note(2);
    assert_eq!(desk.notes.len(), 1);
    assert!(desk.groups.is_empty());
    desk.selection = vec![1];
    desk.delete_selected_notes();
    assert!(desk.notes.is_empty());
    assert!(desk.buttons().undo);
    assert!(!desk.buttons().redo);
}

#[test]
fn notes_move_with_the_selection() {
    let mut desk = Desk::new(1, vec![note(1, "a"), note(2, "b"), note(3, "c")], Vec::new());
    desk.selection = vec![1, 3];
    let (before, moved) = desk.start_drag(1);
    assert_eq!(moved, vec![1, 3]);
    desk.place_notes(&vec![
        Placement { id: 1, x: at(5.0), y: at(6.0) },
        Placement { id: 3, x: at(7.0), y: at(8.0) },
    ]);
    desk.finish_drag(before, &moved, None, &Vec::new());
    assert_eq!(desk.notes[0].x, at(5.0));
    assert_eq!(desk.notes[1].x, at(0.0));
    assert_eq!(desk.notes[2].y, at(8.0));
    desk.undo();
    assert_eq!(desk.notes[0].x, at(0.0));
}

#[test]
fn clicks_select_or_edit() {
    let mut desk = Desk::new(1, vec![note(1, "a"), note(2, "b")], Vec::new());
    desk.click_note(1, false, ClickTarget::Card, true);
    assert_eq!(desk.selection, vec![1]);
    desk.click_note(2, false, ClickTarget::Card, false);
    assert_eq!(desk.editing, Some(2));
    desk.click_note(1, true, ClickTarget::Card, false);
    assert_eq!(desk.editing, Some(2));
}

#[test]
fn deleted_notes_leave_a_tombstone() {
    let previous = BoardData {
        notes: vec![Note { stable_id: "s1".to_owned(), ..note(1, "a") }],
        ..empty_board(1)
    };
    let gone = board_to_persist(&previous, &empty_board(1), 77);
    assert_eq!(gone.tombstones.len(), 1);
    assert_eq!(gone.tombstones[0].stable_id, "s1");
    assert_eq!(gone.tombstones[0].deleted_at, 77);
    let back = board_to_persist(&gone, &previous, 78);
    assert!(back.tombstones.is_empty());
}

#[test]
fn workspaces_are_brought_into_canonical_form() {
    let env = surroundings(&["legacy-space-1", "legacy-space-2"]);
    let workspace = WorkspaceData {
        schema_version: 0,
        device_id: String::new(),
        tombstones: Vec::new(),
        spaces: vec![
            Space { archived: true, ..space(1, "", "old") },
            space(2, "", "open"),
        ],
        active_space_id: 1,
    };
    let once = normalize_workspace(&env, workspace);
    assert_eq!(once.schema_version, 1);
    assert_eq!(once.device_id, "device");
    assert_eq!(once.active_space_id, 2);
    assert_eq!(once.spaces[0].stable_id, "legacy-space-1");
    assert_eq!(once.spaces[1].created_at, 1_000);
    let twice = normalize_workspace(&env, once.clone());
    assert_eq!(twice, once);
}

#[test]
fn keys_act_on_the_board() {
    let none = Modifiers { ctrl: false, meta: false, alt: false, shift: false };
    let ctrl = Modifiers { ctrl: true, ..none };
    let closed = Panels { pending_delete: false, context_menu: false, space_menu: false, help: false };
    assert_eq!(press_key("Delete", &none, &closed, false, false), KeyAction::DeleteSelection);
    assert_eq!(press_key("Backspace", &none, &closed, false, false), KeyAction::DeleteSelection);
    assert_eq!(press_key("Backspace", &ctrl, &closed, false, false), KeyAction::Nothing);
    assert_eq!(press_key("Z", &ctrl, &closed, false, false), KeyAction::Undo);
    assert_eq!(
        press_key("z", &Modifiers { shift: true, ..ctrl }, &closed, false, false),
        KeyAction::Redo
    );
    assert_eq!(press_key("G", &ctrl, &closed, false, false), KeyAction::GroupSelection);
    assert_eq!(
        press_key("g", &Modifiers { meta: true, shift: true, ..none }, &closed, false, false),
        KeyAction::UngroupSelection
    );
    assert_eq!(press_key("z", &none, &closed, false, false), KeyAction::Nothing);
    assert_eq!(press_key("Delete", &none, &closed, true, false), KeyAction::Nothing);
    assert_eq!(press_key("Delete", &none, &closed, false, true), KeyAction::Nothing);
    assert_eq!(act_on_board("delete", &none), KeyAction::DeleteSelection);
    assert_eq!(act_on_board("Delete", &none), KeyAction::Nothing);
    assert!(prevents_default(KeyAction::Undo));
    assert!(!prevents_default(KeyAction::CloseHelp));
    assert!(keyboard_target_is_editable("TEXTAREA", false));
    assert!(keyboard_target_is_editable("DIV", true));
    assert!(!keyboard_target_is_editable("DIV", false));
}

#[test]
fn escape_closes_one_thing_at_a_time() {
    let none = Modifiers { ctrl: false, meta: false, alt: false, shift: false };
    let mut open = Panels { pending_delete: true, context_menu: true, space_menu: true, help: true };
    assert_eq!(press_key("Escape", &none, &open, false, false), KeyAction::ForgetDelete);
    open.pending_delete = false;
    assert_eq!(press_key("Escape", &none, &open, false, false), KeyAction::CloseContextMenu);
    open.context_menu = false;
    assert_eq!(press_key("Escape", &none, &open, false, false), KeyAction::CloseSpaceMenu);
    open.space_menu = false;
    assert_eq!(press_key("Escape", &none, &open, false, false), KeyAction::CloseHelp);
    open.help = false;
    assert_eq!(press_key("Escape", &none, &open, false, false), KeyAction::Nothing);
}

#[test]
fn texts_around_the_board() {
    assert_eq!(note_count(0), "0 notes");
    assert_eq!(note_count(1), "1 note");
    assert_eq!(note_title(&None), "Task note");
    assert_eq!(note_title(&Some(" ".to_owned())), "Empty task note");
    assert_eq!(note_title(&Some("milk".to_owned())), "milk");
    assert_eq!(note_body(&None), "");
    assert_eq!(note_body(&Some("".to_owned())), "click to write");
    let mut entitlement = mybox::account::Entitlement::default();
    assert_eq!(entitlement_message(&entitlement), "this account is not enabled for sync yet");
    entitlement.status = "pending".to_owned();
    assert_eq!(
        entitlement_message(&entitlement),
        "your account is still being prepared; sync will start after confirmation"
    );
    assert!(exports_raw_records(StorageStatus::Error, true));
    assert!(!exports_raw_records(StorageStatus::Error, false));
    assert_eq!(raw_export_message(Some(false)), "couldn't export local data");
    assert_eq!(request_failed(503), "request failed (503)");
    assert!(request_succeeded(204));
    assert!(!request_succeeded(300));
}

#[test]
fn frames_are_drawn_around_their_notes() {
    let inside = Note { group_id: Some(9), ..note(1, "in") };
    let outside = note(2, "out");
    let notes = vec![inside, outside];
    assert_eq!(group_members(&notes, 9, &vec![]).len(), 1);
    assert!(group_members(&notes, 9, &vec![1]).is_empty());
    let new = newcomers(&notes, 9, &vec![1, 2]);
    assert_eq!(new.len(), 1);
    assert_eq!(new[0].id, 2);
    assert!(frame_is_frozen(&notes, 9, &vec![1]));
    assert!(!frame_is_frozen(&notes, 9, &vec![2]));
    assert_eq!(slot_of(5, 2), (1, 2));
}

#[test]
fn pages_and_shifts_can_be_asked_for() {
    assert!(mybox::calendar::weekday_is_shown(2026, 9));
    assert!(!mybox::calendar::weekday_is_shown(2026, 13));
    assert!(!mybox::calendar::weekday_is_shown(-100, 6));
    assert!(!mybox::calendar::weekday_is_shown(i32::MAX, 6));
    assert!(mybox::calendar::can_shift(2026, 12, 1));
    assert!(!mybox::calendar::can_shift(i32::MAX, 12, 1));
    assert!(!mybox::calendar::can_shift(178_956_970, 8, 1));
}
