use mybox::adoption::account_workspace_with_local_guest_spaces;
use mybox::adoption::entity_count;
use mybox::adoption::has_stable_id;
use mybox::adoption::space_has_local_data;
use mybox::adoption::workspace_from_board;
use mybox::adoption::workspace_has_local_data;
use mybox::drain::is_billing_pause_response;
use mybox::drain::space_sync_enabled;
use mybox::drain::ReplyHead;
use mybox::identity::distinct_ids;
use mybox::metadata::add_space_tombstone;
use mybox::metadata::apply_metadata;
use mybox::metadata::apply_tombstones;
use mybox::metadata::remove_space_tombstones;
use mybox::metadata::RemoteMetadata;
use mybox::model::empty_board;
use mybox::model::BoardData;
use mybox::model::Coordinate;
use mybox::model::Note;
use mybox::model::NoteColor;
use mybox::model::NoteStatus;
use mybox::model::Space;
use mybox::model::Tombstone;
use mybox::model::TombstoneKind;
use mybox::model::WorkspaceData;
use mybox::outbox::load_pending_crdt_updates;
use mybox::persist::persist_space_board;
use mybox::persist::tombstone_exists;
use mybox::persist::workspace_snapshot;
use mybox::persist::workspace_with_current_board;
use mybox::records::can_read_legacy;
use mybox::records::choose_board;
use mybox::records::choose_legacy_board;
use mybox::records::complete_legacy_notes;
use mybox::records::load_workspace;
use mybox::records::parse_indexed_db_json;
use mybox::records::parse_indexed_db_value;
use mybox::records::record_places;
use mybox::records::search_places;
use mybox::records::spaces_without_sync_flag;
use mybox::records::LegacyBoard;
use mybox::records::SavedNote;
use mybox::records::Decoded;
use mybox::records::DecodedRecord;
use mybox::spaces::SpaceMetadataOperation;
use mybox::workspace::LegacyId;
use mybox::workspace::Surroundings;

fn note(id: u64) -> Note {
    Note {
        id,
        stable_id: "note-1".to_owned(),
        text: "milk".to_owned(),
        color: NoteColor::Yellow,
        status: NoteStatus::Todo,
        due_date: None,
        x: Coordinate { bits: 0 },
        y: Coordinate { bits: 0 },
        rotation: 0,
        group_id: None,
        group_stable_id: None,
        created_at: 1,
        updated_at: 1,
        deleted_at: None,
    }
}

fn space(id: u64, name: &str) -> Space {
    Space {
        id,
        stable_id: format!("space-{id}"),
        name: name.to_owned(),
        sync_enabled: false,
        sync_override: None,
        metadata_version: 0,
        archived: false,
        created_at: 1,
        updated_at: 1,
        deleted_at: None,
        board: empty_board(1),
    }
}

fn workspace(spaces: Vec<Space>) -> WorkspaceData {
    let active_space_id = spaces[0].id;
    WorkspaceData {
        schema_version: 1,
        device_id: "device".to_owned(),
        tombstones: Vec::new(),
        spaces,
        active_space_id,
    }
}

fn surroundings() -> Surroundings {
    Surroundings {
        schema_version: 1,
        device_id: "device".to_owned(),
        now: 1_000,
        valid_ids: vec![
            "space-1".to_owned(),
            "space-2".to_owned(),
            "space-9".to_owned(),
            "note-1".to_owned(),
        ],
        legacy_ids: vec![LegacyId {
            kind: TombstoneKind::Space,
            id: 9,
            stable_id: "legacy-space-9".to_owned(),
        }],
    }
}

#[test]
fn untouched_spaces_hold_no_data() {
    assert!(!space_has_local_data(&space(1, "my space")));
    assert!(space_has_local_data(&space(1, "work")));
    assert!(space_has_local_data(&Space { archived: true, ..space(1, "my space") }));
    assert!(!workspace_has_local_data(&workspace(vec![space(1, "my space")])));
    let mut left = workspace(vec![space(1, "my space")]);
    left.tombstones = add_space_tombstone(&Vec::new(), 5, &"space-5".to_owned(), 3);
    assert!(workspace_has_local_data(&left));
    assert!(has_stable_id(&left.spaces, &"space-1".to_owned()));
    assert!(!has_stable_id(&left.spaces, &"space-5".to_owned()));
}

#[test]
fn accounts_start_with_what_the_guest_made() {
    let env = surroundings();
    let mut used = space(1, "my space");
    used.board.notes.push(note(1));
    let guest = workspace(vec![used]);
    let ids = distinct_ids(&vec![70; entity_count(&guest).expect("few")]);
    let alone = account_workspace_with_local_guest_spaces(&env, None, guest, &ids, 9, "space-9");
    assert_eq!(alone.spaces.len(), 1);
    assert_eq!(alone.spaces[0].stable_id, "space-1");
    assert_eq!(alone.spaces[0].board.notes[0].text, "milk");
    assert!(!alone.spaces[0].sync_enabled);

    let guest = workspace(vec![space(1, "my space")]);
    let ids = distinct_ids(&vec![70; entity_count(&guest).expect("few")]);
    let empty = account_workspace_with_local_guest_spaces(&env, None, guest, &ids, 9, "space-9");
    assert_eq!(empty.spaces[0].id, 9);
    assert!(empty.spaces[0].board.notes.is_empty());

    let guest = workspace(vec![space(1, "guest work")]);
    let account = workspace(vec![space(2, "account work")]);
    let ids = distinct_ids(&vec![70; entity_count(&guest).expect("few")]);
    let joined =
        account_workspace_with_local_guest_spaces(&env, Some(account), guest, &ids, 9, "space-9");
    assert_eq!(joined.spaces.len(), 2);
    assert_eq!(joined.spaces[0].name, "account work");
    assert_eq!(joined.spaces[1].name, "guest work");
}

fn nothing() -> Decoded {
    Decoded { workspace: None, board: None }
}

fn unread() -> DecodedRecord {
    DecodedRecord { workspace: None, board: None, notes: None }
}

#[test]
fn records_are_searched_in_order() {
    let raw = r#"[null, "no json", {
        "schema_version": 2,
        "board": {"notes": []},
        "value": "{\"data\": [1, {\"schema_version\": 1}]}",
        "other": {"workspace": {}}
    }, true]"#;
    let places = record_places(raw);
    let texts: Vec<&str> = places.iter().map(|place| place.text.as_str()).collect();
    assert_eq!(texts.len(), 4);
    assert!(texts[0].contains("other"));
    assert_eq!(texts[1], r#"{"data": [1, {"schema_version": 1}]}"#);
    assert_eq!(texts[2], r#"{"schema_version":1}"#);
    assert_eq!(texts[3], r#"{"notes":[]}"#);
    let versions: Vec<Option<u64>> = places.iter().map(|place| place.schema_version).collect();
    assert_eq!(versions, vec![Some(2), None, Some(1), None]);
    assert_eq!(search_places(raw, 2).len(), 1);
    assert!(search_places(raw, 0).is_empty());
    assert!(record_places("no json").is_empty());
    assert_eq!(record_places(r#""\"{}\"""#).len(), 1);
}

#[test]
fn workspaces_hide_in_records() {
    let env = surroundings();
    let direct = Decoded { workspace: Some(workspace(vec![space(1, "one")])), board: None };
    let found = parse_indexed_db_json(&env, "{}", &vec![direct], 9, "space-9");
    assert_eq!(found.workspace.map(|found| found.active_space_id), Some(1));
    assert!(!found.blocked);

    let raw = r#"[0, "x", {"schema_version": 2, "data": "{\"notes\": [{}], \"value\": {}}"}]"#;
    let board = Decoded {
        workspace: None,
        board: Some(BoardData { notes: vec![note(1)], ..empty_board(1) }),
    };
    let late = Decoded { workspace: Some(workspace(vec![space(1, "late")])), board: None };
    let found = parse_indexed_db_json(&env, raw, &vec![nothing(), board, late], 9, "space-9");
    assert!(found.blocked);
    let opened = found.workspace.expect("a board is a workspace of one space");
    assert_eq!(opened.spaces[0].id, 9);
    assert_eq!(opened.spaces[0].board.notes.len(), 1);

    let empty = Decoded { workspace: None, board: Some(empty_board(1)) };
    let none = parse_indexed_db_json(&env, "{}", &vec![empty], 9, "space-9");
    assert!(none.workspace.is_none());
    assert!(!none.blocked);
    assert!(parse_indexed_db_json(&env, "{}", &Vec::new(), 9, "space-9").workspace.is_none());
}

#[test]
fn records_are_read_before_they_are_searched() {
    let env = surroundings();
    let hidden = || Decoded { workspace: Some(workspace(vec![space(1, "hidden")])), board: None };
    let raw = r#"{"value": {"schema_version": 7}}"#;
    let own = DecodedRecord { workspace: Some(workspace(vec![space(2, "two")])), ..unread() };
    let places = vec![nothing(), hidden()];
    let read = parse_indexed_db_value(&env, raw, own, &places, "guest:a", 9, "space-9");
    assert_eq!(read.workspace.map(|read| read.active_space_id), Some(2));
    assert!(!read.blocked);

    let listed = DecodedRecord { notes: Some(vec![note(1)]), ..unread() };
    let read = parse_indexed_db_value(&env, raw, listed, &places, "guest:a", 9, "space-9");
    assert_eq!(read.workspace.map(|read| read.spaces[0].id), Some(9));
    assert!(!read.blocked);

    let read = parse_indexed_db_value(&env, raw, unread(), &places, "guest:a", 9, "space-9");
    assert_eq!(read.workspace.map(|read| read.spaces[0].id), Some(1));
    assert!(read.blocked);

    let newer = r#"{"schema_version": 7}"#;
    let own = DecodedRecord { workspace: Some(workspace(vec![space(2, "two")])), ..unread() };
    let read = parse_indexed_db_value(&env, newer, own, &Vec::new(), "guest:a", 9, "space-9");
    assert!(read.workspace.is_none());
    assert!(read.blocked);
}

#[test]
fn updates_are_stored_in_two_forms() {
    let bare = load_pending_crdt_updates(r#"["AA==", "AQ=="]"#).expect("a list of updates");
    assert_eq!(bare.updates, vec!["AA==", "AQ=="]);
    assert!(bare.inbox_keys.is_empty());
    let keyed = load_pending_crdt_updates(r#"{"updates": ["AA=="], "inboxKeys": ["k"], "x": 1}"#)
        .expect("an object with keys");
    assert_eq!(keyed.updates, vec!["AA=="]);
    assert_eq!(keyed.inbox_keys, vec!["k"]);
    let empty = load_pending_crdt_updates("{}").expect("an object without members");
    assert!(empty.updates.is_empty());
    assert_eq!(load_pending_crdt_updates(r#"["AA==", 1]"#), None);
    assert_eq!(load_pending_crdt_updates(r#"{"updates": "AA=="}"#), None);
    assert_eq!(load_pending_crdt_updates(r#"{"inboxKeys": [null]}"#), None);
    assert_eq!(load_pending_crdt_updates("null"), None);
    assert_eq!(load_pending_crdt_updates("no json"), None);
}

#[test]
fn devices_without_a_workspace_get_one() {
    let env = surroundings();
    let stored = load_workspace(&env, Some(workspace(vec![space(1, "one")])), 9, "space-9", empty_board(1));
    assert_eq!(stored.active_space_id, 1);
    let board = BoardData { notes: vec![note(1)], ..empty_board(1) };
    let fresh = load_workspace(&env, None, 9, "space-9", board);
    assert_eq!(fresh.active_space_id, 9);
    assert_eq!(fresh.spaces[0].stable_id, "space-9");
    assert_eq!(fresh.spaces[0].board.notes.len(), 1);
    let blank = workspace_from_board(&env, 9, "space-9", empty_board(1));
    assert_eq!(blank.spaces[0].name, "my space");
    assert_eq!(blank.active_space_id, 0);
}

#[test]
fn older_formats_are_read_once() {
    assert!(can_read_legacy(true, &None));
    assert!(can_read_legacy(true, &Some("0".to_owned())));
    assert!(!can_read_legacy(true, &Some("1".to_owned())));
    assert!(!can_read_legacy(false, &None));
    assert_eq!(choose_legacy_board(true, true, true), LegacyBoard::Current);
    assert_eq!(choose_legacy_board(true, false, true), LegacyBoard::Oldest);
    assert_eq!(choose_legacy_board(false, true, true), LegacyBoard::Empty);
    let listed = choose_board(None, Some(vec![note(1)]), 1).expect("a list of notes is a board");
    assert_eq!(listed.notes.len(), 1);
    assert!(choose_board(None, None, 1).is_none());
    let board = BoardData { notes: vec![note(1), note(2)], ..empty_board(1) };
    let saved = vec![
        SavedNote { has_status: false, done: Some(true) },
        SavedNote { has_status: true, done: Some(true) },
    ];
    let completed = complete_legacy_notes(board, &saved);
    assert_eq!(completed.notes[0].status, NoteStatus::Done);
    assert_eq!(completed.notes[1].status, NoteStatus::Todo);
    assert_eq!(
        spaces_without_sync_flag(r#"{"spaces": [{"id": 1}, {"sync_enabled": true}]}"#),
        vec![true, false]
    );
    assert!(spaces_without_sync_flag("not json").is_empty());
}

#[test]
fn metadata_of_the_server_is_taken_over() {
    let answer = RemoteMetadata {
        space_id: 2,
        stable_id: "space-2".to_owned(),
        name: "renamed".to_owned(),
        archived: true,
        metadata_version: 8,
        deleted_at: None,
    };
    let spaces = apply_metadata(&vec![space(1, "one"), space(2, "two")], &answer);
    assert_eq!(spaces[0].name, "one");
    assert_eq!(spaces[1].name, "renamed");
    assert!(spaces[1].archived);
    assert_eq!(spaces[1].metadata_version, 8);
    let deleted =
        apply_tombstones(&Vec::new(), SpaceMetadataOperation::Delete, &answer, 44);
    assert_eq!(
        deleted,
        vec![Tombstone {
            kind: TombstoneKind::Space,
            id: 2,
            stable_id: "space-2".to_owned(),
            deleted_at: 44,
        }]
    );
    assert!(tombstone_exists(&deleted, TombstoneKind::Space, 2));
    assert!(!tombstone_exists(&deleted, TombstoneKind::Note, 2));
    assert_eq!(
        apply_tombstones(&deleted, SpaceMetadataOperation::Archive, &answer, 45),
        deleted
    );
    assert!(apply_tombstones(&deleted, SpaceMetadataOperation::Restore, &answer, 45).is_empty());
    assert_eq!(remove_space_tombstones(&deleted, 3), deleted);
}

#[test]
fn workspaces_hold_the_board_in_front() {
    let env = surroundings();
    let spaces = vec![space(1, "one"), space(2, "two")];
    let plain = workspace_snapshot(&env, &spaces, 2, &Vec::new());
    assert_eq!(plain.active_space_id, 2);
    assert!(plain.spaces[1].board.notes.is_empty());
    let filled =
        workspace_with_current_board(&env, &spaces, 2, &vec![note(1)], &Vec::new(), &Vec::new());
    assert!(filled.spaces[0].board.notes.is_empty());
    assert_eq!(filled.spaces[1].board.notes.len(), 1);
    let board = BoardData { notes: vec![note(1)], ..empty_board(1) };
    let kept = persist_space_board(&spaces, 1, &board, 77);
    assert_eq!(kept[0].board.notes.len(), 1);
    assert_eq!(kept[0].updated_at, 77);
    assert_eq!(kept[1].updated_at, 1);
}

#[test]
fn accounts_may_be_kept_from_syncing() {
    let head = |status: u16, code: &str| ReplyHead {
        status,
        retry_after: None,
        error_code: Some(code.to_owned()),
    };
    assert!(is_billing_pause_response(&head(403, "SYNC_NOT_ENTITLED")));
    assert!(is_billing_pause_response(&head(403, "SYNC_PAYMENT_PAUSED")));
    assert!(!is_billing_pause_response(&head(402, "SYNC_NOT_ENTITLED")));
    assert!(!is_billing_pause_response(&head(403, "OTHER")));
    let spaces = vec![Space { sync_enabled: true, ..space(1, "one") }, space(2, "two")];
    assert!(space_sync_enabled(&spaces, 1));
    assert!(!space_sync_enabled(&spaces, 2));
    assert!(!space_sync_enabled(&spaces, 3));
}
