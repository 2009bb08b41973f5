use mybox::account::AccountState;
use mybox::account::Entitlement;
use mybox::desk::Desk;
use mybox::manifest::merge_remote_spaces;
use mybox::manifest::next_space_number;
use mybox::metadata::SpaceManifestEntry;
use mybox::model::empty_board;
use mybox::model::BoardData;
use mybox::model::Coordinate;
use mybox::model::Note;
use mybox::model::NoteColor;
use mybox::model::NoteStatus;
use mybox::model::Space;
use mybox::model::TombstoneKind;
use mybox::model::WorkspaceData;
use mybox::opening::account_namespace_is_current;
use mybox::opening::AccountOpening;
use mybox::opening::OpeningAction;
use mybox::projection::Interaction;
use mybox::projection::Projection;
use mybox::projection::Restored;
use mybox::pull::RemoteBoard;
use mybox::session::return_to_guest_namespace;
use mybox::session::AccountStep;
use mybox::session::OpenedStep;
use mybox::session::Session;
use mybox::spaces::space_update;
use mybox::spaces::RemoteSpace;
use mybox::spaces::Shelf;
use mybox::spaces::SpaceEffect;
use mybox::spaces::SpaceMetadataOperation;
use mybox::spaces::SpaceUpdate;
use mybox::status::StorageStatus;
use mybox::status::SyncStatus;
use mybox::storage::board_accepted;
use mybox::storage::board_save;
use mybox::storage::current_local_generation;
use mybox::storage::generation_storage_key;
use mybox::storage::next_generation;
use mybox::storage::next_local_generation;
use mybox::storage::persist_space_crdt;
use mybox::storage::repair_message;
use mybox::storage::select_sync_principal;
use mybox::storage::status_after_board_request;
use mybox::storage::view_storage_key;
use mybox::storage::BoardSave;
use mybox::storage::CrdtPersist;
use mybox::storage::SaveDecision;
use mybox::storage::StorageGuard;
use mybox::workspace::LegacyId;
use mybox::workspace::Surroundings;

fn note(id: u64, text: &str) -> Note {
    Note {
        id,
        stable_id: format!("note-{id}"),
        text: text.to_owned(),
        color: NoteColor::Yellow,
        status: NoteStatus::Todo,
        due_date: None,
        x: Coordinate { bits: 0 },
        y: Coordinate { bits: 0 },
        rotation: 0,
        group_id: None,
        group_stable_id: None,
        created_at: 1,
        updated_at: 1,
        deleted_at: None,
    }
}

fn space(id: u64, name: &str) -> Space {
    Space {
        id,
        stable_id: format!("space-{id}"),
        name: name.to_owned(),
        sync_enabled: false,
        sync_override: None,
        metadata_version: 0,
        archived: false,
        created_at: 1,
        updated_at: 1,
        deleted_at: None,
        board: empty_board(1),
    }
}

fn surroundings() -> Surroundings {
    Surroundings {
        schema_version: 1,
        device_id: "device".to_owned(),
        now: 1_000,
        valid_ids: vec![
            "space-1".to_owned(),
            "space-2".to_owned(),
            "space-3".to_owned(),
            "space-4".to_owned(),
            "note-1".to_owned(),
            "note-2".to_owned(),
        ],
        legacy_ids: vec![LegacyId {
            kind: TombstoneKind::Space,
            id: 9,
            stable_id: "legacy-space-9".to_owned(),
        }],
    }
}

fn shelf(principal: &str) -> Shelf {
    Shelf {
        principal: principal.to_owned(),
        spaces: vec![space(1, "one"), space(2, "two")],
        active_space_id: 1,
        tombstones: Vec::new(),
        desk: Desk::new(1, vec![note(1, "milk")], Vec::new()),
        message: None,
        menu_open: true,
        pending_delete: None,
        rename_id: None,
        rename_value: String::new(),
    }
}

fn saved(effect: &SpaceEffect) -> &WorkspaceData {
    match effect {
        SpaceEffect::Save(workspace) => workspace,
        _ => panic!("not a save"),
    }
}

fn remote(id: u64, archived: bool) -> RemoteSpace {
    RemoteSpace {
        id,
        stable_id: format!("space-{id}"),
        name: format!("remote {id}"),
        archived,
        created_at: 3,
        updated_at: 4,
        deleted_at: None,
        board_version: 11,
    }
}

fn signed_in(account_id: &str, sync_enabled: bool) -> AccountState {
    AccountState::SignedIn(Entitlement {
        account_id: account_id.to_owned(),
        sync_enabled,
        ..Entitlement::default()
    })
}

#[test]
fn switching_puts_the_desk_away() {
    let env = surroundings();
    let mut s = shelf("guest:a");
    let effects = s.switch(&env, 2);
    assert_eq!(s.active_space_id, 2);
    assert!(s.desk.notes.is_empty());
    assert!(!s.menu_open);
    assert_eq!(s.spaces[0].board.notes[0].text, "milk");
    assert_eq!(effects.len(), 3);
    assert_eq!(saved(&effects[0]).active_space_id, 1);
    assert_eq!(effects[1], SpaceEffect::ShowView(2));
    assert_eq!(saved(&effects[2]).active_space_id, 2);
    assert!(s.switch(&env, 2).is_empty());
}

#[test]
fn only_open_spaces_come_to_the_front() {
    let mut s = shelf("guest:a");
    s.spaces[1].archived = true;
    assert!(!s.activate_space(2));
    assert!(!s.activate_space(7));
    assert_eq!(s.active_space_id, 1);
    s.spaces[1].archived = false;
    s.spaces[1].board.notes = vec![note(2, "bread")];
    assert!(s.activate_space(2));
    assert_eq!(s.active_space_id, 2);
    assert_eq!(s.desk.notes[0].text, "bread");
    s.toggle_sync(true);
    assert_eq!(s.message, Some("account spaces are saved through HTTP".to_owned()));
    s.toggle_sync(false);
    assert_eq!(
        s.message,
        Some("guest boards stay on this device; sign in for account spaces".to_owned())
    );
}

#[test]
fn the_last_open_space_stays() {
    let env = surroundings();
    let mut s = shelf("guest:a");
    s.archive_current(&env);
    assert!(s.spaces[0].archived);
    assert_eq!(s.active_space_id, 2);
    s.archive_current(&env);
    assert!(!s.spaces[1].archived);
    assert_eq!(s.message, Some("keep one space open".to_owned()));
    s.restore(&env, 1);
    assert!(!s.spaces[0].archived);
}

#[test]
fn deleted_spaces_leave_a_tombstone() {
    let env = surroundings();
    let mut s = shelf("account:a");
    s.request_delete(2);
    let effects = s.confirm_delete(&env, "legacy");
    assert_eq!(s.spaces[1].deleted_at, Some(1_000));
    assert_eq!(s.tombstones.len(), 1);
    assert_eq!(s.tombstones[0].stable_id, "space-2");
    assert_eq!(
        effects[effects.len() - 1],
        SpaceEffect::UpdateRemote(
            2,
            SpaceUpdate { name: None, archived: None, deleted: Some(true) }
        )
    );
    s.request_delete(1);
    assert!(s.confirm_delete(&env, "legacy").is_empty());
    assert_eq!(s.message, Some("keep one space open".to_owned()));
}

#[test]
fn spaces_are_created_and_renamed() {
    let env = surroundings();
    let mut guest = shelf("guest:a");
    assert!(guest.create(&env, true, 3, "space-3").is_empty());
    assert_eq!(
        guest.message,
        Some("the free board stays single-device; sign in for multiple spaces".to_owned())
    );
    let mut s = shelf("account:a");
    assert_eq!(s.create(&env, true, 3, "space-3"), vec![SpaceEffect::CreateRemote]);
    s.create_failed("boom");
    assert_eq!(s.message, Some("couldn't create space: boom".to_owned()));
    let mut asked = shelf("account:a");
    asked.create_remote(&env, &remote(4, false));
    assert_eq!(asked.active_space_id, 4);
    assert!(asked.spaces[2].sync_enabled);
    s.create(&env, false, 3, "space-3");
    assert_eq!(s.active_space_id, 3);
    assert_eq!(s.spaces.len(), 3);
    assert!(!s.spaces[2].sync_enabled);
    s.begin_rename(3);
    assert_eq!(s.rename_id, Some(3));
    s.rename_value = "  groceries ".to_owned();
    s.save_name(&env);
    assert_eq!(s.spaces[2].name, "groceries");
    s.begin_rename(3);
    s.cancel_name();
    assert_eq!(s.rename_id, None);
    assert_eq!(
        space_update(SpaceMetadataOperation::Restore, None),
        SpaceUpdate { name: None, archived: Some(false), deleted: Some(false) }
    );
}

#[test]
fn manifests_join_with_local_work() {
    let env = surroundings();
    let s = shelf("account:a");
    let entries = vec![SpaceManifestEntry {
        id: 3,
        stable_id: "space-3".to_owned(),
        name: "three".to_owned(),
        metadata_version: 4,
        archived: false,
        created_at: 1,
        updated_at: 1,
        deleted_at: None,
    }];
    let mut spaces = s.spaces;
    spaces[0].board.notes.push(note(1, "milk"));
    let joined = merge_remote_spaces(&env, &spaces, &s.tombstones, 1, &entries);
    assert!(joined.spaces.iter().any(|space| space.id == 3 && space.metadata_version == 4));
    assert!(joined
        .spaces
        .iter()
        .any(|space| space.id == 1 && space.board.notes.len() == 1));
    assert_eq!(next_space_number(2, &entries), 4);
}

#[test]
fn accounts_are_opened_with_all_their_boards() {
    let env = surroundings();
    let mut s = shelf("account:a");
    let state = signed_in("a", true);
    let (mut opening, action) = AccountOpening::start("a", "account:a", &state);
    assert_eq!(action, OpeningAction::ListSpaces);
    let action = opening.listed(
        Ok(vec![remote(3, true), remote(4, false)]),
        &env,
        &mut s,
        "account:a",
        &state,
    );
    assert_eq!(action, OpeningAction::LoadBoard(3));
    let board = |id: u64| RemoteBoard {
        space_id: id,
        version: 1,
        board: BoardData { notes: vec![note(2, "remote")], ..empty_board(1) },
    };
    let action = opening.board_loaded(Ok(board(3)), &env, &mut s, "account:a", &state);
    assert_eq!(action, OpeningAction::LoadBoard(4));
    assert_eq!(s.active_space_id, 1);
    let action = opening.board_loaded(Ok(board(4)), &env, &mut s, "account:a", &state);
    assert!(matches!(action, OpeningAction::Opened(_)));
    assert_eq!(s.spaces.len(), 2);
    assert_eq!(s.active_space_id, 4);
    assert!(s.spaces[0].sync_enabled);
    assert_eq!(s.spaces[0].metadata_version, 11);
    assert_eq!(s.desk.notes[0].text, "remote");
}

#[test]
fn accounts_without_a_space_get_one() {
    let env = surroundings();
    let mut s = shelf("account:a");
    let state = signed_in("a", true);
    let (mut opening, _) = AccountOpening::start("a", "account:a", &state);
    assert_eq!(
        opening.listed(Ok(vec![]), &env, &mut s, "account:a", &state),
        OpeningAction::CreateSpace("my space".to_owned())
    );
    assert_eq!(
        opening.created(Ok(remote(3, false)), &env, &mut s, "account:a", &state),
        OpeningAction::LoadBoard(3)
    );
}

#[test]
fn openings_fail_with_a_reason() {
    let env = surroundings();
    let mut s = shelf("account:a");
    let state = signed_in("a", true);
    let (mut opening, _) = AccountOpening::start("a", "account:a", &state);
    let failed = opening.listed(Err("boom".to_owned()), &env, &mut s, "account:a", &state);
    assert_eq!(failed, OpeningAction::Failed);
    assert_eq!(s.message, Some("couldn't load your spaces: boom".to_owned()));
    opening.created(Err("boom".to_owned()), &env, &mut s, "account:a", &state);
    assert_eq!(s.message, Some("couldn't create your first space: boom".to_owned()));
    opening.listed(Ok(vec![remote(3, false)]), &env, &mut s, "account:a", &state);
    opening.board_loaded(Err("boom".to_owned()), &env, &mut s, "account:a", &state);
    assert_eq!(s.message, Some("couldn't load a space: boom".to_owned()));
    let wrong = RemoteBoard { space_id: 4, version: 1, board: empty_board(1) };
    assert_eq!(
        opening.board_loaded(Ok(wrong), &env, &mut s, "account:a", &state),
        OpeningAction::Failed
    );
    assert_eq!(s.message, Some("the server returned the wrong space".to_owned()));
    assert_eq!(s.spaces.len(), 2);
    let (_, other) = AccountOpening::start("a", "guest:b", &state);
    assert_eq!(other, OpeningAction::Failed);
    assert!(!account_namespace_is_current("account:a", &AccountState::Guest, "a"));
}

#[test]
fn stored_workspaces_come_on_the_shelf() {
    let env = surroundings();
    let mut s = shelf("guest:a");
    s.desk.selection = vec![1];
    let stored = WorkspaceData {
        schema_version: 1,
        device_id: "device".to_owned(),
        tombstones: Vec::new(),
        spaces: vec![space(3, "three")],
        active_space_id: 3,
    };
    let fallback = WorkspaceData {
        schema_version: 1,
        device_id: "device".to_owned(),
        tombstones: Vec::new(),
        spaces: vec![space(4, "four")],
        active_space_id: 4,
    };
    s.hydrate(&env, Some(stored), fallback.clone());
    assert_eq!(s.active_space_id, 3);
    assert!(s.desk.selection.is_empty());
    s.hydrate(&env, None, fallback);
    assert_eq!(s.active_space_id, 4);
}

#[test]
fn sessions_open_entitled_accounts() {
    let mut session = Session::new();
    assert_eq!(session.open_account(), AccountStep::Nothing);
    session.hydrated = true;
    session.account = signed_in("a", true);
    assert_eq!(session.open_account(), AccountStep::Open("a".to_owned(), false));
    assert!(!session.may_write_desk());
    assert_eq!(session.open_account(), AccountStep::Nothing);
    assert_eq!(
        session.account_opened("a", true, true, "account:a"),
        OpenedStep::Opened
    );
    assert!(session.may_write_desk());
    assert_eq!(session.open_account(), AccountStep::Nothing);
    assert!(session.start_authenticated_sync(77));
    assert_eq!(session.sync_status, SyncStatus::Synced);
    assert_eq!(session.last_server_ack_at, Some(77));
    assert!(!session.start_authenticated_sync(78));
    assert!(!session.shows_opening());
    session.ready = false;
    assert!(session.shows_opening());
    session.account = AccountState::Guest;
    assert!(!session.shows_opening());
}

#[test]
fn sessions_fall_back_to_a_guest() {
    let mut session = Session::new();
    session.hydrated = true;
    session.account = signed_in("a", false);
    assert_eq!(session.open_account(), AccountStep::ReturnToGuest);
    assert!(session.keyboard_is_off());
    let change = session.account_changed();
    assert_eq!(session.sync_status, SyncStatus::BillingPaused);
    assert!(!change.return_to_guest);
    session.sync_started = true;
    session.account = AccountState::Expired;
    let change = session.account_changed();
    assert!(change.stop_sync);
    assert!(!change.return_to_guest);
    assert!(change.count_pending);
    assert_eq!(session.sync_status, SyncStatus::AuthPaused);
    session.account = AccountState::Guest;
    assert!(session.account_changed().return_to_guest);
    assert_eq!(session.sync_status, SyncStatus::Disabled);
    session.account = AccountState::Unavailable;
    session.account_changed();
    assert_eq!(session.sync_status, SyncStatus::Error);
    assert!(return_to_guest_namespace("account:a"));
    assert!(!return_to_guest_namespace("guest:a"));
}

#[test]
fn expired_sessions_stay_with_their_account() {
    let mut session = Session::new();
    session.hydrated = true;
    session.account = signed_in("a", true);
    session.open_account();
    session.account_opened("a", true, true, "account:a");
    assert!(session.start_authenticated_sync(7));
    assert!(session.may_send_boards());
    session.account = AccountState::Expired;
    assert!(!session.account_changed().return_to_guest);
    assert_eq!(session.open_account(), AccountStep::Nothing);
    assert_eq!(session.prepared, Some("a".to_owned()));
    assert!(session.may_write_desk());
    assert!(!session.may_send_boards());
    assert!(!session.start_authenticated_sync(8));
    session.account = signed_in("a", true);
    session.account_changed();
    assert!(session.start_authenticated_sync(9));
    assert_eq!(session.sync_status, SyncStatus::Synced);
}

#[test]
fn sessions_discard_late_answers() {
    let mut session = Session::new();
    assert!(!session.account_found(AccountState::Guest, "guest:a", "account:a"));
    assert!(session.account_found(signed_in("a", true), "account:a", "account:a"));
    assert!(!session.account_refreshed(AccountState::Unavailable, "account:a", "account:a"));
    assert!(session.account_refreshed(AccountState::Expired, "account:a", "account:a"));
    let mut failed = Session::new();
    failed.account = signed_in("a", true);
    assert_eq!(
        failed.account_opened("a", false, true, "account:a"),
        OpenedStep::Failed
    );
    assert_eq!(failed.sync_status, SyncStatus::Error);
    assert_eq!(
        failed.account_opened("a", true, true, "guest:b"),
        OpenedStep::Superseded
    );
    failed.account = AccountState::Guest;
    assert_eq!(
        failed.account_opened("a", true, true, "account:a"),
        OpenedStep::RestartAsGuest
    );
}

#[test]
fn only_local_spaces_are_handed_over_between_accounts() {
    let env = surroundings();
    let mut s = shelf("account:a");
    s.spaces[1].sync_enabled = true;
    let handed = s.hand_over(&env);
    assert_eq!(handed.spaces.len(), 1);
    assert_eq!(handed.spaces[0].board.notes[0].text, "milk");
    s.principal = "guest:a".to_owned();
    assert_eq!(s.hand_over(&env).spaces.len(), 2);
}

const IDLE: Interaction = Interaction {
    dragging_note: false,
    dragging_group: false,
    resizing_group: false,
    editing_note: false,
    editing_group: false,
};

#[test]
fn guests_save_on_the_device() {
    let env = surroundings();
    let mut s = shelf("guest:a");
    let mut guard = StorageGuard::new();
    let mut projection = Projection::new(0);
    let writes = projection.write_desk(&mut s, &env, &mut guard, 0, &IDLE, None);
    assert_eq!(writes.status, StorageStatus::Saved);
    assert_eq!(writes.generation, 1);
    assert_eq!(writes.board, None);
    assert_eq!(writes.workspace.unwrap().spaces[0].board.notes[0].text, "milk");
    let again = projection.write_desk(&mut s, &env, &mut guard, 0, &IDLE, None);
    assert_eq!(again.status, StorageStatus::Saving);
    assert_eq!(again.generation, 2);
    assert_eq!(guard.finish_write(true, Some(1)), None);
    assert_eq!(guard.finish_write(true, Some(2)), Some(StorageStatus::Saved));
}

#[test]
fn accounts_send_finished_changes() {
    let env = surroundings();
    let mut s = shelf("account:a");
    let mut guard = StorageGuard::new();
    let mut projection = Projection::new(0);
    let first = projection.write_desk(&mut s, &env, &mut guard, 0, &IDLE, None);
    assert_eq!(first.board, None);
    assert_eq!(first.workspace, None);
    let busy = Interaction { editing_note: true, ..IDLE };
    let typing = projection.write_desk(&mut s, &env, &mut guard, 0, &busy, None);
    assert_eq!(typing.board, None);
    assert_eq!(typing.status, StorageStatus::Saved);
    let done = projection.write_desk(&mut s, &env, &mut guard, 0, &IDLE, None);
    assert_eq!(done.board.unwrap().notes[0].text, "milk");
    assert_eq!(done.status, StorageStatus::Saving);
    s.spaces = board_accepted(&s.spaces, 1, 12, 2_000);
    assert_eq!(s.spaces[0].metadata_version, 12);
    assert_eq!(s.spaces[0].updated_at, 2_000);
    assert_eq!(status_after_board_request(true), StorageStatus::Saved);
    assert_eq!(status_after_board_request(false), StorageStatus::Error);
}

#[test]
fn blocked_storage_is_not_written() {
    let env = surroundings();
    let mut s = shelf("guest:a");
    let mut guard = StorageGuard::new();
    assert_eq!(guard.begin_storage_write(), 1);
    assert_eq!(guard.finish_write(false, Some(1)), Some(StorageStatus::Error));
    assert!(guard.storage_writes_blocked());
    let mut projection = Projection::new(0);
    let writes = projection.write_desk(&mut s, &env, &mut guard, 0, &IDLE, None);
    assert_eq!(writes.workspace, None);
    assert_eq!(writes.status, StorageStatus::Error);
    assert_eq!(s.workspace_to_persist(&env, true), None);
    let w = s.workspace_to_persist(&env, false).unwrap();
    assert_eq!(guard.save_workspace(&env, w, true), SaveDecision::Blocked);
    assert_eq!(guard.finish_queueing(true, Some(1)), None);
    assert_eq!(guard.finish_queueing(false, None), None);
    guard.clear();
    assert!(!guard.storage_writes_blocked());
    assert_eq!(
        repair_message(),
        "local data needs repair — export a backup, then restore a valid workspace backup"
    );
}

#[test]
fn boards_go_where_they_belong() {
    assert_eq!(board_save(false, "guest:a", true), BoardSave::Workspace);
    assert_eq!(board_save(true, "account:a", true), BoardSave::Workspace);
    assert_eq!(board_save(false, "account:a", true), BoardSave::Blocked);
    assert_eq!(board_save(false, "account:a", false), BoardSave::Request);
    assert_eq!(persist_space_crdt("guest:a", false), CrdtPersist::Local);
    assert_eq!(persist_space_crdt("account:a", false), CrdtPersist::Send);
    assert_eq!(persist_space_crdt("account:a", true), CrdtPersist::Refused);
    assert_eq!(select_sync_principal("  "), "guest");
    assert_eq!(select_sync_principal("account:a"), "account:a");
    assert_eq!(view_storage_key("guest:a", 7), "task-space.view.v2.guest:a:7");
    assert_eq!(generation_storage_key("guest:a", 7), "task-space:generation:guest:a:7");
}

#[test]
fn generations_only_grow() {
    assert_eq!(next_generation(0), 1);
    assert_eq!(next_generation(u64::MAX), u64::MAX);
    assert_eq!(current_local_generation(Some(3), &Some("5".to_owned())), 5);
    assert_eq!(current_local_generation(None, &Some("x".to_owned())), 0);
    assert_eq!(next_local_generation(Some(7), &Some("5".to_owned())), 8);
    assert_eq!(next_local_generation(None, &None), 1);
}

#[test]
fn backups_come_back() {
    let env = surroundings();
    let mut s = shelf("guest:a");
    let mut guard = StorageGuard::new();
    guard.repair_required = true;
    let backup = || WorkspaceData {
        schema_version: 1,
        device_id: "elsewhere".to_owned(),
        tombstones: Vec::new(),
        spaces: vec![space(3, "three")],
        active_space_id: 3,
    };
    assert_eq!(
        s.restore_backup(&env, &mut guard, Some(backup()), None, false),
        Restored::Cancelled
    );
    assert_eq!(s.message, Some("restore cancelled".to_owned()));
    assert!(guard.repair_required);
    match s.restore_backup(&env, &mut guard, Some(backup()), None, true) {
        Restored::Workspace(workspace, generation) => {
            assert_eq!(workspace.device_id, "device");
            assert_eq!(generation, 1);
        }
        _ => panic!("not restored"),
    }
    assert_eq!(s.active_space_id, 3);
    assert!(!guard.repair_required);
    assert_eq!(s.message, Some("workspace restored".to_owned()));
    let empty = WorkspaceData { spaces: Vec::new(), ..backup() };
    assert_eq!(
        s.restore_backup(&env, &mut guard, Some(empty), None, true),
        Restored::Empty
    );
    let board = BoardData { notes: vec![note(2, "tea")], ..empty_board(1) };
    s.begin_restore();
    assert_eq!(
        s.restore_backup(&env, &mut guard, None, Some(board), false),
        Restored::Board
    );
    assert_eq!(s.desk.notes[0].text, "tea");
    s.desk.undo();
    assert!(s.desk.notes.is_empty());
    assert_eq!(
        s.restore_backup(&env, &mut guard, None, None, true),
        Restored::Unknown
    );
    assert_eq!(s.message, Some("that file is not a Task Space backup".to_owned()));
}
