use mybox::arrivals::decode_indexed_crdt_value;
use mybox::arrivals::ids_to_pull;
use mybox::arrivals::is_registered;
use mybox::arrivals::manifest_is_readable;
use mybox::arrivals::pending_updates_fit;
use mybox::arrivals::remote_space_position;
use mybox::arrivals::spaces_to_register;
use mybox::arrivals::DocumentLoad;
use mybox::arrivals::DocumentSource;
use mybox::arrivals::DocumentStep;
use mybox::arrivals::RequestStep;
use mybox::arrivals::SessionRequest;
use mybox::arrivals::StoredDocument;
use mybox::desk::Desk;
use mybox::drain::classify_reply;
use mybox::drain::documents_follow;
use mybox::drain::retry_result_for_response;
use mybox::drain::unread_queue;
use mybox::drain::DrainAction;
use mybox::drain::DrainContext;
use mybox::drain::MetadataDrain;
use mybox::drain::MetadataReply;
use mybox::drain::QueueDrainResult;
use mybox::drain::ReplyClass;
use mybox::drain::ReplyHead;
use mybox::events::may_store_event;
use mybox::events::EventAction;
use mybox::events::EventMetadata;
use mybox::events::EventQueue;
use mybox::events::EventRun;
use mybox::events::QueuedEvent;
use mybox::events::SyncEvent;
use mybox::metadata::metadata_operation_from_name;
use mybox::metadata::metadata_operation_is_satisfied;
use mybox::metadata::metadata_operation_name;
use mybox::metadata::sort_metadata_updates;
use mybox::metadata::QueuedMetadataUpdate;
use mybox::metadata::SpaceManifestEntry;
use mybox::model::empty_board;
use mybox::model::BoardData;
use mybox::model::Coordinate;
use mybox::model::Note;
use mybox::model::NoteColor;
use mybox::model::NoteStatus;
use mybox::model::Space;
use mybox::model::TombstoneKind;
use mybox::ledger::AcknowledgedStates;
use mybox::pull::manifest_joined;
use mybox::pull::manifest_registered;
use mybox::pull::pull_active_space;
use mybox::pull::refresh_manifest;
use mybox::pull::ActivePull;
use mybox::pull::ManifestStep;
use mybox::pull::PullAction;
use mybox::pull::PullContext;
use mybox::pull::PullReply;
use mybox::pull::RemoteBoard;
use mybox::pull::SpacePull;
use mybox::reconcile::DecodedSizes;
use mybox::reconcile::QueuedCrdtUpdate;
use mybox::reconcile::ReconcileAction;
use mybox::reconcile::ReconcileDrain;
use mybox::reconcile::ReconcileReply;
use mybox::reconcile::SyncLimits;
use mybox::schedule::local_pending_count;
use mybox::schedule::stored_error_text;
use mybox::schedule::DrainLoop;
use mybox::schedule::DrainSchedule;
use mybox::schedule::LoopAction;
use mybox::schedule::SyncRun;
use mybox::siblings::begin_tab_update;
use mybox::siblings::refresh_merged;
use mybox::siblings::refresh_opened;
use mybox::siblings::refresh_pending;
use mybox::siblings::refresh_read;
use mybox::siblings::tab_update_applied;
use mybox::siblings::tab_update_decoded;
use mybox::siblings::RefreshStep;
use mybox::siblings::TabUpdateStep;
use mybox::spaces::Shelf;
use mybox::spaces::SpaceMetadataOperation;
use mybox::status::connection_message;
use mybox::status::format_sync_age;
use mybox::status::latest_sync_timestamp;
use mybox::status::server_message;
use mybox::status::storage_message;
use mybox::status::sync_status_explanation;
use mybox::status::sync_status_heading;
use mybox::status::sync_status_tone;
use mybox::status::StorageStatus;
use mybox::status::SyncStatus;
use mybox::tabs::default_local_sync_kind;
use mybox::tabs::route_tab_message;
use mybox::tabs::LocalSyncUpdate;
use mybox::tabs::TabQueue;
use mybox::tabs::TabRoute;
use mybox::workspace::LegacyId;
use mybox::workspace::Surroundings;

const LIMITS: SyncLimits = SyncLimits {
    protocol_version: 3,
    document_schema_version: 2,
    max_update_bytes: 100,
    max_state_vector_bytes: 50,
    max_snapshot_bytes: 200,
};

fn note(id: u64, text: &str) -> Note {
    Note {
        id,
        stable_id: format!("note-{id}"),
        text: text.to_owned(),
        color: NoteColor::Blue,
        status: NoteStatus::Todo,
        due_date: None,
        x: Coordinate { bits: 0 },
        y: Coordinate { bits: 0 },
        rotation: 0,
        group_id: None,
        group_stable_id: None,
        created_at: 1,
        updated_at: 1,
        deleted_at: None,
    }
}

fn board(text: &str) -> BoardData {
    BoardData { notes: vec![note(1, text)], ..empty_board(1) }
}

fn space(id: u64, sync_enabled: bool) -> Space {
    Space {
        id,
        stable_id: format!("space-{id}"),
        name: format!("space {id}"),
        sync_enabled,
        sync_override: None,
        metadata_version: 5,
        archived: false,
        created_at: 1,
        updated_at: 1,
        deleted_at: None,
        board: empty_board(1),
    }
}

fn shelf() -> Shelf {
    Shelf {
        principal: "account:a".to_owned(),
        spaces: vec![space(1, true), space(2, true), space(3, false)],
        active_space_id: 1,
        tombstones: Vec::new(),
        desk: Desk::new(1, Vec::new(), Vec::new()),
        message: None,
        menu_open: false,
        pending_delete: None,
        rename_id: None,
        rename_value: String::new(),
    }
}

fn surroundings() -> Surroundings {
    Surroundings {
        schema_version: 1,
        device_id: "device".to_owned(),
        now: 1_000,
        valid_ids: vec!["space-1".to_owned(), "space-9".to_owned()],
        legacy_ids: vec![LegacyId {
            kind: TombstoneKind::Space,
            id: 8,
            stable_id: "legacy-space-8".to_owned(),
        }],
    }
}

fn running() -> DrainContext {
    DrainContext {
        principal: "account:a".to_owned(),
        run_is_current: true,
        coordinator_is_current: true,
    }
}

fn head(status: u16) -> ReplyHead {
    ReplyHead { status, retry_after: None, error_code: None }
}

#[test]
fn transient_sync_failures_are_not_reported_as_offline() {
    assert_eq!(
        sync_status_heading(SyncStatus::Retrying, 1, false),
        "retrying request"
    );
    assert_eq!(
        sync_status_explanation(SyncStatus::Retrying, 1, false),
        "A request did not complete. Changes remain safe on this device; retry when ready."
    );
    assert_eq!(
        sync_status_heading(SyncStatus::Offline, 1, false),
        "saved on device"
    );
}

#[test]
fn metadata_queue_order_is_creation_order_not_random_operation_id_order() {
    let queued = vec![
        QueuedMetadataUpdate {
            principal: Some("account:test".to_owned()),
            space_id: 7,
            operation_id: "z-operation".to_owned(),
            operation: "rename".to_owned(),
            name: Some("latest".to_owned()),
            expected_version: Some(1),
            created_at: 200,
        },
        QueuedMetadataUpdate {
            principal: Some("account:test".to_owned()),
            space_id: 7,
            operation_id: "a-operation".to_owned(),
            operation: "rename".to_owned(),
            name: Some("first".to_owned()),
            expected_version: Some(0),
            created_at: 100,
        },
    ];

    let queued = sort_metadata_updates(queued);
    assert_eq!(queued[0].name.as_deref(), Some("first"));
    assert_eq!(queued[1].name.as_deref(), Some("latest"));
}

#[test]
fn statuses_are_put_into_words() {
    assert_eq!(SyncStatus::Disabled.label(), "device only");
    assert_eq!(SyncStatus::Error.label(), "save error — retry");
    assert_eq!(sync_status_heading(SyncStatus::Syncing, 1, true), "sending changes");
    assert_eq!(sync_status_heading(SyncStatus::Syncing, 0, false), "sending request");
    assert_eq!(sync_status_heading(SyncStatus::Syncing, 0, true), "account board");
    assert_eq!(sync_status_tone(SyncStatus::Checking), "bg-ink-soft/20 text-ink");
    assert_eq!(latest_sync_timestamp(Some(3), Some(9)), Some(9));
    assert_eq!(latest_sync_timestamp(None, None), None);
    assert_eq!(format_sync_age(None, 5), "not yet");
    assert_eq!(format_sync_age(Some(10_000), 5), "just now");
    assert_eq!(format_sync_age(Some(0), 2_000), "2s ago");
    assert_eq!(format_sync_age(Some(0), 60_000), "1m ago");
    assert_eq!(format_sync_age(Some(0), 7_200_000), "2h ago");
    assert_eq!(storage_message(StorageStatus::Error, false), "couldn't save locally");
    assert_eq!(server_message(true, 4), "4 waiting");
    assert_eq!(server_message(true, 0), "up to date");
    assert_eq!(server_message(false, 4), "not enabled");
    assert_eq!(connection_message(false, SyncStatus::Offline), "offline");
    assert_eq!(connection_message(false, SyncStatus::Error), "reconnecting");
}

#[test]
fn answers_are_classified() {
    assert_eq!(classify_reply(&head(200)), ReplyClass::Success);
    assert_eq!(classify_reply(&head(401)), ReplyClass::AuthExpired);
    assert_eq!(classify_reply(&head(409)), ReplyClass::Conflict);
    assert_eq!(
        retry_result_for_response(&Some("3".to_owned())),
        QueueDrainResult::RetryAfter(3_000)
    );
    assert_eq!(retry_result_for_response(&None), QueueDrainResult::Retry);
    assert_eq!(unread_queue(true), QueueDrainResult::Paused);
    assert_eq!(unread_queue(false), QueueDrainResult::Retry);
}

#[test]
fn operations_have_names() {
    assert_eq!(metadata_operation_name(SpaceMetadataOperation::Archive), "archive");
    assert_eq!(
        metadata_operation_from_name("restore"),
        Some(SpaceMetadataOperation::Restore)
    );
    assert_eq!(metadata_operation_from_name("explode"), None);
    let entry = SpaceManifestEntry {
        id: 1,
        stable_id: "space-1".to_owned(),
        name: "one".to_owned(),
        metadata_version: 6,
        archived: false,
        created_at: 1,
        updated_at: 1,
        deleted_at: None,
    };
    assert!(metadata_operation_is_satisfied(
        SpaceMetadataOperation::Rename,
        &Some("one".to_owned()),
        &entry
    ));
    assert!(!metadata_operation_is_satisfied(SpaceMetadataOperation::Delete, &None, &entry));
}

fn change(space_id: u64) -> QueuedMetadataUpdate {
    QueuedMetadataUpdate {
        principal: Some("account:a".to_owned()),
        space_id,
        operation_id: "op-1".to_owned(),
        operation: "rename".to_owned(),
        name: Some("renamed".to_owned()),
        expected_version: Some(5),
        created_at: 1,
    }
}

#[test]
fn changes_leave_the_queue_once_they_are_answered() {
    let c = running();
    let s = shelf();
    let (mut drain, action) =
        MetadataDrain::start(3, vec![change(3), change(1)], false, &c, &s.spaces);
    match action {
        DrainAction::Send(request) => assert_eq!(request.space_id, 1),
        _ => panic!("nothing sent"),
    }
    assert_eq!(drain.replied(Some(head(200)), &c), DrainAction::ReadBody);
    let mut spaces = s.spaces;
    let mut tombstones = s.tombstones;
    let reply = MetadataReply {
        protocol_version: 3,
        space_id: 1,
        stable_space_id: Some("space-1".to_owned()),
        name: "renamed".to_owned(),
        archived: false,
        metadata_version: 6,
        deleted_at: None,
    };
    let action = drain.body(Some(reply), &"legacy".to_owned(), &c, &mut spaces, &mut tombstones, 9);
    assert_eq!(action, DrainAction::SaveAndAck(1, "op-1".to_owned()));
    assert_eq!(spaces[0].name, "renamed");
    assert_eq!(spaces[0].metadata_version, 6);
    let (_, end) = drain.acked(&c, &spaces);
    assert_eq!(end, DrainAction::Finish(QueueDrainResult::Complete));
}

#[test]
fn conflicts_are_settled_or_rebased() {
    let c = running();
    let s = shelf();
    let remote = |name: &str, version: u64| SpaceManifestEntry {
        id: 1,
        stable_id: "space-1".to_owned(),
        name: name.to_owned(),
        metadata_version: version,
        archived: false,
        created_at: 1,
        updated_at: 1,
        deleted_at: None,
    };
    let mut spaces = s.spaces;
    let mut tombstones = s.tombstones;
    let (mut drain, _) = MetadataDrain::start(3, vec![change(1)], false, &c, &spaces);
    assert_eq!(drain.replied(Some(head(409)), &c), DrainAction::FetchRemote(1));
    assert_eq!(
        drain.remote(Some(remote("other", 8)), &c, &mut spaces, &mut tombstones, 9),
        DrainAction::Rebase(1, "op-1".to_owned(), Some(8))
    );
    match drain.rebased(true, &c, &spaces) {
        DrainAction::Send(request) => {
            assert_eq!(request.expected_version, Some(8));
            assert_eq!(request.name, Some("renamed".to_owned()));
        }
        _ => panic!("nothing sent"),
    }
    assert_eq!(
        drain.rebased(false, &c, &spaces),
        DrainAction::Finish(QueueDrainResult::Retry)
    );
    assert_eq!(drain.replied(Some(head(409)), &c), DrainAction::FetchRemote(1));
    assert_eq!(
        drain.remote(Some(remote("renamed", 9)), &c, &mut spaces, &mut tombstones, 9),
        DrainAction::SaveAndAck(1, "op-1".to_owned())
    );
    assert_eq!(spaces[0].metadata_version, 9);
}

#[test]
fn documents_wait_for_the_metadata() {
    assert_eq!(documents_follow(QueueDrainResult::Complete), None);
    assert_eq!(documents_follow(QueueDrainResult::Paused), Some(QueueDrainResult::Paused));
    assert_eq!(
        documents_follow(QueueDrainResult::RetryAfter(7)),
        Some(QueueDrainResult::RetryAfter(7))
    );
}

#[test]
fn expired_sessions_pause_the_queue() {
    let c = running();
    let s = shelf();
    let (mut drain, _) = MetadataDrain::start(3, vec![change(1)], false, &c, &s.spaces);
    assert_eq!(drain.replied(Some(head(401)), &c), DrainAction::Refresh);
    assert_eq!(
        drain.refreshed(false),
        DrainAction::Finish(QueueDrainResult::PausedAuth)
    );
    assert_eq!(
        drain.replied(None, &c),
        DrainAction::Finish(QueueDrainResult::Retry)
    );
}

#[test]
fn documents_are_sent_and_acknowledged() {
    let c = running();
    let env = surroundings();
    let mut s = shelf();
    let mut states = AcknowledgedStates::new();
    let update = QueuedCrdtUpdate {
        principal: Some("account:a".to_owned()),
        space_id: 1,
        mutation_id: "m-1".to_owned(),
        device_id: Some("device".to_owned()),
        last_server_sequence: None,
        local_generation: Some(4),
        state_vector: None,
        update: "AA==".to_owned(),
    };
    let (mut drain, action) = ReconcileDrain::start(LIMITS, vec![update], false, &c, &s.spaces);
    assert_eq!(action, ReconcileAction::EnsureDocument(1));
    assert_eq!(drain.document(true, &c), ReconcileAction::Reserve(1));
    assert_eq!(drain.reserved(true), ReconcileAction::Encode);
    match drain.encoded(true, &"device".to_owned(), &c, &s.spaces) {
        ReconcileAction::Send(request) => {
            assert_eq!(request.mutation_id, "m-1");
            assert_eq!(request.update, "AA==");
            assert_eq!(request.local_generation, 4);
            assert_eq!(request.stable_space_id, Some("space-1".to_owned()));
        }
        _ => panic!("nothing sent"),
    }
    assert_eq!(drain.replied(Some(head(200)), &c), ReconcileAction::ReadBody);
    let reply = ReconcileReply {
        protocol_version: 3,
        document_schema_version: 2,
        space_id: 1,
        stable_space_id: Some("space-1".to_owned()),
        mutation_id: "m-1".to_owned(),
        acknowledged_generation: 4,
    };
    assert_eq!(drain.body(Some(reply), &c), ReconcileAction::Decode);
    assert_eq!(
        drain.decoded(Some(DecodedSizes { update: 10, state_vector: 10 }), &c),
        ReconcileAction::Apply(1)
    );
    let large = drain.applied(Some((&board("milk"), 201)), &env, &mut s);
    assert_eq!(large.action, ReconcileAction::Finish(QueueDrainResult::Retry));
    assert_eq!(s.desk.notes[0].text, "milk");
    let lost = drain.applied(None, &env, &mut s);
    assert!(lost.workspace.is_none());
    assert_eq!(lost.action, ReconcileAction::Finish(QueueDrainResult::Retry));
    let taken = drain.applied(Some((&board("bread"), 200)), &env, &mut s);
    assert_eq!(taken.action, ReconcileAction::Commit(1, "m-1".to_owned(), 4));
    assert!(taken.on_desk);
    assert!(taken.announce);
    assert_eq!(s.spaces[0].board.notes[0].text, "bread");
    assert_eq!(
        drain.committed(false, &c, &mut states, vec![7]),
        ReconcileAction::Finish(QueueDrainResult::Retry)
    );
    assert_eq!(states.acknowledged_state_vector("account:a", 1), None);
    assert_eq!(
        drain.committed(true, &c, &mut states, vec![7]),
        ReconcileAction::Acknowledge(1, "m-1".to_owned())
    );
    assert_eq!(states.acknowledged_state_vector("account:a", 1), Some(vec![7]));
    assert_eq!(
        drain.acked(&c, &s.spaces),
        ReconcileAction::Finish(QueueDrainResult::Complete)
    );
}

#[test]
fn attempts_wait_longer_each_time() {
    let mut attempts = DrainLoop::new();
    let mut waits = Vec::new();
    for _ in 0..8 {
        match attempts.attempted(QueueDrainResult::Retry, false, 0, false) {
            (Some(SyncStatus::Retrying), LoopAction::Wait(ms)) => waits.push(ms),
            _ => panic!("not retried"),
        }
    }
    assert_eq!(waits, vec![1_000, 2_000, 4_000, 8_000, 16_000, 32_000, 60_000, 60_000]);
    assert_eq!(
        attempts.attempted(QueueDrainResult::RetryAfter(5), true, 0, false),
        (Some(SyncStatus::Offline), LoopAction::Wait(5))
    );
    assert_eq!(attempts.retry_delay, 1_000);
    assert_eq!(
        attempts.attempted(QueueDrainResult::Retry, false, -900, false).1,
        LoopAction::Wait(250)
    );
    assert_eq!(
        attempts.attempted(QueueDrainResult::Complete, false, 0, true),
        (None, LoopAction::Again)
    );
    assert_eq!(
        attempts.attempted(QueueDrainResult::PausedAuth, false, 0, false),
        (Some(SyncStatus::AuthPaused), LoopAction::Stop(true))
    );
    assert_eq!(
        attempts.attempted(QueueDrainResult::CoordinatorLost, false, 0, false),
        (Some(SyncStatus::Syncing), LoopAction::Wait(2_000))
    );
    assert_eq!(attempts.turn(true, false, true).1, LoopAction::Follow(2_000));
    assert_eq!(attempts.turn(true, true, true).1, LoopAction::Drain);
    assert_eq!(attempts.turn(false, true, true), (None, LoopAction::Stop(false)));
}

#[test]
fn wanted_attempts_are_not_lost() {
    let mut schedule = DrainSchedule::new();
    assert!(!schedule.request(false, true));
    assert!(schedule.request(true, true));
    assert!(!schedule.request(true, true));
    assert!(schedule.pending);
    assert!(schedule.finish(true));
    assert!(schedule.request(true, true));
    assert!(!schedule.take_pending());
    assert!(!schedule.finish(true));
}

#[test]
fn runs_end_for_good() {
    let mut run = SyncRun::new();
    let first = run.begin();
    assert!(run.is_current(first, "account:a"));
    assert!(!run.is_current(first, "guest:a"));
    let refresh = run.begin_refresh();
    assert!(run.may_publish(first, refresh, "account:a", "account:a"));
    run.begin_refresh();
    assert!(!run.may_publish(first, refresh, "account:a", "account:a"));
    run.server_contact = true;
    assert_eq!(run.status_after_count(0), Some(SyncStatus::Synced));
    assert_eq!(run.status_after_count(1), None);
    run.stop_authenticated_sync();
    assert!(!run.server_contact);
    run.begin();
    assert!(!run.is_current(first, "account:a"));
    assert_eq!(local_pending_count(&shelf().spaces, &vec![1, 3], &vec![2, 2]), 3);
    assert_eq!(stored_error_text(7, "full"), "space 7: full");
}

#[test]
fn stored_documents_are_loaded() {
    assert_eq!(decode_indexed_crdt_value(false, None, 9), StoredDocument::Missing);
    assert_eq!(decode_indexed_crdt_value(true, None, 9), StoredDocument::Broken);
    assert_eq!(decode_indexed_crdt_value(true, Some(10), 9), StoredDocument::Broken);
    assert_eq!(decode_indexed_crdt_value(true, Some(9), 9), StoredDocument::Bytes(9));
    assert!(pending_updates_fit(&vec![Some(1), Some(9)], 9));
    assert!(!pending_updates_fit(&vec![Some(1), None], 9));
    let strict = DocumentLoad { strict: true };
    let lenient = DocumentLoad { strict: false };
    assert_eq!(strict.start(true), DocumentStep::Read);
    assert_eq!(strict.read(StoredDocument::Unreadable, true, true), DocumentStep::Repair);
    assert_eq!(
        lenient.read(StoredDocument::Unreadable, false, true),
        DocumentStep::Open(DocumentSource::Board)
    );
    assert_eq!(
        strict.read(StoredDocument::Bytes(3), true, true),
        DocumentStep::Open(DocumentSource::ExistingWithStored)
    );
    assert_eq!(strict.read(StoredDocument::Missing, true, false), DocumentStep::Stop);
    assert_eq!(strict.opened(true), DocumentStep::ReadPending);
    assert_eq!(lenient.opened(false), DocumentStep::Stop);
    assert_eq!(strict.pending(true, true), DocumentStep::Replay);
    assert_eq!(strict.replayed(false), DocumentStep::Repair);
    assert_eq!(strict.replayed(true), DocumentStep::Ready);
}

#[test]
fn requests_renew_the_session_once() {
    let mut request = SessionRequest::new();
    assert_eq!(request.replied(Some(401)), RequestStep::Refresh);
    assert_eq!(request.renewed(true), RequestStep::Send);
    assert_eq!(request.replied(Some(401)), RequestStep::Settled(401));
    assert_eq!(request.replied(None), RequestStep::Failed);
    assert!(is_registered(201));
    assert!(!is_registered(409));
    assert!(manifest_is_readable(200, true));
    assert!(!manifest_is_readable(200, false));
    let s = shelf();
    assert_eq!(ids_to_pull(&s.spaces, 1), vec![2]);
    assert_eq!(spaces_to_register(&s.spaces).len(), 2);
    assert_eq!(remote_space_position(&vec![], 1), 0);
}

fn present() -> PullContext {
    PullContext { principal: "account:a".to_owned(), run_is_current: true }
}

#[test]
fn pulled_boards_come_on_the_shelf() {
    let env = surroundings();
    let c = present();
    let mut s = shelf();
    let (mut pull, action) = SpacePull::start(&LIMITS, &s.spaces, 1, "account:a");
    assert_eq!(action, PullAction::Reserve);
    assert_eq!(pull.reserved(true), PullAction::LoadAcknowledged);
    let mut states = AcknowledgedStates::new();
    assert_eq!(
        pull.acknowledged(None, vec![0], &mut states, &c),
        PullAction::Document(DocumentStep::Read)
    );
    assert_eq!(states.acknowledged_state_vector("account:a", 1), Some(vec![0]));
    pull.acknowledged(Some(vec![8]), vec![0], &mut states, &c);
    pull.acknowledged(None, vec![0], &mut states, &c);
    assert_eq!(states.acknowledged_state_vector("account:a", 1), Some(vec![8]));
    assert_eq!(
        pull.read(StoredDocument::Missing, false, &c),
        PullAction::Document(DocumentStep::Open(DocumentSource::Board))
    );
    assert_eq!(pull.opened(true), PullAction::Document(DocumentStep::ReadPending));
    assert_eq!(pull.pending(true, &c), PullAction::Document(DocumentStep::Replay));
    match pull.replayed(true, &s.spaces, &Some("41".to_owned()), 6) {
        PullAction::Send(request) => {
            assert_eq!(request.last_server_sequence, 41);
            assert_eq!(request.local_generation, 6);
            assert_eq!(request.stable_space_id, Some("space-1".to_owned()));
        }
        _ => panic!("nothing sent"),
    }
    assert_eq!(pull.replied(Some(401), &c), PullAction::Refresh);
    assert!(matches!(pull.refreshed(true), PullAction::Send(_)));
    assert_eq!(pull.replied(Some(401), &c), PullAction::Finish(false));
    assert_eq!(pull.replied(Some(200), &c), PullAction::ReadBody);
    let reply = |more: bool| PullReply {
        protocol_version: 3,
        document_schema_version: 2,
        space_id: 1,
        stable_space_id: Some("space-1".to_owned()),
        has_more: more,
    };
    assert_eq!(pull.body(Some(reply(true)), &c), PullAction::Finish(false));
    assert_eq!(pull.body(Some(reply(false)), &c), PullAction::Decode);
    assert_eq!(pull.decoded(Some((101, 1))), PullAction::Finish(false));
    assert_eq!(pull.decoded(Some((100, 50))), PullAction::Apply);
    assert_eq!(pull.applied(Some(201)), PullAction::Finish(false));
    assert_eq!(pull.applied(Some(200)), PullAction::Commit(6, true));
    let stale = PullContext { principal: "guest:b".to_owned(), run_is_current: true };
    let late = pull.committed(true, &stale, &env, &mut s, &mut states, &board("late"), vec![9]);
    assert!(late.workspace.is_none());
    assert!(!late.on_desk);
    assert_eq!(late.action, PullAction::Finish(false));
    assert!(s.desk.notes.is_empty());
    assert_eq!(states.acknowledged_state_vector("account:a", 1), Some(vec![8]));
    let done = pull.committed(true, &c, &env, &mut s, &mut states, &board("milk"), vec![9]);
    assert_eq!(done.action, PullAction::Finish(true));
    assert!(done.on_desk);
    assert_eq!(states.acknowledged_state_vector("account:a", 1), Some(vec![9]));
    assert_eq!(done.workspace.unwrap().spaces[0].board.notes[0].text, "milk");
    assert_eq!(s.desk.notes[0].text, "milk");
    let (_, refused) = SpacePull::start(&LIMITS, &s.spaces, 3, "account:a");
    assert_eq!(refused, PullAction::Finish(false));
}

#[test]
fn accounts_ask_for_the_board_in_front() {
    let mut s = shelf();
    assert_eq!(pull_active_space("account:a", &s.spaces, 3), ActivePull::Board);
    assert_eq!(pull_active_space("guest:a", &s.spaces, 3), ActivePull::Nothing);
    assert_eq!(pull_active_space("guest:a", &s.spaces, 1), ActivePull::Document);
    let wrong = RemoteBoard { space_id: 2, version: 9, board: board("wrong") };
    assert!(!s.receive_board(1, &wrong, 50));
    let right = RemoteBoard { space_id: 1, version: 9, board: board("right") };
    assert!(s.receive_board(1, &right, 50));
    assert_eq!(s.spaces[0].metadata_version, 9);
    assert_eq!(s.spaces[0].updated_at, 50);
    assert_eq!(s.desk.notes[0].text, "right");
    assert_eq!(refresh_manifest(true, "guest:a"), ManifestStep::Stop);
    assert_eq!(refresh_manifest(true, "account:a"), ManifestStep::Join);
    assert_eq!(manifest_joined(false, true), ManifestStep::Stop);
    assert_eq!(manifest_joined(true, true), ManifestStep::Register);
    assert_eq!(manifest_registered(true), ManifestStep::Pull);
}

fn event(space_id: u64, metadata: Option<EventMetadata>, update_is_empty: bool) -> SyncEvent {
    SyncEvent {
        protocol_version: 3,
        document_schema_version: 2,
        event_id: 77,
        space_id,
        stable_space_id: Some(format!("space-{space_id}")),
        metadata,
        update_is_empty,
    }
}

#[test]
fn events_move_the_cursor_after_they_are_stored() {
    let mut s = shelf();
    let mut run = EventRun::start(&LIMITS, event(1, None, false));
    assert_eq!(run.look(true, &mut s, "legacy", 9), EventAction::Decode);
    assert_eq!(run.decoded(Some(10)), EventAction::Apply(1));
    let b = board("milk");
    assert_eq!(
        run.applied(Some((&b, 20)), &mut s, 9),
        (true, EventAction::StoreDocument(1, true))
    );
    assert_eq!(s.desk.notes[0].text, "milk");
    assert_eq!(run.document_stored(true), EventAction::StoreWorkspace);
    assert_eq!(run.workspace_stored(false), EventAction::PutBack(1_000));
    assert_eq!(run.workspace_stored(true), EventAction::MoveCursor(77));
    assert!(may_store_event("a", "a", true, 200, 50, &LIMITS));
    assert!(!may_store_event("a", "b", true, 200, 50, &LIMITS));
}

#[test]
fn events_that_do_not_fit_are_pulled() {
    let mut s = shelf();
    let mut run = EventRun::start(&LIMITS, event(1, None, false));
    run.look(true, &mut s, "legacy", 9);
    assert_eq!(run.decoded(Some(101)), EventAction::Finish);
    assert_eq!(run.decoded(None), EventAction::Pull(1));
    assert_eq!(run.pulled(false), EventAction::PutBack(1_000));
    assert_eq!(run.pulled(true), EventAction::StoreWorkspace);
    assert_eq!(run.workspace_stored(false), EventAction::PutBack(0));
    let mut other = EventRun::start(&LIMITS, event(1, None, false));
    other.look(true, &mut s, "legacy", 9);
    assert_eq!(other.applied(None, &mut s, 9), (false, EventAction::Pull(1)));
    let mut silent = EventRun::start(&LIMITS, event(1, None, false));
    silent.look(true, &mut s, "legacy", 9);
    assert_eq!(silent.decoded(Some(0)), EventAction::Apply(1));
    assert_eq!(
        silent.applied(Some((&board("milk"), 20)), &mut s, 9),
        (true, EventAction::StoreDocument(1, false))
    );
    let mut unknown = EventRun::start(&LIMITS, event(9, None, false));
    assert_eq!(unknown.look(true, &mut s, "legacy", 9), EventAction::RefreshManifest);
    assert_eq!(
        unknown.manifest_refreshed(&mut s, "legacy", 9),
        EventAction::PutBack(1_000)
    );
    let mut local = EventRun::start(&LIMITS, event(3, None, false));
    assert_eq!(local.look(true, &mut s, "legacy", 9), EventAction::Finish);
    let mut ended = EventRun::start(&LIMITS, event(1, None, false));
    assert_eq!(ended.look(false, &mut s, "legacy", 9), EventAction::Finish);
}

#[test]
fn older_metadata_changes_nothing() {
    let mut s = shelf();
    let metadata = |version: u64, deleted_at: Option<u64>| EventMetadata {
        operation: if deleted_at.is_some() {
            Some(SpaceMetadataOperation::Delete)
        } else {
            Some(SpaceMetadataOperation::Rename)
        },
        name: format!("v{version}"),
        metadata_version: version,
        archived: false,
        deleted_at,
    };
    let mut older = EventRun::start(&LIMITS, event(1, Some(metadata(4, None)), true));
    assert_eq!(older.look(true, &mut s, "legacy", 9), EventAction::Decode);
    assert_eq!(s.spaces[0].name, "space 1");
    let mut newer = EventRun::start(&LIMITS, event(1, Some(metadata(6, Some(33))), true));
    assert_eq!(newer.look(true, &mut s, "legacy", 9), EventAction::StoreWorkspace);
    assert_eq!(s.spaces[0].name, "v6");
    assert!(s.spaces[0].archived);
    assert_eq!(s.tombstones[0].deleted_at, 33);
    assert_eq!(s.active_space_id, 2);
}

#[test]
fn events_are_worked_on_in_order() {
    let mut queue = EventQueue::new();
    let queued = |raw: &str| QueuedEvent { raw: raw.to_owned(), run_generation: 1 };
    assert!(queue.apply_remote_sync_event(queued("a")));
    assert!(!queue.apply_remote_sync_event(queued("b")));
    let first = queue.next().unwrap();
    assert_eq!(first.raw, "a");
    queue.requeue_remote_sync_event(first);
    assert_eq!(queue.next().unwrap().raw, "a");
    assert_eq!(queue.next().unwrap().raw, "b");
    assert!(queue.next().is_none());
    assert!(!queue.running);
}

fn message(kind: &str, operation: Option<&str>) -> LocalSyncUpdate {
    LocalSyncUpdate {
        protocol_version: 1,
        kind: kind.to_owned(),
        principal: "account:a".to_owned(),
        space_id: 1,
        origin_device_id: None,
        origin_tab_id: Some("tab-2".to_owned()),
        local_generation: 4,
        update: None,
        operation: operation.map(|o| o.to_owned()),
        operation_id: None,
        name: None,
        stable_space_id: None,
        sync_enabled: None,
        created_at: 10,
    }
}

#[test]
fn tabs_listen_to_each_other() {
    let m = message("metadata", Some("rename"));
    assert_eq!(route_tab_message(&m, "tab-1", "account:a", true), TabRoute::Metadata);
    assert_eq!(route_tab_message(&m, "tab-2", "account:a", true), TabRoute::Ignored);
    assert_eq!(route_tab_message(&m, "tab-1", "guest:a", true), TabRoute::Ignored);
    assert_eq!(route_tab_message(&m, "tab-1", "account:a", false), TabRoute::Held);
    assert_eq!(
        route_tab_message(&message("space", None), "tab-1", "account:a", true),
        TabRoute::NewSpace
    );
    assert_eq!(
        route_tab_message(&message("space-settings", None), "tab-1", "account:a", true),
        TabRoute::SpaceSettings
    );
    assert_eq!(
        route_tab_message(
            &message(default_local_sync_kind(), None),
            "tab-1",
            "account:a",
            true
        ),
        TabRoute::Document
    );
}

#[test]
fn tab_queues_drop_the_oldest() {
    let mut queue = TabQueue::new();
    for i in 0..300u64 {
        let mut m = message("document", None);
        m.created_at = i;
        queue.queue_local_tab_update(m);
    }
    assert_eq!(queue.messages.len(), 256);
    assert_eq!(queue.next().unwrap().created_at, 44);
}

#[test]
fn tabs_show_what_other_tabs_did() {
    let env = surroundings();
    let mut s = shelf();
    let mut marks = Vec::new();
    let mut rename = message("metadata", Some("rename"));
    rename.name = Some("groceries".to_owned());
    rename.operation_id = Some("b".to_owned());
    let outcome = s.apply_local_tab_metadata(&env, &mut marks, &rename);
    assert!(outcome.wake);
    assert_eq!(s.spaces[0].name, "groceries");
    rename.name = Some("older".to_owned());
    rename.operation_id = Some("a".to_owned());
    let outcome = s.apply_local_tab_metadata(&env, &mut marks, &rename);
    assert!(!outcome.wake);
    assert_eq!(s.spaces[0].name, "groceries");
    let delete = message("metadata", Some("delete"));
    s.apply_local_tab_metadata(&env, &mut marks, &delete);
    assert_eq!(s.active_space_id, 2);
    assert_eq!(s.tombstones.len(), 1);
    s.apply_local_tab_metadata(&env, &mut marks, &message("metadata", Some("restore")));
    assert!(s.tombstones.is_empty());
    assert!(!s.spaces[0].archived);
    let mut create = message("space", Some("create"));
    create.space_id = 8;
    assert!(s.apply_local_tab_space(&env, &create).save.is_none());
    create.name = Some(" new ".to_owned());
    assert!(s.apply_local_tab_space(&env, &create).save.is_some());
    assert_eq!(s.spaces[3].name, "new");
    assert_eq!(s.spaces[3].stable_id, "legacy-space-8");
    assert!(s.apply_local_tab_space(&env, &create).save.is_none());
    let mut settings = message("space-settings", Some("sync"));
    settings.space_id = 3;
    settings.sync_enabled = Some(true);
    assert!(s.apply_local_tab_space_settings(&env, &settings).wake);
    assert!(s.spaces[2].sync_enabled);
    assert!(!s.apply_local_tab_space_settings(&env, &settings).wake);
}

#[test]
fn updates_of_other_tabs_are_shown() {
    let env = surroundings();
    let mut s = shelf();
    let mut m = message("document", None);
    assert_eq!(begin_tab_update(&m, "account:a"), TabUpdateStep::Drop);
    m.update = Some("AA==".to_owned());
    assert_eq!(begin_tab_update(&m, "account:a"), TabUpdateStep::Decode);
    assert_eq!(tab_update_decoded(Some(0), true, &LIMITS), TabUpdateStep::Drop);
    assert_eq!(tab_update_decoded(Some(9), true, &LIMITS), TabUpdateStep::Apply);
    assert_eq!(tab_update_decoded(Some(9), false, &LIMITS), TabUpdateStep::LoadDocument);
    assert_eq!(
        tab_update_applied(&m, Some(201), "account:a", &LIMITS),
        TabUpdateStep::Drop
    );
    assert_eq!(
        tab_update_applied(&m, Some(200), "account:a", &LIMITS),
        TabUpdateStep::Show
    );
    let writes = s.show_tab_update(&env, &m, &board("milk"), "account:a");
    assert_eq!(writes.origin, "tab-2");
    assert_eq!(writes.generation, 4);
    assert!(writes.workspace.is_some());
    assert!(writes.on_desk);
    assert_eq!(s.desk.notes[0].text, "milk");
    assert_eq!(
        refresh_read(StoredDocument::Unreadable, false, true),
        RefreshStep::Surface
    );
    assert_eq!(refresh_read(StoredDocument::Missing, true, true), RefreshStep::Done);
    assert_eq!(refresh_read(StoredDocument::Bytes(3), true, false), RefreshStep::OpenStored);
    assert_eq!(refresh_read(StoredDocument::Broken, true, false), RefreshStep::Surface);
    assert_eq!(refresh_opened(false), RefreshStep::Surface);
    assert_eq!(refresh_pending(true), RefreshStep::Merge);
    let before = board("a");
    let after = board("b");
    assert_eq!(
        refresh_merged(Some((&before, 1)), &before, true, &LIMITS),
        RefreshStep::Done
    );
    assert_eq!(
        refresh_merged(Some((&after, 1)), &before, true, &LIMITS),
        RefreshStep::Show
    );
    assert_eq!(refresh_merged(None, &before, true, &LIMITS), RefreshStep::Surface);
}
