//! Events that the server sends while a run goes on.
//!
//! Events are worked on one after the other. The place in the server's
//! sequence moves on only after what an event brought is stored; an event that
//! cannot be finished goes back to the front of the queue.
use vstd::prelude::*;
use vstd::string::*;

use crate::arrivals::board_taken;
use crate::drain::identity_of;
use crate::drain::space_sync_enabled;
use crate::drain::spaces_sync_by_their_flag;
use crate::drain::stable_space_id;
use crate::drain::syncs;
use crate::lists::opt_view;
use crate::lists::views;
use crate::lists::views_push;
use crate::metadata::add_space_tombstone;
use crate::metadata::remove_space_tombstones;
use crate::metadata::without_space_tombstones;
use crate::metadata::RemoteMetadataView;
use crate::model::BoardData;
use crate::model::Space;
use crate::model::SpaceView;
use crate::model::TombstoneKind;
use crate::model::TombstoneView;
use crate::persist::has_tombstone;
use crate::reconcile::SyncLimits;
use crate::spaces::with_space;
use crate::spaces::with_space_tombstone;
use crate::spaces::Shelf;
use crate::spaces::ShelfView;
use crate::spaces::SpaceMetadataOperation;
use crate::tabs::fallen_back;
use crate::text::text_eq;
use crate::workspace::first_space;
use crate::workspace::is_first_of;
use crate::workspace::is_open;
use crate::workspace::position_of_space;
use crate::workspace::replace_space;

verus! {

/// The wait before an event is tried again.
pub const EVENT_RETRY_WAIT: i32 = 1_000;

/// An event that waits: its text and the number of the run it came in.
#[derive(Debug, PartialEq)]
pub struct QueuedEvent {
    pub raw: String,
    pub run_generation: u64,
}

/// An event that waits, its text as characters.
pub struct QueuedEventView {
    pub raw: Seq<char>,
    pub run_generation: u64,
}

impl View for QueuedEvent {
    type V = QueuedEventView;

    open spec fn view(&self) -> QueuedEventView {
        QueuedEventView { raw: self.raw@, run_generation: self.run_generation }
    }
}

/// The events that wait, first ones first, and whether they are worked on.
#[derive(Debug, PartialEq)]
pub struct EventQueue {
    pub events: Vec<QueuedEvent>,
    pub running: bool,
}

/// The events that wait, as views.
pub struct EventQueueView {
    pub events: Seq<QueuedEventView>,
    pub running: bool,
}

impl View for EventQueue {
    type V = EventQueueView;

    open spec fn view(&self) -> EventQueueView {
        EventQueueView { events: views(self.events@), running: self.running }
    }
}

impl EventQueue {
    /// Nothing waits.
    pub fn new() -> (r: Self)
        ensures
            r@.events == Seq::<QueuedEventView>::empty(),
            !r@.running,
    {
        let events: Vec<QueuedEvent> = Vec::new();
        let r = EventQueue { events, running: false };
        assert(r@.events =~= Seq::<QueuedEventView>::empty());
        r
    }

    /// Puts an event at the end. Says whether work has to be started.
    pub fn apply_remote_sync_event(&mut self, event: QueuedEvent) -> (r: bool)
        ensures
            final(self)@ == (EventQueueView {
                events: old(self)@.events.push(event@),
                running: true,
            }),
            r == !old(self)@.running,
    {
        broadcast use views_push;

        self.events.push(event);
        let start = !self.running;
        self.running = true;
        start
    }

    /// Takes the first event; where there is none, the work is over.
    pub fn next(&mut self) -> (r: Option<QueuedEvent>)
        ensures
            old(self)@.events.len() == 0 ==> r is None && final(self)@ == (EventQueueView {
                running: false,
                ..old(self)@
            }),
            old(self)@.events.len() > 0 ==> opt_view(r) == Some(old(self)@.events[0])
                && final(self)@ == (EventQueueView {
                events: old(self)@.events.skip(1),
                ..old(self)@
            }),
    {
        let ghost before = self@.events;
        if self.events.len() == 0 {
            self.running = false;
            return None;
        }
        let first = self.events.remove(0);
        assert(views(self.events@) =~= before.skip(1));
        Some(first)
    }

    /// Puts an event back in front of the others.
    pub fn requeue_remote_sync_event(&mut self, event: QueuedEvent)
        ensures
            final(self)@ == (EventQueueView {
                events: seq![event@] + old(self)@.events,
                ..old(self)@
            }),
    {
        let ghost before = self@.events;
        let ghost view = event@;
        self.events.insert(0, event);
        assert(views(self.events@) =~= seq![view] + before);
    }
}

/// An event that was put back is the next one again, and the others follow in
/// the order in which they came.
pub proof fn requeued_events_come_next(events: Seq<QueuedEventView>, event: QueuedEventView)
    ensures
        (seq![event] + events)[0] == event,
        (seq![event] + events).skip(1) == events,
{
    assert((seq![event] + events).skip(1) =~= events);
}

/// What an event says about a space as a whole.
#[derive(Debug, PartialEq)]
pub struct EventMetadata {
    pub operation: Option<SpaceMetadataOperation>,
    pub name: String,
    pub metadata_version: u64,
    pub archived: bool,
    pub deleted_at: Option<u64>,
}

/// What an event says about a space, its text as characters.
pub struct EventMetadataView {
    pub operation: Option<SpaceMetadataOperation>,
    pub name: Seq<char>,
    pub metadata_version: u64,
    pub archived: bool,
    pub deleted_at: Option<u64>,
}

impl View for EventMetadata {
    type V = EventMetadataView;

    open spec fn view(&self) -> EventMetadataView {
        EventMetadataView {
            operation: self.operation,
            name: self.name@,
            metadata_version: self.metadata_version,
            archived: self.archived,
            deleted_at: self.deleted_at,
        }
    }
}

/// An event of the server, without its encoded update.
#[derive(Debug, PartialEq)]
pub struct SyncEvent {
    pub protocol_version: u32,
    pub document_schema_version: u32,
    pub event_id: u64,
    pub space_id: u64,
    pub stable_space_id: Option<String>,
    pub metadata: Option<EventMetadata>,
    /// The event has no update.
    pub update_is_empty: bool,
}

/// An event of the server, its texts as characters.
pub struct SyncEventView {
    pub protocol_version: u32,
    pub document_schema_version: u32,
    pub event_id: u64,
    pub space_id: u64,
    pub stable_space_id: Option<Seq<char>>,
    pub metadata: Option<EventMetadataView>,
    pub update_is_empty: bool,
}

impl View for SyncEvent {
    type V = SyncEventView;

    open spec fn view(&self) -> SyncEventView {
        SyncEventView {
            protocol_version: self.protocol_version,
            document_schema_version: self.document_schema_version,
            event_id: self.event_id,
            space_id: self.space_id,
            stable_space_id: opt_view(self.stable_space_id),
            metadata: opt_view(self.metadata),
            update_is_empty: self.update_is_empty,
        }
    }
}

/// What has to be done next.
#[derive(Clone, Copy, Debug, PartialEq, Eq, Structural)]
pub enum EventAction {
    /// The event is over.
    Finish,
    /// Ask the server for its list of spaces.
    RefreshManifest,
    /// Decode the update.
    Decode,
    /// Take the update into a copy of the document of this space.
    Apply(u64),
    /// Store the document of this space together with the server's state; and
    /// before that, where it is said, hand the update on to the other tabs.
    StoreDocument(u64, bool),
    /// Pull the space instead.
    Pull(u64),
    /// Store the workspace.
    StoreWorkspace,
    /// Move the place in the server's sequence to this event.
    MoveCursor(u64),
    /// Put the event back, then wait so many milliseconds.
    PutBack(i32),
}

/// How far an event has come.
#[derive(Clone, Copy, Debug, PartialEq, Eq, Structural)]
pub enum EventPhase {
    /// Its space is being looked for.
    Looking,
    /// Its update is being taken in.
    Updating,
    /// Its space is pulled in place of the update.
    Pulling,
    /// Its document is stored, or pulled because it could not be.
    Storing,
    /// Only the workspace is still to be stored after a pull.
    Pulled,
    /// Only the workspace is still to be stored.
    Closing,
}

/// The state of an event.
#[derive(Debug, PartialEq)]
pub struct EventRun {
    pub limits: SyncLimits,
    pub event: SyncEvent,
    pub phase: EventPhase,
    /// How many bytes the update has, once it was decoded.
    pub update_bytes: usize,
}

/// The state of an event, as a view.
pub struct EventRunView {
    pub limits: SyncLimits,
    pub event: SyncEventView,
    pub phase: EventPhase,
    pub update_bytes: usize,
}

impl View for EventRun {
    type V = EventRunView;

    open spec fn view(&self) -> EventRunView {
        EventRunView {
            limits: self.limits,
            event: self.event@,
            phase: self.phase,
            update_bytes: self.update_bytes,
        }
    }
}

/// Whether an event can be read by this client.
pub open spec fn is_understood(limits: SyncLimits, e: SyncEventView) -> bool {
    e.protocol_version == limits.protocol_version && e.document_schema_version
        == limits.document_schema_version && e.event_id != 0
}

/// Whether the space of an event is on the shelf under the identity that the
/// event gives it.
pub open spec fn is_known(spaces: Seq<SpaceView>, e: SyncEventView) -> bool {
    match identity_of(spaces, e.space_id) {
        Some(stable_id) => e.stable_space_id is None || e.stable_space_id == Some(stable_id),
        None => false,
    }
}

/// Whether some space on the shelf is the one of an event.
pub open spec fn is_resolved(spaces: Seq<SpaceView>, e: SyncEventView) -> bool {
    exists|i: int|
        0 <= i < spaces.len() && (#[trigger] spaces[i]).id == e.space_id && (e.stable_space_id is
            None || e.stable_space_id == Some(spaces[i].stable_id))
}

/// The version of the metadata that a shelf has of a space.
pub open spec fn version_of(spaces: Seq<SpaceView>, id: u64) -> u64 {
    let i = first_space(spaces, |s: SpaceView| s.id == id);
    if i < spaces.len() {
        spaces[i].metadata_version
    } else {
        0
    }
}

/// Whether an event brings metadata that is not older than what is known.
pub open spec fn brings_metadata(s: ShelfView, e: SyncEventView) -> bool {
    e.metadata is Some && e.metadata->0.metadata_version >= version_of(s.spaces, e.space_id)
}

/// The tombstones after an event.
pub open spec fn event_tombstones(
    s: ShelfView,
    e: SyncEventView,
    m: EventMetadataView,
    legacy: Seq<char>,
    now: u64,
) -> Seq<TombstoneView> {
    match m.operation {
        Some(SpaceMetadataOperation::Delete) => with_space_tombstone(
            s.tombstones,
            e.space_id,
            match e.stable_space_id {
                Some(id) => id,
                None => legacy,
            },
            match m.deleted_at {
                Some(deleted_at) => deleted_at,
                None => now,
            },
        ),
        Some(SpaceMetadataOperation::Restore) => without_space_tombstones(
            s.tombstones,
            e.space_id,
        ),
        _ => s.tombstones,
    }
}

/// A space after an event about it.
pub open spec fn space_after_event(x: SpaceView, m: EventMetadataView) -> SpaceView {
    SpaceView {
        name: m.name,
        metadata_version: m.metadata_version,
        archived: m.archived || m.deleted_at is Some,
        deleted_at: m.deleted_at,
        ..x
    }
}

/// The shelf after an event about a space as a whole. Older metadata changes
/// nothing; where the space in front was deleted, an open one comes in front.
pub open spec fn metadata_taken(
    s: ShelfView,
    e: SyncEventView,
    legacy: Seq<char>,
    now: u64,
) -> ShelfView {
    if brings_metadata(s, e) {
        let m = e.metadata->0;
        let next = ShelfView {
            tombstones: event_tombstones(s, e, m, legacy, now),
            spaces: with_space(s.spaces, e.space_id, |x: SpaceView| space_after_event(x, m)),
            ..s
        };
        if m.deleted_at is Some && s.active_space_id == e.space_id {
            fallen_back(next)
        } else {
            next
        }
    } else {
        s
    }
}

/// The phase and the action after the space of an event was found on the
/// shelf.
pub open spec fn after_admission(s: ShelfView, e: SyncEventView) -> (EventPhase, EventAction) {
    if !syncs(s.spaces, e.space_id) {
        (EventPhase::Looking, EventAction::Finish)
    } else if brings_metadata(s, e) && e.update_is_empty {
        (EventPhase::Closing, EventAction::StoreWorkspace)
    } else {
        (EventPhase::Updating, EventAction::Decode)
    }
}

/// The phase and the action after an update was decoded, or could not be.
pub open spec fn after_decoding(r: EventRunView, size: Option<usize>) -> (EventPhase, EventAction) {
    match size {
        None => (EventPhase::Pulling, EventAction::Pull(r.event.space_id)),
        Some(n) => if n > r.limits.max_update_bytes {
            (r.phase, EventAction::Finish)
        } else {
            (r.phase, EventAction::Apply(r.event.space_id))
        },
    }
}

/// The phase and the action after an update was taken in, or could not be.
pub open spec fn after_update(r: EventRunView, fits: bool) -> (EventPhase, EventAction) {
    if fits {
        (EventPhase::Storing, EventAction::StoreDocument(r.event.space_id, r.update_bytes > 0))
    } else {
        (EventPhase::Pulling, EventAction::Pull(r.event.space_id))
    }
}

/// The phase and the action after a document was stored, or could not be.
pub open spec fn after_storing(r: EventRunView, stored: bool) -> (EventPhase, EventAction) {
    if stored {
        (EventPhase::Closing, EventAction::StoreWorkspace)
    } else {
        (EventPhase::Storing, EventAction::Pull(r.event.space_id))
    }
}

/// The phase and the action after a pull in place of the update, or of the
/// document that could not be stored.
pub open spec fn after_pull(r: EventRunView, pulled: bool) -> (EventPhase, EventAction) {
    if !pulled {
        (r.phase, EventAction::PutBack(EVENT_RETRY_WAIT))
    } else if r.phase == EventPhase::Storing {
        (EventPhase::Closing, EventAction::StoreWorkspace)
    } else {
        (EventPhase::Pulled, EventAction::StoreWorkspace)
    }
}

/// The action after the workspace was stored, or could not be.
pub open spec fn after_closing(r: EventRunView, stored: bool) -> EventAction {
    if stored {
        EventAction::MoveCursor(r.event.event_id)
    } else if r.phase == EventPhase::Pulled {
        EventAction::PutBack(0)
    } else {
        EventAction::PutBack(EVENT_RETRY_WAIT)
    }
}

impl Shelf {
    /// Takes in what an event says about a space as a whole. Says whether it
    /// was not older than what is known.
    pub fn take_event_metadata(&mut self, event: &SyncEvent, legacy: &str, now: u64) -> (r: bool)
        ensures
            final(self)@ == metadata_taken(old(self)@, event@, legacy@, now),
            r == brings_metadata(old(self)@, event@),
    {
        let m = match &event.metadata {
            Some(m) => m,
            None => return false,
        };
        let i = position_of_space(&self.spaces, event.space_id);
        let version: u64 = if i < self.spaces.len() {
            self.spaces[i].metadata_version
        } else {
            0
        };
        if m.metadata_version < version {
            return false;
        }
        let ghost before = self@;
        match m.operation {
            Some(SpaceMetadataOperation::Delete) => {
                let stable_id = match &event.stable_space_id {
                    Some(id) => id.clone(),
                    None => legacy.to_owned(),
                };
                let deleted_at: u64 = match m.deleted_at {
                    Some(time) => time,
                    None => now,
                };
                self.tombstones =
                add_space_tombstone(&self.tombstones, event.space_id, &stable_id, deleted_at);
            },
            Some(SpaceMetadataOperation::Restore) => {
                self.tombstones = remove_space_tombstones(&self.tombstones, event.space_id);
            },
            _ => {},
        }
        if i < self.spaces.len() {
            let mut space = self.spaces[i].clone();
            space.name = m.name.clone();
            space.metadata_version = m.metadata_version;
            space.archived = m.archived || m.deleted_at.is_some();
            space.deleted_at = m.deleted_at;
            self.spaces = replace_space(&self.spaces, i, space);
        }
        assert(self@ == (ShelfView {
            tombstones: event_tombstones(before, event@, event@.metadata->0, legacy@, now),
            spaces: with_space(
                before.spaces,
                event@.space_id,
                |x: SpaceView| space_after_event(x, event@.metadata->0),
            ),
            ..before
        }));
        if m.deleted_at.is_some() && self.active_space_id == event.space_id {
            self.fall_back();
        }
        true
    }
}

fn knows_space(spaces: &Vec<Space>, event: &SyncEvent) -> (r: bool)
    ensures
        r == is_known(views(spaces@), event@),
{
    match stable_space_id(spaces, event.space_id) {
        Some(stable_id) => match &event.stable_space_id {
            Some(id) => text_eq(id, &stable_id),
            None => true,
        },
        None => false,
    }
}

fn resolves_space(spaces: &Vec<Space>, event: &SyncEvent) -> (r: bool)
    ensures
        r == is_resolved(views(spaces@), event@),
{
    let ghost all = views(spaces@);
    let mut i: usize = 0;
    while i < spaces.len()
        invariant
            i <= spaces@.len(),
            all == views(spaces@),
            forall|j: int|
                0 <= j < i ==> !((#[trigger] all[j]).id == event@.space_id && (
                event@.stable_space_id is None || event@.stable_space_id == Some(
                    all[j].stable_id,
                ))),
        decreases spaces@.len() - i,
    {
        if spaces[i].id == event.space_id {
            let same = match &event.stable_space_id {
                Some(id) => text_eq(id, &spaces[i].stable_id),
                None => true,
            };
            if same {
                assert(all[i as int].id == event@.space_id);
                return true;
            }
        }
        i = i + 1;
    }
    false
}

impl EventRun {
    /// Begins with an event of a run.
    pub fn start(limits: &SyncLimits, event: SyncEvent) -> (r: EventRun)
        ensures
            r@ == (EventRunView {
                limits: *limits,
                event: event@,
                phase: EventPhase::Looking,
                update_bytes: 0,
            }),
    {
        EventRun { limits: *limits, event, phase: EventPhase::Looking, update_bytes: 0 }
    }

    fn let_in(&mut self, shelf: &mut Shelf, legacy: &str, now: u64) -> (r: EventAction)
        ensures
            final(shelf)@ == (if syncs(old(shelf)@.spaces, old(self)@.event.space_id) {
                metadata_taken(old(shelf)@, old(self)@.event, legacy@, now)
            } else {
                old(shelf)@
            }),
            final(self)@ == (EventRunView {
                phase: after_admission(old(shelf)@, old(self)@.event).0,
                ..old(self)@
            }),
            r == after_admission(old(shelf)@, old(self)@.event).1,
    {
        if !space_sync_enabled(&shelf.spaces, self.event.space_id) {
            self.phase = EventPhase::Looking;
            return EventAction::Finish;
        }
        let taken = shelf.take_event_metadata(&self.event, legacy, now);
        if taken && self.event.update_is_empty {
            self.phase = EventPhase::Closing;
            EventAction::StoreWorkspace
        } else {
            self.phase = EventPhase::Updating;
            EventAction::Decode
        }
    }

    /// Looks for the space of the event. `current` says whether the run of the
    /// event still goes on, `legacy` is the identity that the space has where
    /// the event gives none.
    pub fn look(&mut self, current: bool, shelf: &mut Shelf, legacy: &str, now: u64) -> (r:
        EventAction)
        ensures
            ({
                let e = old(self)@.event;
                let s = old(shelf)@;
                if !current || !is_understood(old(self)@.limits, e) {
                    &&& r == EventAction::Finish
                    &&& final(self)@ == old(self)@
                    &&& final(shelf)@ == s
                } else if !is_known(s.spaces, e) {
                    &&& r == EventAction::RefreshManifest
                    &&& final(self)@ == old(self)@
                    &&& final(shelf)@ == s
                } else {
                    &&& r == after_admission(s, e).1
                    &&& final(self)@ == (EventRunView {
                        phase: after_admission(s, e).0,
                        ..old(self)@
                    })
                    &&& final(shelf)@ == (if syncs(s.spaces, e.space_id) {
                        metadata_taken(s, e, legacy@, now)
                    } else {
                        s
                    })
                }
            }),
    {
        if !current || self.event.protocol_version != self.limits.protocol_version
            || self.event.document_schema_version != self.limits.document_schema_version
            || self.event.event_id == 0 {
            return EventAction::Finish;
        }
        if !knows_space(&shelf.spaces, &self.event) {
            return EventAction::RefreshManifest;
        }
        self.let_in(shelf, legacy, now)
    }

    /// The server's list of spaces was asked for. A space that is still not
    /// there may come with it later.
    pub fn manifest_refreshed(&mut self, shelf: &mut Shelf, legacy: &str, now: u64) -> (r:
        EventAction)
        ensures
            ({
                let e = old(self)@.event;
                let s = old(shelf)@;
                if !is_resolved(s.spaces, e) {
                    &&& r == EventAction::PutBack(EVENT_RETRY_WAIT)
                    &&& final(self)@ == old(self)@
                    &&& final(shelf)@ == s
                } else {
                    &&& r == after_admission(s, e).1
                    &&& final(self)@ == (EventRunView {
                        phase: after_admission(s, e).0,
                        ..old(self)@
                    })
                    &&& final(shelf)@ == (if syncs(s.spaces, e.space_id) {
                        metadata_taken(s, e, legacy@, now)
                    } else {
                        s
                    })
                }
            }),
    {
        if !resolves_space(&shelf.spaces, &self.event) {
            return EventAction::PutBack(EVENT_RETRY_WAIT);
        }
        self.let_in(shelf, legacy, now)
    }

    /// The update was decoded into so many bytes, or could not be.
    pub fn decoded(&mut self, size: Option<usize>) -> (r: EventAction)
        ensures
            final(self)@ == (EventRunView {
                phase: after_decoding(old(self)@, size).0,
                update_bytes: match size {
                    Some(n) => n,
                    None => old(self)@.update_bytes,
                },
                ..old(self)@
            }),
            r == after_decoding(old(self)@, size).1,
    {
        match size {
            None => {
                self.phase = EventPhase::Pulling;
                EventAction::Pull(self.event.space_id)
            },
            Some(n) => {
                self.update_bytes = n;
                if n > self.limits.max_update_bytes {
                    EventAction::Finish
                } else {
                    EventAction::Apply(self.event.space_id)
                }
            },
        }
    }

    /// The update was taken into a copy of the document, which now has this
    /// board and a snapshot of so many bytes. It could not be where there is no
    /// document, or where the document lacks what the update builds on. Says
    /// whether the board is now on the desk.
    pub fn applied(
        &mut self,
        result: Option<(&BoardData, usize)>,
        shelf: &mut Shelf,
        now: u64,
    ) -> (r: (bool, EventAction))
        ensures
            ({
                let fits = result matches Some(x) && x.1 <= old(self)@.limits.max_snapshot_bytes;
                &&& final(self)@ == (EventRunView {
                    phase: after_update(old(self)@, fits).0,
                    ..old(self)@
                })
                &&& r.0 == (fits && old(shelf)@.active_space_id == old(self)@.event.space_id)
                &&& r.1 == after_update(old(self)@, fits).1
                &&& final(shelf)@ == (if fits {
                    board_taken(
                        old(shelf)@,
                        old(self)@.event.space_id,
                        (result->Some_0).0@,
                        now,
                    )
                } else {
                    old(shelf)@
                })
            }),
    {
        if let Some(x) = result {
            if x.1 <= self.limits.max_snapshot_bytes {
                let on_desk = shelf.take_board(self.event.space_id, x.0, now);
                self.phase = EventPhase::Storing;
                return (
                    on_desk,
                    EventAction::StoreDocument(self.event.space_id, self.update_bytes > 0),
                );
            }
        }
        self.phase = EventPhase::Pulling;
        (false, EventAction::Pull(self.event.space_id))
    }

    /// The document was stored, or could not be.
    pub fn document_stored(&mut self, stored: bool) -> (r: EventAction)
        ensures
            final(self)@ == (EventRunView {
                phase: after_storing(old(self)@, stored).0,
                ..old(self)@
            }),
            r == after_storing(old(self)@, stored).1,
    {
        if stored {
            self.phase = EventPhase::Closing;
            EventAction::StoreWorkspace
        } else {
            self.phase = EventPhase::Storing;
            EventAction::Pull(self.event.space_id)
        }
    }

    /// The space was pulled, or could not be.
    pub fn pulled(&mut self, pulled: bool) -> (r: EventAction)
        ensures
            final(self)@ == (EventRunView {
                phase: after_pull(old(self)@, pulled).0,
                ..old(self)@
            }),
            r == after_pull(old(self)@, pulled).1,
    {
        if !pulled {
            return EventAction::PutBack(EVENT_RETRY_WAIT);
        }
        if self.phase == EventPhase::Storing {
            self.phase = EventPhase::Closing;
        } else {
            self.phase = EventPhase::Pulled;
        }
        EventAction::StoreWorkspace
    }

    /// The workspace was stored, or could not be.
    pub fn workspace_stored(&self, stored: bool) -> (r: EventAction)
        ensures
            r == after_closing(self@, stored),
    {
        if stored {
            EventAction::MoveCursor(self.event.event_id)
        } else if self.phase == EventPhase::Pulled {
            EventAction::PutBack(0)
        } else {
            EventAction::PutBack(EVENT_RETRY_WAIT)
        }
    }
}

/// Whether the document of an event may be stored: for the principal and the
/// run of the event, and only if it is not too large.
pub fn may_store_event(
    principal: &str,
    current_principal: &str,
    run_is_current: bool,
    snapshot: usize,
    state_vector: usize,
    limits: &SyncLimits,
) -> (r: bool)
    ensures
        r == (principal@ == current_principal@ && run_is_current && snapshot
            <= limits.max_snapshot_bytes && state_vector <= limits.max_state_vector_bytes),
{
    text_eq(principal, current_principal) && run_is_current && snapshot
        <= limits.max_snapshot_bytes && state_vector <= limits.max_state_vector_bytes
}

/// Metadata never goes back: after an event, the version of every space is at
/// least what it was.
pub proof fn metadata_never_goes_back(
    s: ShelfView,
    e: SyncEventView,
    legacy: Seq<char>,
    now: u64,
    k: int,
)
    requires
        0 <= k < s.spaces.len(),
    ensures
        metadata_taken(s, e, legacy, now).spaces.len() == s.spaces.len(),
        metadata_taken(s, e, legacy, now).spaces[k].metadata_version
            >= s.spaces[k].metadata_version,
        metadata_taken(s, e, legacy, now).spaces[k].board == s.spaces[k].board,
{
    crate::workspace::first_space_is_least(s.spaces, |x: SpaceView| x.id == e.space_id);
}

/// The place in the server's sequence moves only once the workspace is stored,
/// and only to the event that was worked on.
pub proof fn cursor_follows_storage(
    r: EventRunView,
    s: ShelfView,
    size: Option<usize>,
    done: bool,
)
    ensures
        !(after_admission(s, r.event).1 is MoveCursor),
        !(after_decoding(r, size).1 is MoveCursor),
        !(after_update(r, done).1 is MoveCursor),
        !(after_storing(r, done).1 is MoveCursor),
        !(after_pull(r, done).1 is MoveCursor),
        after_closing(r, done) is MoveCursor <==> done,
        done ==> after_closing(r, done) == EventAction::MoveCursor(r.event.event_id),
{
}

/// The workspace is stored for the last time only after the update was stored
/// or the space was pulled, or where the event has no update.
pub proof fn updates_are_stored_or_pulled(
    r: EventRunView,
    s: ShelfView,
    size: Option<usize>,
    done: bool,
)
    ensures
        after_admission(s, r.event).1 is StoreWorkspace ==> r.event.update_is_empty,
        !(after_decoding(r, size).1 is StoreWorkspace),
        !(after_update(r, done).1 is StoreWorkspace),
        after_storing(r, done).1 is StoreWorkspace <==> done,
        after_pull(r, done).1 is StoreWorkspace <==> done,
{
}

/// An event is understood where it is numbered and in this client's versions.
pub proof fn events_are_understood_in_one_version(limits: SyncLimits, e: SyncEventView)
    ensures
        is_understood(limits, e) == (e.protocol_version == limits.protocol_version
            && e.document_schema_version == limits.document_schema_version && e.event_id > 0),
{
}

/// An event is of a space that is known by its id and, where the event says one,
/// by its identity.
pub proof fn events_are_of_known_spaces(spaces: Seq<SpaceView>, e: SyncEventView, k: int)
    ensures
        is_first_of(spaces, e.space_id, k) ==> is_known(spaces, e) == (e.stable_space_id is None
            || e.stable_space_id == Some(spaces[k].stable_id)),
        (forall|j: int| 0 <= j < spaces.len() ==> (#[trigger] spaces[j]).id != e.space_id)
            ==> !is_known(spaces, e) && !is_resolved(spaces, e),
        is_known(spaces, e) ==> is_resolved(spaces, e),
{
    spaces_sync_by_their_flag(spaces, e.space_id, k);
    let pred = |s: SpaceView| s.id == e.space_id;
    crate::workspace::first_space_is_least(spaces, pred);
    let i = first_space(spaces, pred);
    if i < spaces.len() {
        assert(pred(spaces[i]));
        assert(spaces[i].id == e.space_id);
    }
}

/// What an event says of a space counts where it is not older than what is known
/// of it. Then it goes into the first space of the id and into no other: a
/// deleted space is archived too, and the board stays.
pub proof fn events_reach_one_space(
    s: ShelfView,
    e: SyncEventView,
    legacy: Seq<char>,
    now: u64,
    k: int,
)
    requires
        0 <= k < s.spaces.len(),
    ensures
        ({
            let r = metadata_taken(s, e, legacy, now);
            &&& e.metadata is None ==> r == s && !brings_metadata(s, e)
            &&& r.spaces.len() == s.spaces.len()
            &&& !is_first_of(s.spaces, e.space_id, k) ==> r.spaces[k] == s.spaces[k]
            &&& is_first_of(s.spaces, e.space_id, k) && e.metadata is Some ==> {
                let m = e.metadata->0;
                let newer = m.metadata_version >= s.spaces[k].metadata_version;
                &&& brings_metadata(s, e) == newer
                &&& !newer ==> r == s
                &&& newer ==> {
                    &&& r.spaces[k].name == m.name
                    &&& r.spaces[k].metadata_version == m.metadata_version
                    &&& r.spaces[k].deleted_at == m.deleted_at
                    &&& m.deleted_at is Some ==> r.spaces[k].archived
                    &&& m.deleted_at is None ==> r.spaces[k].archived == m.archived
                    &&& r.spaces[k].id == s.spaces[k].id
                    &&& r.spaces[k].stable_id == s.spaces[k].stable_id
                    &&& r.spaces[k].sync_enabled == s.spaces[k].sync_enabled
                    &&& r.spaces[k].board == s.spaces[k].board
                    &&& r.spaces[k].created_at == s.spaces[k].created_at
                }
            }
            &&& r.principal == s.principal
        }),
{
    let pred = |x: SpaceView| x.id == e.space_id;
    if is_first_of(s.spaces, e.space_id, k) {
        crate::workspace::first_space_at(s.spaces, pred, k);
    }
    if e.metadata is Some {
        let m = e.metadata->0;
        crate::spaces::changes_touch_one_space(
            s.spaces,
            e.space_id,
            |x: SpaceView| space_after_event(x, m),
            k,
        );
    }
}

/// An event that says a space was deleted leaves a tombstone of it, one that says
/// it was restored takes its tombstones away, and every other tombstone stays.
pub proof fn events_mark_deleted_spaces(
    s: ShelfView,
    e: SyncEventView,
    legacy: Seq<char>,
    now: u64,
    t: TombstoneView,
)
    requires
        brings_metadata(s, e),
    ensures
        ({
            let r = metadata_taken(s, e, legacy, now);
            let operation = e.metadata->0.operation;
            let of_space = t.kind == TombstoneKind::Space && t.id == e.space_id;
            &&& !of_space ==> r.tombstones.contains(t) == s.tombstones.contains(t)
            &&& operation == Some(SpaceMetadataOperation::Delete) ==> has_tombstone(
                r.tombstones,
                TombstoneKind::Space,
                e.space_id,
            ) && (s.tombstones.contains(t) ==> r.tombstones.contains(t))
            &&& operation == Some(SpaceMetadataOperation::Restore) && of_space
                ==> !r.tombstones.contains(t)
            &&& operation != Some(SpaceMetadataOperation::Delete) && operation != Some(
                SpaceMetadataOperation::Restore,
            ) ==> r.tombstones == s.tombstones
        }),
{
    let m = e.metadata->0;
    let operation = match m.operation {
        Some(o) => o,
        None => SpaceMetadataOperation::Rename,
    };
    crate::metadata::tombstones_follow_the_change(
        s.tombstones,
        operation,
        RemoteMetadataView {
            space_id: e.space_id,
            stable_id: match e.stable_space_id {
                Some(id) => id,
                None => legacy,
            },
            name: m.name,
            archived: m.archived,
            metadata_version: m.metadata_version,
            deleted_at: m.deleted_at,
        },
        now,
        t,
    );
}

/// Where an event deletes the space in front, the first open space comes to the
/// front with its board on the desk; in every other case the front stays.
pub proof fn deleted_fronts_give_way(
    s: ShelfView,
    e: SyncEventView,
    legacy: Seq<char>,
    now: u64,
    k: int,
)
    ensures
        ({
            let r = metadata_taken(s, e, legacy, now);
            let gone = brings_metadata(s, e) && e.metadata->0.deleted_at is Some
                && s.active_space_id == e.space_id;
            &&& !gone ==> r.active_space_id == s.active_space_id && r.desk == s.desk
            &&& gone && 0 <= k < r.spaces.len() && is_open(r.spaces[k]) && (forall|j: int|
                0 <= j < k ==> !is_open(#[trigger] r.spaces[j])) ==> r.active_space_id
                == r.spaces[k].id && r.desk.notes == r.spaces[k].board.notes && r.desk.groups
                == r.spaces[k].board.groups
        }),
{
    if brings_metadata(s, e) {
        let m = e.metadata->0;
        let next = with_space(s.spaces, e.space_id, |x: SpaceView| space_after_event(x, m));
        let pred = |x: SpaceView| is_open(x);
        assert(metadata_taken(s, e, legacy, now).spaces == next);
        if 0 <= k < next.len() && is_open(next[k]) && (forall|j: int|
            0 <= j < k ==> !is_open(#[trigger] next[j])) {
            assert forall|j: int| 0 <= j < k implies !pred(#[trigger] next[j]) by {}
            crate::workspace::first_space_at(next, pred, k);
        }
    }
}

/// The way of an event: one of a space that does not sync is over at once; one
/// without an update has only its metadata stored; an update that cannot be
/// decoded or does not fit is replaced by a pull, one that is too large is
/// dropped; what fits is stored for its own space and then handed on.
pub proof fn events_go_their_way(r: EventRunView, s: ShelfView, size: usize, fits: bool)
    ensures
        !syncs(s.spaces, r.event.space_id) ==> after_admission(s, r.event).1
            == EventAction::Finish,
        syncs(s.spaces, r.event.space_id) ==> after_admission(s, r.event).1 == (
        if brings_metadata(s, r.event) && r.event.update_is_empty {
            EventAction::StoreWorkspace
        } else {
            EventAction::Decode
        }),
        after_decoding(r, None).1 == EventAction::Pull(r.event.space_id),
        size <= r.limits.max_update_bytes ==> after_decoding(r, Some(size)).1 == EventAction::Apply(
            r.event.space_id,
        ),
        size > r.limits.max_update_bytes ==> after_decoding(r, Some(size)).1 == EventAction::Finish,
        after_update(r, true).1 == EventAction::StoreDocument(
            r.event.space_id,
            r.update_bytes > 0,
        ),
        after_update(r, false).1 == EventAction::Pull(r.event.space_id),
        after_storing(r, false).1 == EventAction::Pull(r.event.space_id),
{
}

/// An event that could not be finished is put back and not lost, after a pause
/// unless only the workspace was left to store after a pull.
pub proof fn unfinished_events_are_put_back(r: EventRunView)
    ensures
        after_pull(r, false).1 is PutBack,
        after_closing(r, false) is PutBack,
        after_closing(EventRunView { phase: after_pull(r, true).0, ..r }, false)
            == EventAction::PutBack(
            if r.phase == EventPhase::Storing {
                EVENT_RETRY_WAIT
            } else {
                0
            },
        ),
{
}

} // verus!
