//! Boards and documents that arrive from elsewhere: from the server, from
//! another tab, or from what this device has stored.
use vstd::prelude::*;

use crate::desk::DeskView;
use crate::lists::filter_ends;
use crate::lists::filter_keeps;
use crate::lists::filter_member;
use crate::lists::filter_step;
use crate::lists::opt_view;
use crate::lists::views;
use crate::lists::views_push;
use crate::metadata::ManifestView;
use crate::metadata::SpaceManifestEntry;
use crate::model::clone_groups;
use crate::model::clone_notes;
use crate::model::BoardData;
use crate::model::BoardView;
use crate::model::Space;
use crate::model::SpaceView;
use crate::model::WorkspaceData;
use crate::persist::workspace_of;
use crate::persist::workspace_snapshot;
use crate::spaces::with_space;
use crate::spaces::Shelf;
use crate::spaces::ShelfView;
use crate::workspace::first_space;
use crate::workspace::first_space_at;
use crate::workspace::first_space_is_least;
use crate::workspace::is_first_of;
use crate::workspace::normalize_workspace;
use crate::workspace::normalized_workspace;
use crate::workspace::position_of_space;
use crate::workspace::replace_space;
use crate::workspace::Surroundings;

verus! {

/// The desk with another board on it. What can be undone and what is being
/// edited stays.
pub open spec fn desk_showing(d: DeskView, board: BoardView) -> DeskView {
    DeskView { notes: board.notes, groups: board.groups, ..d }
}

/// The shelf after the board of a space arrived: it replaces the board of the
/// space, and is on the desk where the space is in front.
pub open spec fn board_taken(s: ShelfView, id: u64, board: BoardView, now: u64) -> ShelfView {
    ShelfView {
        spaces: with_space(
            s.spaces,
            id,
            |x: SpaceView| SpaceView { board, updated_at: now, ..x },
        ),
        desk: if s.active_space_id == id {
            desk_showing(s.desk, board)
        } else {
            s.desk
        },
        ..s
    }
}

/// The board of a space, where it is there.
pub open spec fn board_of(spaces: Seq<SpaceView>, id: u64) -> Option<BoardView> {
    let i = first_space(spaces, |s: SpaceView| s.id == id);
    if i < spaces.len() {
        Some(spaces[i].board)
    } else {
        None
    }
}

/// The board of a space, where it is there.
pub fn space_board(spaces: &Vec<Space>, id: u64) -> (r: Option<BoardData>)
    ensures
        opt_view(r) == board_of(views(spaces@), id),
{
    let i = position_of_space(spaces, id);
    if i < spaces.len() {
        Some(spaces[i].board.clone())
    } else {
        None
    }
}

impl Shelf {
    /// Takes in the board of a space. Says whether it is now on the desk.
    pub fn take_board(&mut self, id: u64, board: &BoardData, now: u64) -> (r: bool)
        ensures
            final(self)@ == board_taken(old(self)@, id, board@, now),
            r == (old(self)@.active_space_id == id),
    {
        let ghost before = self@;
        let i = position_of_space(&self.spaces, id);
        if i < self.spaces.len() {
            let mut space = self.spaces[i].clone();
            space.board = board.clone();
            space.updated_at = now;
            self.spaces = replace_space(&self.spaces, i, space);
        }
        if self.active_space_id == id {
            self.desk.notes = clone_notes(&board.notes);
            self.desk.groups = clone_groups(&board.groups);
            assert(self@.desk == desk_showing(before.desk, board@));
            true
        } else {
            false
        }
    }

    /// The workspace that has to be stored before an event counts as seen;
    /// none where nothing may be written.
    pub fn workspace_to_persist(&self, env: &Surroundings, blocked: bool) -> (r: Option<
        WorkspaceData,
    >)
        ensures
            opt_view(r) == (if blocked {
                None
            } else {
                Some(
                    normalized_workspace(
                        env@,
                        workspace_of(
                            env@,
                            self@.spaces,
                            self@.active_space_id,
                            self@.tombstones,
                        ),
                    ),
                )
            }),
    {
        if blocked {
            return None;
        }
        let workspace = workspace_snapshot(
            env,
            &self.spaces,
            self.active_space_id,
            &self.tombstones,
        );
        Some(normalize_workspace(env, workspace))
    }
}

/// A board that arrives for one space leaves every other space as it was, and
/// the desk too unless that space is in front.
pub proof fn arrivals_touch_one_space(
    s: ShelfView,
    id: u64,
    board: BoardView,
    now: u64,
    other: int,
)
    requires
        0 <= other < s.spaces.len(),
        s.spaces[other].id != id,
    ensures
        board_taken(s, id, board, now).spaces.len() == s.spaces.len(),
        board_taken(s, id, board, now).spaces[other] == s.spaces[other],
        board_taken(s, id, board, now).active_space_id == s.active_space_id,
        board_taken(s, id, board, now).tombstones == s.tombstones,
        s.active_space_id != id ==> board_taken(s, id, board, now).desk == s.desk,
{
    crate::workspace::first_space_is_least(s.spaces, |x: SpaceView| x.id == id);
}

/// A board that arrived is the one that the space has.
pub proof fn arrived_boards_are_kept(s: ShelfView, id: u64, board: BoardView, now: u64)
    requires
        board_of(s.spaces, id) is Some,
    ensures
        board_of(board_taken(s, id, board, now).spaces, id) == Some(board),
{
    let pred = |x: SpaceView| x.id == id;
    let i = first_space(s.spaces, pred);
    crate::workspace::first_space_is_least(s.spaces, pred);
    let after = board_taken(s, id, board, now).spaces;
    assert forall|j: int| 0 <= j < i implies !pred(#[trigger] after[j]) by {
        assert(after[j] == s.spaces[j]);
    }
    crate::workspace::first_space_at(after, pred, i);
}

/// What was found where the document of a space is stored.
#[derive(Clone, Copy, Debug, PartialEq, Eq, Structural)]
pub enum StoredDocument {
    /// The store could not be read.
    Unreadable,
    /// Something is stored that is no document, or one that is too large.
    Broken,
    /// Nothing is stored.
    Missing,
    /// A document of so many bytes.
    Bytes(usize),
}

/// Classifies what was read: whether there is a text, and how many bytes it
/// stands for where it can be decoded.
pub fn decode_indexed_crdt_value(has_text: bool, decoded: Option<usize>, max: usize) -> (r:
    StoredDocument)
    ensures
        r == (if !has_text {
            StoredDocument::Missing
        } else {
            match decoded {
                Some(n) => if n <= max {
                    StoredDocument::Bytes(n)
                } else {
                    StoredDocument::Broken
                },
                None => StoredDocument::Broken,
            }
        }),
{
    if !has_text {
        return StoredDocument::Missing;
    }
    match decoded {
        Some(n) => {
            if n <= max {
                StoredDocument::Bytes(n)
            } else {
                StoredDocument::Broken
            }
        },
        None => StoredDocument::Broken,
    }
}

/// Whether the updates that were stored beside a document can be used: all of
/// them could be decoded and none is too large.
pub fn pending_updates_fit(decoded: &Vec<Option<usize>>, max: usize) -> (r: bool)
    ensures
        r == (forall|i: int|
            0 <= i < decoded@.len() ==> ((#[trigger] decoded@[i]) matches Some(n) && n <= max)),
{
    let mut i: usize = 0;
    while i < decoded.len()
        invariant
            i <= decoded@.len(),
            forall|j: int|
                0 <= j < i ==> ((#[trigger] decoded@[j]) matches Some(n) && n <= max),
        decreases decoded@.len() - i,
    {
        match decoded[i] {
            Some(n) => {
                if n > max {
                    assert(!(decoded@[i as int] matches Some(n) && n <= max));
                    return false;
                }
            },
            None => {
                assert(!(decoded@[i as int] matches Some(n) && n <= max));
                return false;
            },
        }
        i = i + 1;
    }
    true
}

/// Where a document comes from.
#[derive(Clone, Copy, Debug, PartialEq, Eq, Structural)]
pub enum DocumentSource {
    /// The document in memory, as it is.
    Existing,
    /// The document in memory, with the stored one taken into it.
    ExistingWithStored,
    /// The stored document.
    Stored,
    /// A new document made from the board of the space.
    Board,
}

/// Where a document comes from.
pub open spec fn source_of(existing: bool, stored: bool) -> DocumentSource {
    match (existing, stored) {
        (true, false) => DocumentSource::Existing,
        (true, true) => DocumentSource::ExistingWithStored,
        (false, true) => DocumentSource::Stored,
        (false, false) => DocumentSource::Board,
    }
}

/// The steps of loading a document.
#[derive(Clone, Copy, Debug, PartialEq, Eq, Structural)]
pub enum DocumentStep {
    /// Read what is stored.
    Read,
    /// Make the document.
    Open(DocumentSource),
    /// Read the updates that are stored beside it.
    ReadPending,
    /// Take these updates into it.
    Replay,
    /// The document is there.
    Ready,
    /// There is none.
    Stop,
    /// There is none, and what is stored needs repair.
    Repair,
}

/// Loading the document of a space. A strict load asks for repair where
/// something stored cannot be used; one that is not strict goes on without a
/// store that cannot be read.
#[derive(Clone, Copy, Debug, PartialEq, Eq, Structural)]
pub struct DocumentLoad {
    pub strict: bool,
}

/// How a load fails.
pub open spec fn load_failure(l: DocumentLoad) -> DocumentStep {
    if l.strict {
        DocumentStep::Repair
    } else {
        DocumentStep::Stop
    }
}

/// The step after the store was read.
pub open spec fn after_read(
    l: DocumentLoad,
    stored: StoredDocument,
    existing: bool,
    current: bool,
) -> DocumentStep {
    if stored is Broken || (stored is Unreadable && l.strict) {
        load_failure(l)
    } else if !current {
        DocumentStep::Stop
    } else {
        DocumentStep::Open(source_of(existing, stored is Bytes))
    }
}

/// The step after the document was made, or could not be.
pub open spec fn after_open(l: DocumentLoad, opened: bool) -> DocumentStep {
    if opened {
        DocumentStep::ReadPending
    } else {
        load_failure(l)
    }
}

/// The step after the stored updates were read, or could not be.
pub open spec fn after_pending(l: DocumentLoad, readable: bool, current: bool) -> DocumentStep {
    if !readable {
        load_failure(l)
    } else if !current {
        DocumentStep::Stop
    } else {
        DocumentStep::Replay
    }
}

/// The step after the stored updates were taken in, or could not be.
pub open spec fn after_replay(l: DocumentLoad, replayed: bool) -> DocumentStep {
    if replayed {
        DocumentStep::Ready
    } else {
        load_failure(l)
    }
}

impl DocumentLoad {
    fn failure(&self) -> (r: DocumentStep)
        ensures
            r == load_failure(*self),
    {
        if self.strict {
            DocumentStep::Repair
        } else {
            DocumentStep::Stop
        }
    }

    /// Begins, where the run still goes on.
    pub fn start(&self, current: bool) -> (r: DocumentStep)
        ensures
            r == (if current {
                DocumentStep::Read
            } else {
                DocumentStep::Stop
            }),
    {
        if current {
            DocumentStep::Read
        } else {
            DocumentStep::Stop
        }
    }

    /// The store was read. `existing` says whether the document is in memory,
    /// `current` whether the run still goes on.
    pub fn read(&self, stored: StoredDocument, existing: bool, current: bool) -> (r: DocumentStep)
        ensures
            r == after_read(*self, stored, existing, current),
    {
        let found = match stored {
            StoredDocument::Unreadable => {
                if self.strict {
                    return self.failure();
                }
                false
            },
            StoredDocument::Broken => return self.failure(),
            StoredDocument::Missing => false,
            StoredDocument::Bytes(_) => true,
        };
        if !current {
            return DocumentStep::Stop;
        }
        DocumentStep::Open(
            match (existing, found) {
                (true, false) => DocumentSource::Existing,
                (true, true) => DocumentSource::ExistingWithStored,
                (false, true) => DocumentSource::Stored,
                (false, false) => DocumentSource::Board,
            },
        )
    }

    /// The document was made, or could not be.
    pub fn opened(&self, opened: bool) -> (r: DocumentStep)
        ensures
            r == after_open(*self, opened),
    {
        if opened {
            DocumentStep::ReadPending
        } else {
            self.failure()
        }
    }

    /// The stored updates were read, or could not be.
    pub fn pending(&self, readable: bool, current: bool) -> (r: DocumentStep)
        ensures
            r == after_pending(*self, readable, current),
    {
        if !readable {
            self.failure()
        } else if !current {
            DocumentStep::Stop
        } else {
            DocumentStep::Replay
        }
    }

    /// The stored updates were taken in, or could not be.
    pub fn replayed(&self, replayed: bool) -> (r: DocumentStep)
        ensures
            r == after_replay(*self, replayed),
    {
        if replayed {
            DocumentStep::Ready
        } else {
            self.failure()
        }
    }
}

/// A document that is ready was made from what is stored, where something
/// usable is stored; a new one is made from the board only where nothing is.
pub proof fn stored_documents_are_used(
    l: DocumentLoad,
    stored: StoredDocument,
    existing: bool,
    current: bool,
)
    requires
        after_read(l, stored, existing, current) is Open,
    ensures
        after_read(l, stored, existing, current) == DocumentStep::Open(DocumentSource::Board)
            <==> !existing && !(stored is Bytes),
        l.strict && after_read(l, stored, existing, current) == DocumentStep::Open(
            DocumentSource::Board,
        ) ==> stored is Missing,
{
}

/// A request that renews the session once.
#[derive(Clone, Copy, Debug, PartialEq, Eq, Structural)]
pub struct SessionRequest {
    pub refreshed: bool,
}

/// What follows an answer.
#[derive(Clone, Copy, Debug, PartialEq, Eq, Structural)]
pub enum RequestStep {
    /// Send the request.
    Send,
    /// Renew the session.
    Refresh,
    /// The server has answered with this status.
    Settled(u16),
    /// There is no answer.
    Failed,
}

impl SessionRequest {
    /// The request is still to be sent.
    pub fn new() -> (r: Self)
        ensures
            r == (SessionRequest { refreshed: false }),
    {
        SessionRequest { refreshed: false }
    }

    /// An answer came, or none: a session that ran out is renewed, once.
    pub fn replied(&self, status: Option<u16>) -> (r: RequestStep)
        ensures
            r == (match status {
                None => RequestStep::Failed,
                Some(n) => if n == 401 && !self.refreshed {
                    RequestStep::Refresh
                } else {
                    RequestStep::Settled(n)
                },
            }),
    {
        match status {
            None => RequestStep::Failed,
            Some(n) => {
                if n == 401 && !self.refreshed {
                    RequestStep::Refresh
                } else {
                    RequestStep::Settled(n)
                }
            },
        }
    }

    /// The session was renewed, or could not be.
    pub fn renewed(&mut self, renewed: bool) -> (r: RequestStep)
        ensures
            *final(self) == (SessionRequest { refreshed: old(self).refreshed || renewed }),
            r == (if renewed {
                RequestStep::Send
            } else {
                RequestStep::Settled(401)
            }),
    {
        if renewed {
            self.refreshed = true;
            RequestStep::Send
        } else {
            RequestStep::Settled(401)
        }
    }
}

/// Whether a status means that a space is registered.
pub fn is_registered(status: u16) -> (r: bool)
    ensures
        r == (200 <= status < 300),
{
    200 <= status && status < 300
}

/// Whether the list of the server's spaces may be read from an answer: it was
/// given, and to the principal that asked.
pub fn manifest_is_readable(status: u16, same_principal: bool) -> (r: bool)
    ensures
        r == (status < 300 && same_principal),
{
    status < 300 && same_principal
}

/// The server's entry for a space, where it has one.
pub open spec fn entry_of(entries: Seq<ManifestView>, id: u64) -> Option<ManifestView>
    decreases entries.len(),
{
    if entries.len() == 0 {
        None
    } else if entries[0].id == id {
        Some(entries[0])
    } else {
        entry_of(entries.skip(1), id)
    }
}

/// The position of the server's entry for a space; the length of the list
/// where it has none.
pub fn remote_space_position(entries: &Vec<SpaceManifestEntry>, id: u64) -> (r: usize)
    ensures
        r <= entries@.len(),
        entry_of(views(entries@), id) == (if r < entries@.len() {
            Some(entries@[r as int]@)
        } else {
            None
        }),
{
    let ghost all = views(entries@);
    let mut i: usize = 0;
    assert(all.skip(0) =~= all);
    while i < entries.len() && entries[i].id != id
        invariant
            i <= entries@.len(),
            all == views(entries@),
            entry_of(all, id) == entry_of(all.skip(i as int), id),
        decreases entries@.len() - i,
    {
        proof {
            assert(all.skip(i as int).skip(1) =~= all.skip(i + 1));
        }
        i = i + 1;
    }
    if i < entries.len() {
        assert(all.skip(i as int)[0] == entries@[i as int]@);
    }
    i
}

/// Whether a space is registered with the server: it is there and syncs.
pub open spec fn registers(s: SpaceView) -> bool {
    s.deleted_at is None && s.sync_enabled
}

/// The spaces to register with the server.
pub fn spaces_to_register(spaces: &Vec<Space>) -> (r: Vec<Space>)
    ensures
        views(r@) == views(spaces@).filter(|s: SpaceView| registers(s)),
{
    broadcast use views_push;

    let ghost all = views(spaces@);
    let ghost pred = |s: SpaceView| registers(s);
    let mut out: Vec<Space> = Vec::new();
    proof {
        filter_ends(all, pred);
    }
    assert(views(out@) =~= all.take(0).filter(pred));
    let mut i: usize = 0;
    while i < spaces.len()
        invariant
            all == views(spaces@),
            pred == (|s: SpaceView| registers(s)),
            i <= spaces@.len(),
            views(out@) == all.take(i as int).filter(pred),
        decreases spaces@.len() - i,
    {
        proof {
            filter_step(all, pred, i as int);
        }
        if spaces[i].deleted_at.is_none() && spaces[i].sync_enabled {
            out.push(spaces[i].clone());
        }
        i = i + 1;
    }
    out
}

/// The spaces that are pulled besides the one in front.
pub open spec fn pulled_beside(s: SpaceView, active: u64) -> bool {
    registers(s) && s.id != active
}

/// The ids of the spaces that are pulled besides the one in front, in order.
pub fn ids_to_pull(spaces: &Vec<Space>, active: u64) -> (r: Vec<u64>)
    ensures
        r@ == views(spaces@).filter(|s: SpaceView| pulled_beside(s, active)).map_values(
            |s: SpaceView| s.id,
        ),
{
    let ghost all = views(spaces@);
    let ghost pred = |s: SpaceView| pulled_beside(s, active);
    let ghost id_of = |s: SpaceView| s.id;
    let mut out: Vec<u64> = Vec::new();
    proof {
        filter_ends(all, pred);
    }
    assert(out@ =~= all.take(0).filter(pred).map_values(id_of));
    let mut i: usize = 0;
    while i < spaces.len()
        invariant
            all == views(spaces@),
            pred == (|s: SpaceView| pulled_beside(s, active)),
            id_of == (|s: SpaceView| s.id),
            i <= spaces@.len(),
            out@ == all.take(i as int).filter(pred).map_values(id_of),
        decreases spaces@.len() - i,
    {
        proof {
            filter_step(all, pred, i as int);
        }
        if spaces[i].deleted_at.is_none() && spaces[i].sync_enabled && spaces[i].id != active {
            out.push(spaces[i].id);
        }
        proof {
            assert(out@ =~= all.take(i + 1).filter(pred).map_values(id_of));
        }
        i = i + 1;
    }
    out
}

/// The board of a space is that of the first space of its id.
pub proof fn boards_are_found_by_space(spaces: Seq<SpaceView>, id: u64, k: int)
    ensures
        is_first_of(spaces, id, k) ==> board_of(spaces, id) == Some(spaces[k].board),
        (forall|j: int| 0 <= j < spaces.len() ==> (#[trigger] spaces[j]).id != id) ==> board_of(
            spaces,
            id,
        ) is None,
{
    let pred = |s: SpaceView| s.id == id;
    first_space_is_least(spaces, pred);
    if is_first_of(spaces, id, k) {
        first_space_at(spaces, pred, k);
    } else {
        let i = first_space(spaces, pred);
        if i < spaces.len() {
            assert(pred(spaces[i]));
        }
    }
}

/// A board that arrives goes into the first space of its id, and onto the desk
/// where that space is in front; what is selected and what can be undone stay.
pub proof fn arrived_boards_are_shown(s: ShelfView, id: u64, board: BoardView, now: u64, k: int)
    requires
        0 <= k < s.spaces.len(),
    ensures
        ({
            let r = board_taken(s, id, board, now);
            &&& is_first_of(s.spaces, id, k) ==> r.spaces[k] == (SpaceView {
                board,
                updated_at: now,
                ..s.spaces[k]
            })
            &&& !is_first_of(s.spaces, id, k) ==> r.spaces[k] == s.spaces[k]
            &&& s.active_space_id == id ==> r.desk == (DeskView {
                notes: board.notes,
                groups: board.groups,
                ..s.desk
            })
            &&& s.active_space_id != id ==> r.desk == s.desk
            &&& r.principal == s.principal
            &&& r.message == s.message
        }),
{
    crate::spaces::changes_touch_one_space(
        s.spaces,
        id,
        |x: SpaceView| SpaceView { board, updated_at: now, ..x },
        k,
    );
}

/// A document is made from all that is there: what is in memory, what is stored,
/// and only without both from the board. What cannot be read ends the loading.
pub proof fn documents_are_made_from_what_is_there(
    l: DocumentLoad,
    stored: StoredDocument,
    existing: bool,
    current: bool,
)
    ensures
        stored is Broken ==> !(after_read(l, stored, existing, current) is Open),
        stored is Unreadable && l.strict ==> after_read(l, stored, existing, current)
            == DocumentStep::Repair,
        stored is Broken ==> after_read(l, stored, existing, current) == (if l.strict {
            DocumentStep::Repair
        } else {
            DocumentStep::Stop
        }),
        !(stored is Broken) && !(stored is Unreadable && l.strict) && !current ==> after_read(
            l,
            stored,
            existing,
            current,
        ) == DocumentStep::Stop,
        !(stored is Broken) && !(stored is Unreadable && l.strict) && current ==> {
            let step = after_read(l, stored, existing, current);
            &&& stored is Bytes && existing ==> step == DocumentStep::Open(
                DocumentSource::ExistingWithStored,
            )
            &&& stored is Bytes && !existing ==> step == DocumentStep::Open(DocumentSource::Stored)
            &&& !(stored is Bytes) && existing ==> step == DocumentStep::Open(
                DocumentSource::Existing,
            )
            &&& !(stored is Bytes) && !existing ==> step == DocumentStep::Open(
                DocumentSource::Board,
            )
        },
{
}

/// A document is ready only after it was made and every update beside it was
/// taken in; a step that fails asks for repair where the loading is strict.
pub proof fn documents_are_ready_when_replayed(l: DocumentLoad, done: bool, current: bool)
    ensures
        after_open(l, true) == DocumentStep::ReadPending,
        after_pending(l, true, true) == DocumentStep::Replay,
        after_pending(l, true, false) == DocumentStep::Stop,
        after_replay(l, true) == DocumentStep::Ready,
        l.strict ==> after_open(l, false) == DocumentStep::Repair && after_replay(l, false)
            == DocumentStep::Repair && after_pending(l, false, current) == DocumentStep::Repair,
        !l.strict ==> after_open(l, false) == DocumentStep::Stop && after_replay(l, false)
            == DocumentStep::Stop && after_pending(l, false, current) == DocumentStep::Stop,
{
}

/// An entry of the server's list is the first one of its id.
pub proof fn entries_are_found_by_id(entries: Seq<ManifestView>, id: u64, k: int)
    ensures
        (forall|j: int| 0 <= j < entries.len() ==> (#[trigger] entries[j]).id != id) ==> entry_of(
            entries,
            id,
        ) is None,
        0 <= k < entries.len() && entries[k].id == id && (forall|j: int|
            0 <= j < k ==> (#[trigger] entries[j]).id != id) ==> entry_of(entries, id) == Some(
            entries[k],
        ),
    decreases entries.len(),
{
    if entries.len() > 0 && entries[0].id != id {
        let rest = entries.skip(1);
        entries_are_found_by_id(rest, id, k - 1);
        if forall|j: int| 0 <= j < entries.len() ==> (#[trigger] entries[j]).id != id {
            assert forall|j: int| 0 <= j < rest.len() implies (#[trigger] rest[j]).id != id by {
                assert(rest[j] == entries[j + 1]);
            }
        }
        if 0 <= k < entries.len() && entries[k].id == id && (forall|j: int|
            0 <= j < k ==> (#[trigger] entries[j]).id != id) {
            assert forall|j: int| 0 <= j < k - 1 implies (#[trigger] rest[j]).id != id by {
                assert(rest[j] == entries[j + 1]);
            }
            assert(rest[k - 1] == entries[k]);
        }
    }
}

/// The server gets to know every space that syncs and is not deleted, and no
/// other; of these, all but the one in front are pulled beside it.
pub proof fn syncing_spaces_are_registered(spaces: Seq<SpaceView>, active: u64, s: SpaceView)
    ensures
        spaces.filter(|x: SpaceView| registers(x)).contains(s) == (spaces.contains(s)
            && s.sync_enabled && s.deleted_at is None),
        spaces.filter(|x: SpaceView| pulled_beside(x, active)).contains(s) == (spaces.contains(s)
            && s.sync_enabled && s.deleted_at is None && s.id != active),
{
    let known = |x: SpaceView| registers(x);
    let beside = |x: SpaceView| pulled_beside(x, active);
    if spaces.filter(known).contains(s) {
        filter_member(spaces, known, spaces.filter(known).index_of(s));
    }
    if spaces.filter(beside).contains(s) {
        filter_member(spaces, beside, spaces.filter(beside).index_of(s));
    }
    if spaces.contains(s) && known(s) {
        filter_keeps(spaces, known, spaces.index_of(s));
    }
    if spaces.contains(s) && beside(s) {
        filter_keeps(spaces, beside, spaces.index_of(s));
    }
}

} // verus!
