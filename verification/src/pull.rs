//! Fetching the document of a space from the server.
//!
//! A pull belongs to one principal and one run: whenever either has changed,
//! it ends and nothing on the shelf changes.
use vstd::prelude::*;
use vstd::string::*;

use crate::arrivals::after_open;
use crate::arrivals::after_pending;
use crate::arrivals::after_read;
use crate::arrivals::board_taken;
use crate::arrivals::DocumentLoad;
use crate::arrivals::DocumentStep;
use crate::arrivals::StoredDocument;
use crate::desk::DeskView;
use crate::drain::identity_of;
use crate::drain::space_sync_enabled;
use crate::drain::stable_space_id;
use crate::drain::syncs;
use crate::identity::guest_principal_text;
use crate::identity::is_guest_principal;
use crate::ledger::AcknowledgedStates;
use crate::lists::opt_view;
use crate::lists::views;
use crate::model::clone_groups;
use crate::model::clone_notes;
use crate::model::BoardData;
use crate::model::BoardView;
use crate::model::Space;
use crate::model::SpaceView;
use crate::model::WorkspaceData;
use crate::persist::workspace_snapshot;
use crate::reconcile::SyncLimits;
use crate::spaces::with_space;
use crate::spaces::Shelf;
use crate::spaces::ShelfView;
use crate::storage::read_stored_number;
use crate::storage::stored_number;
use crate::tabs::shelf_workspace;
use crate::text::clone_opt;
use crate::text::has_prefix;
use crate::text::opt_text_eq;
use crate::text::starts_with;
use crate::workspace::is_first_of;
use crate::workspace::position_of_space;
use crate::workspace::replace_space;
use crate::workspace::Surroundings;

verus! {

/// What holds at the moment of a step: who is signed in, and whether the run
/// in which the pull was begun still goes on.
#[derive(Debug, PartialEq)]
pub struct PullContext {
    pub principal: String,
    pub run_is_current: bool,
}

/// What holds at the moment of a step, its text as characters.
pub struct PullContextView {
    pub principal: Seq<char>,
    pub run_is_current: bool,
}

impl View for PullContext {
    type V = PullContextView;

    open spec fn view(&self) -> PullContextView {
        PullContextView { principal: self.principal@, run_is_current: self.run_is_current }
    }
}

/// A request for the document of a space. Its state vector is that of the
/// document.
#[derive(Debug, PartialEq)]
pub struct PullRequest {
    pub protocol_version: u32,
    pub document_schema_version: u32,
    pub space_id: u64,
    pub stable_space_id: Option<String>,
    pub last_server_sequence: u64,
    pub local_generation: u64,
}

/// A request, its text as characters.
pub struct PullRequestView {
    pub protocol_version: u32,
    pub document_schema_version: u32,
    pub space_id: u64,
    pub stable_space_id: Option<Seq<char>>,
    pub last_server_sequence: u64,
    pub local_generation: u64,
}

impl View for PullRequest {
    type V = PullRequestView;

    open spec fn view(&self) -> PullRequestView {
        PullRequestView {
            protocol_version: self.protocol_version,
            document_schema_version: self.document_schema_version,
            space_id: self.space_id,
            stable_space_id: opt_view(self.stable_space_id),
            last_server_sequence: self.last_server_sequence,
            local_generation: self.local_generation,
        }
    }
}

/// The body of the answer, without the encoded documents.
#[derive(Debug, PartialEq)]
pub struct PullReply {
    pub protocol_version: u32,
    pub document_schema_version: u32,
    pub space_id: u64,
    pub stable_space_id: Option<String>,
    pub has_more: bool,
}

/// The body of the answer, its text as characters.
pub struct PullReplyView {
    pub protocol_version: u32,
    pub document_schema_version: u32,
    pub space_id: u64,
    pub stable_space_id: Option<Seq<char>>,
    pub has_more: bool,
}

impl View for PullReply {
    type V = PullReplyView;

    open spec fn view(&self) -> PullReplyView {
        PullReplyView {
            protocol_version: self.protocol_version,
            document_schema_version: self.document_schema_version,
            space_id: self.space_id,
            stable_space_id: opt_view(self.stable_space_id),
            has_more: self.has_more,
        }
    }
}

/// What has to be done next.
#[derive(Debug, PartialEq)]
pub enum PullAction {
    /// Reserve the network for the space.
    Reserve,
    /// Read the server's state that was last acknowledged.
    LoadAcknowledged,
    /// A step of loading the document.
    Document(DocumentStep),
    /// Send the request.
    Send(PullRequest),
    /// Renew the session.
    Refresh,
    /// Read the body of the answer.
    ReadBody,
    /// Decode the documents of the answer.
    Decode,
    /// Take the update into a copy of the document.
    Apply,
    /// Hand the update on to the other tabs, where it is said, and store the new
    /// document and the server's state in one step, up to the local change of
    /// this number.
    Commit(u64, bool),
    /// The pull is over. Says whether it has succeeded.
    Finish(bool),
}

/// What has to be done next, as a view.
pub enum PullActionView {
    Reserve,
    LoadAcknowledged,
    Document(DocumentStep),
    Send(PullRequestView),
    Refresh,
    ReadBody,
    Decode,
    Apply,
    Commit(u64, bool),
    Finish(bool),
}

impl View for PullAction {
    type V = PullActionView;

    open spec fn view(&self) -> PullActionView {
        match self {
            PullAction::Reserve => PullActionView::Reserve,
            PullAction::LoadAcknowledged => PullActionView::LoadAcknowledged,
            PullAction::Document(step) => PullActionView::Document(*step),
            PullAction::Send(r) => PullActionView::Send(r@),
            PullAction::Refresh => PullActionView::Refresh,
            PullAction::ReadBody => PullActionView::ReadBody,
            PullAction::Decode => PullActionView::Decode,
            PullAction::Apply => PullActionView::Apply,
            PullAction::Commit(n, announce) => PullActionView::Commit(*n, *announce),
            PullAction::Finish(ok) => PullActionView::Finish(*ok),
        }
    }
}

/// The state of a pull.
#[derive(Debug, PartialEq)]
pub struct SpacePull {
    pub limits: SyncLimits,
    pub principal: String,
    pub space_id: u64,
    pub stable_id: Option<String>,
    pub last_server_sequence: u64,
    pub local_generation: u64,
    pub refreshed: bool,
    /// How many bytes the update of the answer has, once it was decoded.
    pub update_bytes: usize,
}

/// The state of a pull, its texts as characters.
pub struct SpacePullView {
    pub limits: SyncLimits,
    pub principal: Seq<char>,
    pub space_id: u64,
    pub stable_id: Option<Seq<char>>,
    pub last_server_sequence: u64,
    pub local_generation: u64,
    pub refreshed: bool,
    pub update_bytes: usize,
}

impl View for SpacePull {
    type V = SpacePullView;

    open spec fn view(&self) -> SpacePullView {
        SpacePullView {
            limits: self.limits,
            principal: self.principal@,
            space_id: self.space_id,
            stable_id: opt_view(self.stable_id),
            last_server_sequence: self.last_server_sequence,
            local_generation: self.local_generation,
            refreshed: self.refreshed,
            update_bytes: self.update_bytes,
        }
    }
}

/// The pull is over without success.
pub open spec fn failed() -> PullActionView {
    PullActionView::Finish(false)
}

/// Whether a pull may go on.
pub open spec fn goes_on(p: SpacePullView, c: PullContextView) -> bool {
    p.principal == c.principal && c.run_is_current
}

/// The next action, where the pull may go on.
pub open spec fn if_current(
    p: SpacePullView,
    c: PullContextView,
    action: PullActionView,
) -> PullActionView {
    if goes_on(p, c) {
        action
    } else {
        failed()
    }
}

/// A step of loading the document, as an action: without a document the pull
/// is over.
pub open spec fn document_action(step: DocumentStep) -> PullActionView {
    match step {
        DocumentStep::Stop => failed(),
        DocumentStep::Repair => failed(),
        _ => PullActionView::Document(step),
    }
}

/// The request of a pull.
pub open spec fn pull_request(p: SpacePullView) -> PullRequestView {
    PullRequestView {
        protocol_version: p.limits.protocol_version,
        document_schema_version: p.limits.document_schema_version,
        space_id: p.space_id,
        stable_space_id: p.stable_id,
        last_server_sequence: p.last_server_sequence,
        local_generation: p.local_generation,
    }
}

/// Whether an answer is complete and belongs to the request.
pub open spec fn answers(p: SpacePullView, reply: PullReplyView) -> bool {
    &&& reply.protocol_version == p.limits.protocol_version
    &&& reply.document_schema_version == p.limits.document_schema_version
    &&& reply.space_id == p.space_id
    &&& (p.stable_id is Some ==> reply.stable_space_id == p.stable_id)
    &&& !reply.has_more
}

/// The action after an answer came, or none.
pub open spec fn after_answer(
    p: SpacePullView,
    status: Option<u16>,
    c: PullContextView,
) -> PullActionView {
    match status {
        None => failed(),
        Some(n) => if n == 401 && !p.refreshed {
            PullActionView::Refresh
        } else if n >= 300 {
            failed()
        } else {
            if_current(p, c, PullActionView::ReadBody)
        },
    }
}

/// The action after the body was read, or could not be.
pub open spec fn after_body(
    p: SpacePullView,
    reply: Option<PullReplyView>,
    c: PullContextView,
) -> PullActionView {
    match reply {
        None => failed(),
        Some(r) => if answers(p, r) {
            if_current(p, c, PullActionView::Decode)
        } else {
            failed()
        },
    }
}

/// What a pull leaves to be done once its board has come on the shelf.
#[derive(Debug, PartialEq)]
pub struct Arrival {
    /// The workspace to save.
    pub workspace: Option<WorkspaceData>,
    /// The board on the desk is no longer what the user left there.
    pub on_desk: bool,
    pub action: PullAction,
}

fn as_action(step: DocumentStep) -> (r: PullAction)
    ensures
        r@ == document_action(step),
{
    match step {
        DocumentStep::Stop => PullAction::Finish(false),
        DocumentStep::Repair => PullAction::Finish(false),
        _ => PullAction::Document(step),
    }
}

impl SpacePull {
    /// Begins to pull a space; one that is not kept on the server is not
    /// pulled.
    pub fn start(limits: &SyncLimits, spaces: &Vec<Space>, space_id: u64, principal: &str) -> (r: (
        SpacePull,
        PullAction,
    ))
        ensures
            r.0@ == (SpacePullView {
                limits: *limits,
                principal: principal@,
                space_id,
                stable_id: None,
                last_server_sequence: 0,
                local_generation: 0,
                refreshed: false,
                update_bytes: 0,
            }),
            r.1@ == (if syncs(views(spaces@), space_id) {
                PullActionView::Reserve
            } else {
                failed()
            }),
    {
        let pull = SpacePull {
            limits: *limits,
            principal: principal.to_owned(),
            space_id,
            stable_id: None,
            last_server_sequence: 0,
            local_generation: 0,
            refreshed: false,
            update_bytes: 0,
        };
        if space_sync_enabled(spaces, space_id) {
            (pull, PullAction::Reserve)
        } else {
            (pull, PullAction::Finish(false))
        }
    }

    fn current(&self, c: &PullContext) -> (r: bool)
        ensures
            r == goes_on(self@, c@),
    {
        self.principal == c.principal && c.run_is_current
    }

    fn request(&self) -> (r: PullRequest)
        ensures
            r@ == pull_request(self@),
    {
        PullRequest {
            protocol_version: self.limits.protocol_version,
            document_schema_version: self.limits.document_schema_version,
            space_id: self.space_id,
            stable_space_id: clone_opt(&self.stable_id),
            last_server_sequence: self.last_server_sequence,
            local_generation: self.local_generation,
        }
    }

    /// The network was reserved, or is already in use for the space.
    pub fn reserved(&self, reserved: bool) -> (r: PullAction)
        ensures
            r@ == (if reserved {
                PullActionView::LoadAcknowledged
            } else {
                failed()
            }),
    {
        if reserved {
            PullAction::LoadAcknowledged
        } else {
            PullAction::Finish(false)
        }
    }

    /// The acknowledged state was read, or could not be. Where it could not, the
    /// one that is known stays, and else an empty one is taken.
    pub fn acknowledged(
        &self,
        stored: Option<Vec<u8>>,
        empty: Vec<u8>,
        states: &mut AcknowledgedStates,
        c: &PullContext,
    ) -> (r: PullAction)
        ensures
            final(states)@ == (match stored {
                Some(state) => old(states)@.insert((self@.principal, self@.space_id), state@),
                None => if old(states)@.dom().contains((c@.principal, self@.space_id)) {
                    old(states)@
                } else {
                    old(states)@.insert((self@.principal, self@.space_id), empty@)
                },
            }),
            r@ == if_current(self@, c@, PullActionView::Document(DocumentStep::Read)),
    {
        match stored {
            Some(state) => states.set_acknowledged_state_vector(
                &self.principal,
                self.space_id,
                state,
            ),
            None => {
                if states.acknowledged_state_vector(&c.principal, self.space_id).is_none() {
                    states.set_acknowledged_state_vector(&self.principal, self.space_id, empty);
                }
            },
        }
        if self.current(c) {
            PullAction::Document(DocumentStep::Read)
        } else {
            PullAction::Finish(false)
        }
    }

    /// The stored document was read.
    pub fn read(&self, stored: StoredDocument, existing: bool, c: &PullContext) -> (r: PullAction)
        ensures
            r@ == document_action(
                after_read(
                    DocumentLoad { strict: false },
                    stored,
                    existing,
                    goes_on(self@, c@),
                ),
            ),
    {
        let load = DocumentLoad { strict: false };
        as_action(load.read(stored, existing, self.current(c)))
    }

    /// The document was made, or could not be.
    pub fn opened(&self, opened: bool) -> (r: PullAction)
        ensures
            r@ == document_action(after_open(DocumentLoad { strict: false }, opened)),
    {
        let load = DocumentLoad { strict: false };
        as_action(load.opened(opened))
    }

    /// The stored updates were read, or could not be.
    pub fn pending(&self, readable: bool, c: &PullContext) -> (r: PullAction)
        ensures
            r@ == document_action(
                after_pending(DocumentLoad { strict: false }, readable, goes_on(self@, c@)),
            ),
    {
        let load = DocumentLoad { strict: false };
        as_action(load.pending(readable, self.current(c)))
    }

    /// The stored updates were taken in, or could not be. The request goes out
    /// with the place in the server's sequence and the number of the last
    /// local change.
    pub fn replayed(
        &mut self,
        replayed: bool,
        spaces: &Vec<Space>,
        cursor: &Option<String>,
        local_generation: u64,
    ) -> (r: PullAction)
        ensures
            final(self)@ == (if replayed {
                SpacePullView {
                    stable_id: identity_of(views(spaces@), old(self)@.space_id),
                    last_server_sequence: stored_number(opt_view(*cursor)),
                    local_generation,
                    ..old(self)@
                }
            } else {
                old(self)@
            }),
            r@ == (if replayed {
                PullActionView::Send(pull_request(final(self)@))
            } else {
                failed()
            }),
    {
        if !replayed {
            return PullAction::Finish(false);
        }
        self.stable_id = stable_space_id(spaces, self.space_id);
        self.last_server_sequence = read_stored_number(cursor);
        self.local_generation = local_generation;
        PullAction::Send(self.request())
    }

    /// An answer came, or none.
    pub fn replied(&self, status: Option<u16>, c: &PullContext) -> (r: PullAction)
        ensures
            r@ == after_answer(self@, status, c@),
    {
        match status {
            None => PullAction::Finish(false),
            Some(n) => {
                if n == 401 && !self.refreshed {
                    PullAction::Refresh
                } else if n >= 300 || !self.current(c) {
                    PullAction::Finish(false)
                } else {
                    PullAction::ReadBody
                }
            },
        }
    }

    /// The session was renewed, or could not be. The request is sent once
    /// more.
    pub fn refreshed(&mut self, renewed: bool) -> (r: PullAction)
        ensures
            final(self)@ == (SpacePullView {
                refreshed: old(self)@.refreshed || renewed,
                ..old(self)@
            }),
            r@ == (if renewed {
                PullActionView::Send(pull_request(old(self)@))
            } else {
                failed()
            }),
    {
        if renewed {
            self.refreshed = true;
            PullAction::Send(self.request())
        } else {
            PullAction::Finish(false)
        }
    }

    /// The body was read, or could not be.
    pub fn body(&self, reply: Option<PullReply>, c: &PullContext) -> (r: PullAction)
        ensures
            r@ == after_body(self@, opt_view(reply), c@),
    {
        let reply = match reply {
            Some(reply) => reply,
            None => return PullAction::Finish(false),
        };
        if !self.current(c) {
            return PullAction::Finish(false);
        }
        let known = match &self.stable_id {
            Some(_) => opt_text_eq(&reply.stable_space_id, &self.stable_id),
            None => true,
        };
        if reply.protocol_version != self.limits.protocol_version
            || reply.document_schema_version != self.limits.document_schema_version
            || reply.space_id != self.space_id || !known || reply.has_more {
            PullAction::Finish(false)
        } else {
            PullAction::Decode
        }
    }

    /// The update and the state vector of the answer were decoded into so many
    /// bytes, or could not be.
    pub fn decoded(&mut self, sizes: Option<(usize, usize)>) -> (r: PullAction)
        ensures
            final(self)@ == (SpacePullView {
                update_bytes: match sizes {
                    Some((update, _)) => update,
                    None => old(self)@.update_bytes,
                },
                ..old(self)@
            }),
            r@ == (match sizes {
                Some((update, vector)) => if update <= old(self)@.limits.max_update_bytes && vector
                    <= old(self)@.limits.max_state_vector_bytes {
                    PullActionView::Apply
                } else {
                    failed()
                },
                None => failed(),
            }),
    {
        match sizes {
            Some((update, vector)) => {
                self.update_bytes = update;
                if update <= self.limits.max_update_bytes && vector
                    <= self.limits.max_state_vector_bytes {
                    PullAction::Apply
                } else {
                    PullAction::Finish(false)
                }
            },
            None => PullAction::Finish(false),
        }
    }

    /// The update was taken into a copy of the document whose snapshot has so
    /// many bytes, or could not be.
    pub fn applied(&self, snapshot: Option<usize>) -> (r: PullAction)
        ensures
            r@ == (match snapshot {
                Some(n) => if n <= self@.limits.max_snapshot_bytes {
                    PullActionView::Commit(self@.local_generation, self@.update_bytes > 0)
                } else {
                    failed()
                },
                None => failed(),
            }),
    {
        match snapshot {
            Some(n) => {
                if n <= self.limits.max_snapshot_bytes {
                    PullAction::Commit(self.local_generation, self.update_bytes > 0)
                } else {
                    PullAction::Finish(false)
                }
            },
            None => PullAction::Finish(false),
        }
    }

    /// The document was stored, or could not be. Only then the board comes on
    /// the shelf and the server's state counts as acknowledged.
    pub fn committed(
        &self,
        stored: bool,
        c: &PullContext,
        env: &Surroundings,
        shelf: &mut Shelf,
        states: &mut AcknowledgedStates,
        board: &BoardData,
        server_state: Vec<u8>,
    ) -> (r: Arrival)
        ensures
            final(states)@ == (if stored && goes_on(self@, c@) {
                old(states)@.insert((self@.principal, self@.space_id), server_state@)
            } else {
                old(states)@
            }),
            final(shelf)@ == (if stored && goes_on(self@, c@) {
                board_taken(old(shelf)@, self@.space_id, board@, env@.now)
            } else {
                old(shelf)@
            }),
            opt_view(r.workspace) == (if stored && goes_on(self@, c@) {
                Some(shelf_workspace(final(shelf)@, env@))
            } else {
                None
            }),
            r.on_desk == (stored && goes_on(self@, c@) && old(shelf)@.active_space_id
                == self@.space_id),
            r.action@ == PullActionView::Finish(stored && goes_on(self@, c@)),
    {
        if !stored || !self.current(c) {
            return Arrival { workspace: None, on_desk: false, action: PullAction::Finish(false) };
        }
        states.set_acknowledged_state_vector(&self.principal, self.space_id, server_state);
        let on_desk = shelf.take_board(self.space_id, board, env.now);
        let workspace = workspace_snapshot(
            env,
            &shelf.spaces,
            shelf.active_space_id,
            &shelf.tombstones,
        );
        Arrival { workspace: Some(workspace), on_desk, action: PullAction::Finish(true) }
    }
}

/// Once the principal or the run has changed, no answer leads any further.
pub proof fn stale_pulls_end(
    p: SpacePullView,
    c: PullContextView,
    status: u16,
    reply: PullReplyView,
    stored: StoredDocument,
    existing: bool,
)
    requires
        !goes_on(p, c),
        p.refreshed || status != 401,
    ensures
        after_answer(p, Some(status), c) == failed(),
        after_body(p, Some(reply), c) == failed(),
        document_action(
            after_read(DocumentLoad { strict: false }, stored, existing, goes_on(p, c)),
        ) == failed(),
{
}

/// An answer is renewed for at most once: a second refusal is final.
pub proof fn sessions_are_renewed_once(p: SpacePullView, c: PullContextView)
    requires
        p.refreshed,
    ensures
        after_answer(p, Some(401), c) == failed(),
{
}

/// How the space in front is fetched.
#[derive(Clone, Copy, Debug, PartialEq, Eq, Structural)]
pub enum ActivePull {
    /// Its board is asked for.
    Board,
    /// Its document is pulled.
    Document,
    /// Not at all.
    Nothing,
}

/// How the space in front is fetched: for an account its board is asked for.
pub fn pull_active_space(principal: &str, spaces: &Vec<Space>, active: u64) -> (r: ActivePull)
    ensures
        r == (if !guest_principal_text(principal@) {
            ActivePull::Board
        } else if syncs(views(spaces@), active) {
            ActivePull::Document
        } else {
            ActivePull::Nothing
        }),
{
    if !is_guest_principal(principal) {
        ActivePull::Board
    } else if space_sync_enabled(spaces, active) {
        ActivePull::Document
    } else {
        ActivePull::Nothing
    }
}

/// The board of a space, as the server answers with it.
#[derive(Debug, PartialEq)]
pub struct RemoteBoard {
    pub space_id: u64,
    pub version: u64,
    pub board: BoardData,
}

/// The shelf after the board of the space in front was answered with; one of
/// another space is not taken.
pub open spec fn board_received(
    s: ShelfView,
    asked: u64,
    space_id: u64,
    version: u64,
    board: BoardView,
    now: u64,
) -> ShelfView {
    if space_id == asked {
        ShelfView {
            spaces: with_space(
                s.spaces,
                asked,
                |x: SpaceView|
                    SpaceView { board, metadata_version: version, updated_at: now, ..x },
            ),
            desk: crate::arrivals::desk_showing(s.desk, board),
            ..s
        }
    } else {
        s
    }
}

impl Shelf {
    /// The server answered with the board of a space. Says whether it was the
    /// one that was asked for.
    pub fn receive_board(&mut self, asked: u64, remote: &RemoteBoard, now: u64) -> (r: bool)
        ensures
            r == (remote.space_id == asked),
            final(self)@ == board_received(
                old(self)@,
                asked,
                remote.space_id,
                remote.version,
                remote.board@,
                now,
            ),
    {
        let ghost before = self@;
        if remote.space_id != asked {
            return false;
        }
        let i = position_of_space(&self.spaces, asked);
        if i < self.spaces.len() {
            let mut space = self.spaces[i].clone();
            space.board = remote.board.clone();
            space.metadata_version = remote.version;
            space.updated_at = now;
            self.spaces = replace_space(&self.spaces, i, space);
        }
        self.desk.notes = clone_notes(&remote.board.notes);
        self.desk.groups = clone_groups(&remote.board.groups);
        assert(self@.desk == crate::arrivals::desk_showing(before.desk, remote.board@));
        true
    }
}

/// The steps of asking the server for everything.
#[derive(Clone, Copy, Debug, PartialEq, Eq, Structural)]
pub enum ManifestStep {
    /// Read the server's list of spaces and join it with the shelf.
    Join,
    /// Register the spaces, which is safe only after the list was read.
    Register,
    /// Pull the space in front, then the others, then look at the queues.
    Pull,
    /// Nothing more.
    Stop,
}

/// Begins to ask for everything; a guest asks for nothing.
pub fn refresh_manifest(run_is_current: bool, principal: &str) -> (r: ManifestStep)
    ensures
        r == (if !run_is_current || has_prefix(principal@, "guest"@) {
            ManifestStep::Stop
        } else {
            ManifestStep::Join
        }),
{
    if !run_is_current || starts_with(principal, "guest") {
        ManifestStep::Stop
    } else {
        ManifestStep::Join
    }
}

/// The list was joined, or could not be read.
pub fn manifest_joined(joined: bool, run_is_current: bool) -> (r: ManifestStep)
    ensures
        r == (if joined && run_is_current {
            ManifestStep::Register
        } else {
            ManifestStep::Stop
        }),
{
    if joined && run_is_current {
        ManifestStep::Register
    } else {
        ManifestStep::Stop
    }
}

/// The spaces were registered.
pub fn manifest_registered(run_is_current: bool) -> (r: ManifestStep)
    ensures
        r == (if run_is_current {
            ManifestStep::Pull
        } else {
            ManifestStep::Stop
        }),
{
    if run_is_current {
        ManifestStep::Pull
    } else {
        ManifestStep::Stop
    }
}

/// A pull goes on only for its own principal and in its own run.
pub proof fn pulls_go_on_only_while_current(
    p: SpacePullView,
    c: PullContextView,
    action: PullActionView,
)
    ensures
        goes_on(p, c) == (p.principal == c.principal && c.run_is_current),
        goes_on(p, c) ==> if_current(p, c, action) == action,
        !goes_on(p, c) ==> if_current(p, c, action) == PullActionView::Finish(false),
{
}

/// A document that cannot be had ends the pull without success; any other step
/// of loading it is taken.
pub proof fn missing_documents_end_the_pull(step: DocumentStep)
    ensures
        step == DocumentStep::Stop || step == DocumentStep::Repair ==> document_action(step)
            == PullActionView::Finish(false),
        step != DocumentStep::Stop && step != DocumentStep::Repair ==> document_action(step)
            == PullActionView::Document(step),
{
}

/// The server is asked for the space that is pulled, from the place and the
/// change that are known here, in this client's versions.
pub proof fn requests_name_what_is_known(p: SpacePullView)
    ensures
        ({
            let r = pull_request(p);
            &&& r.space_id == p.space_id
            &&& r.stable_space_id == p.stable_id
            &&& r.last_server_sequence == p.last_server_sequence
            &&& r.local_generation == p.local_generation
            &&& r.protocol_version == p.limits.protocol_version
            &&& r.document_schema_version == p.limits.document_schema_version
        }),
{
}

/// An answer counts where it is of the space that was asked for, complete and in
/// this client's versions.
pub proof fn answers_are_of_the_space(p: SpacePullView, reply: PullReplyView, c: PullContextView)
    ensures
        reply.space_id != p.space_id ==> after_body(p, Some(reply), c) == PullActionView::Finish(
            false,
        ),
        reply.has_more ==> after_body(p, Some(reply), c) == PullActionView::Finish(false),
        p.stable_id is Some && reply.stable_space_id != p.stable_id ==> after_body(
            p,
            Some(reply),
            c,
        ) == PullActionView::Finish(false),
        reply.protocol_version != p.limits.protocol_version || reply.document_schema_version
            != p.limits.document_schema_version ==> after_body(p, Some(reply), c)
            == PullActionView::Finish(false),
        goes_on(p, c) && reply.space_id == p.space_id && !reply.has_more && (p.stable_id is None
            || reply.stable_space_id == p.stable_id) && reply.protocol_version
            == p.limits.protocol_version && reply.document_schema_version
            == p.limits.document_schema_version ==> after_body(p, Some(reply), c)
            == PullActionView::Decode,
        after_body(p, None, c) == PullActionView::Finish(false),
{
}

/// The body of an answer is read where the server has accepted the request; a
/// session that ran out is renewed once.
pub proof fn accepted_pulls_are_read(p: SpacePullView, status: u16, c: PullContextView)
    ensures
        after_answer(p, None, c) == PullActionView::Finish(false),
        status < 300 && goes_on(p, c) ==> after_answer(p, Some(status), c)
            == PullActionView::ReadBody,
        status >= 300 && status != 401 ==> after_answer(p, Some(status), c)
            == PullActionView::Finish(false),
        !p.refreshed ==> after_answer(p, Some(401), c) == PullActionView::Refresh,
{
}

/// A board that the server sends goes into the space that was asked for and onto
/// the desk, with its version; one of another space changes nothing.
pub proof fn received_boards_are_shown(
    s: ShelfView,
    asked: u64,
    space_id: u64,
    version: u64,
    board: BoardView,
    now: u64,
    k: int,
)
    requires
        0 <= k < s.spaces.len(),
    ensures
        space_id != asked ==> board_received(s, asked, space_id, version, board, now) == s,
        space_id == asked ==> {
            let r = board_received(s, asked, space_id, version, board, now);
            &&& r.spaces.len() == s.spaces.len()
            &&& is_first_of(s.spaces, asked, k) ==> r.spaces[k] == (SpaceView {
                board,
                metadata_version: version,
                updated_at: now,
                ..s.spaces[k]
            })
            &&& !is_first_of(s.spaces, asked, k) ==> r.spaces[k] == s.spaces[k]
            &&& r.desk == (DeskView { notes: board.notes, groups: board.groups, ..s.desk })
            &&& r.active_space_id == s.active_space_id
            &&& r.tombstones == s.tombstones
        },
{
    crate::spaces::changes_touch_one_space(
        s.spaces,
        asked,
        |x: SpaceView| SpaceView { board, metadata_version: version, updated_at: now, ..x },
        k,
    );
}

} // verus!
