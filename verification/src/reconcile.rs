//! Emptying the queue of document updates into the server, one at a time.
//!
//! The shared documents, their encoding and the browser's database are the
//! caller's; which update is sent, what counts as its answer, and when it may
//! leave the queue is decided here.
use vstd::prelude::*;
use vstd::string::*;

use crate::arrivals::board_taken;
use crate::drain::check_principal;
use crate::drain::check_run;
use crate::drain::classified;
use crate::drain::classify_reply;
use crate::drain::gate;
use crate::drain::identity_of;
use crate::drain::run_gate;
use crate::drain::space_sync_enabled;
use crate::drain::stable_space_id;
use crate::drain::syncs;
use crate::drain::DrainContext;
use crate::drain::DrainContextView;
use crate::drain::QueueDrainResult;
use crate::drain::ReplyClass;
use crate::drain::ReplyHead;
use crate::drain::ReplyHeadView;
use crate::identity::is_safe_local_identifier;
use crate::identity::is_safe_text;
use crate::ledger::AcknowledgedStates;
use crate::lists::opt_view;
use crate::lists::views;
use crate::model::BoardData;
use crate::model::Space;
use crate::model::SpaceView;
use crate::model::WorkspaceData;
use crate::persist::workspace_snapshot;
use crate::spaces::Shelf;
use crate::tabs::shelf_workspace;
use crate::text::clone_opt;
use crate::text::opt_text_eq;
use crate::workspace::Surroundings;

verus! {

/// An update of a space's document that waits to be sent.
#[derive(Debug, PartialEq)]
pub struct QueuedCrdtUpdate {
    pub principal: Option<String>,
    pub space_id: u64,
    pub mutation_id: String,
    pub device_id: Option<String>,
    pub last_server_sequence: Option<u64>,
    pub local_generation: Option<u64>,
    pub state_vector: Option<String>,
    pub update: String,
}

/// An update that waits to be sent, its texts as characters.
pub struct QueuedUpdateView {
    pub principal: Option<Seq<char>>,
    pub space_id: u64,
    pub mutation_id: Seq<char>,
    pub device_id: Option<Seq<char>>,
    pub last_server_sequence: Option<u64>,
    pub local_generation: Option<u64>,
    pub state_vector: Option<Seq<char>>,
    pub update: Seq<char>,
}

impl View for QueuedCrdtUpdate {
    type V = QueuedUpdateView;

    open spec fn view(&self) -> QueuedUpdateView {
        QueuedUpdateView {
            principal: opt_view(self.principal),
            space_id: self.space_id,
            mutation_id: self.mutation_id@,
            device_id: opt_view(self.device_id),
            last_server_sequence: self.last_server_sequence,
            local_generation: self.local_generation,
            state_vector: opt_view(self.state_vector),
            update: self.update@,
        }
    }
}

/// A number, or zero where there is none.
pub open spec fn or_zero(n: Option<u64>) -> u64 {
    match n {
        Some(x) => x,
        None => 0,
    }
}

fn unwrap_or_zero(n: Option<u64>) -> (r: u64)
    ensures
        r == or_zero(n),
{
    match n {
        Some(x) => x,
        None => 0,
    }
}

/// A request that sends an update. Without a state vector the empty one is
/// meant.
#[derive(Debug, PartialEq)]
pub struct ReconcileRequest {
    pub protocol_version: u32,
    pub document_schema_version: u32,
    pub space_id: u64,
    pub stable_space_id: Option<String>,
    pub mutation_id: String,
    pub device_id: String,
    pub local_generation: u64,
    pub last_server_sequence: u64,
    pub state_vector: Option<String>,
    pub update: String,
}

/// A request that sends an update, its texts as characters.
pub struct ReconcileRequestView {
    pub protocol_version: u32,
    pub document_schema_version: u32,
    pub space_id: u64,
    pub stable_space_id: Option<Seq<char>>,
    pub mutation_id: Seq<char>,
    pub device_id: Seq<char>,
    pub local_generation: u64,
    pub last_server_sequence: u64,
    pub state_vector: Option<Seq<char>>,
    pub update: Seq<char>,
}

impl View for ReconcileRequest {
    type V = ReconcileRequestView;

    open spec fn view(&self) -> ReconcileRequestView {
        ReconcileRequestView {
            protocol_version: self.protocol_version,
            document_schema_version: self.document_schema_version,
            space_id: self.space_id,
            stable_space_id: opt_view(self.stable_space_id),
            mutation_id: self.mutation_id@,
            device_id: self.device_id@,
            local_generation: self.local_generation,
            last_server_sequence: self.last_server_sequence,
            state_vector: opt_view(self.state_vector),
            update: self.update@,
        }
    }
}

/// The body of the server's answer, without the encoded documents.
#[derive(Debug, PartialEq)]
pub struct ReconcileReply {
    pub protocol_version: u32,
    pub document_schema_version: u32,
    pub space_id: u64,
    pub stable_space_id: Option<String>,
    pub mutation_id: String,
    pub acknowledged_generation: u64,
}

/// The body of the server's answer, its texts as characters.
pub struct ReconcileReplyView {
    pub protocol_version: u32,
    pub document_schema_version: u32,
    pub space_id: u64,
    pub stable_space_id: Option<Seq<char>>,
    pub mutation_id: Seq<char>,
    pub acknowledged_generation: u64,
}

impl View for ReconcileReply {
    type V = ReconcileReplyView;

    open spec fn view(&self) -> ReconcileReplyView {
        ReconcileReplyView {
            protocol_version: self.protocol_version,
            document_schema_version: self.document_schema_version,
            space_id: self.space_id,
            stable_space_id: opt_view(self.stable_space_id),
            mutation_id: self.mutation_id@,
            acknowledged_generation: self.acknowledged_generation,
        }
    }
}

/// What the protocol between device and server fixes.
#[derive(Clone, Copy, Debug, PartialEq, Eq, Structural)]
pub struct SyncLimits {
    pub protocol_version: u32,
    pub document_schema_version: u32,
    pub max_update_bytes: usize,
    pub max_state_vector_bytes: usize,
    pub max_snapshot_bytes: usize,
}

/// What has to be done next.
#[derive(Debug, PartialEq)]
pub enum ReconcileAction {
    /// Make sure that the document of this space is loaded.
    EnsureDocument(u64),
    /// Reserve the network for this space.
    Reserve(u64),
    /// Check that the update and its state vector can be decoded.
    Encode,
    /// Send the update.
    Send(ReconcileRequest),
    /// Read the body of the answer.
    ReadBody,
    /// Renew the session.
    Refresh,
    /// Decode the documents of the answer.
    Decode,
    /// Take the server's update into the document of this space.
    Apply(u64),
    /// Store the new document of this space and the server's state in one step,
    /// as the answer to this change, up to the local change of this number.
    Commit(u64, String, u64),
    /// Take the update out of the stored queue.
    Acknowledge(u64, String),
    /// The attempt is over.
    Finish(QueueDrainResult),
}

/// What has to be done next, as a view.
pub enum ReconcileActionView {
    EnsureDocument(u64),
    Reserve(u64),
    Encode,
    Send(ReconcileRequestView),
    ReadBody,
    Refresh,
    Decode,
    Apply(u64),
    Commit(u64, Seq<char>, u64),
    Acknowledge(u64, Seq<char>),
    Finish(QueueDrainResult),
}

impl View for ReconcileAction {
    type V = ReconcileActionView;

    open spec fn view(&self) -> ReconcileActionView {
        match self {
            ReconcileAction::EnsureDocument(id) => ReconcileActionView::EnsureDocument(*id),
            ReconcileAction::Reserve(id) => ReconcileActionView::Reserve(*id),
            ReconcileAction::Encode => ReconcileActionView::Encode,
            ReconcileAction::Send(r) => ReconcileActionView::Send(r@),
            ReconcileAction::ReadBody => ReconcileActionView::ReadBody,
            ReconcileAction::Refresh => ReconcileActionView::Refresh,
            ReconcileAction::Decode => ReconcileActionView::Decode,
            ReconcileAction::Apply(id) => ReconcileActionView::Apply(*id),
            ReconcileAction::Commit(id, m, n) => ReconcileActionView::Commit(*id, m@, *n),
            ReconcileAction::Acknowledge(id, m) => ReconcileActionView::Acknowledge(*id, m@),
            ReconcileAction::Finish(r) => ReconcileActionView::Finish(*r),
        }
    }
}

/// What the server's update leaves to be done once it was taken in.
#[derive(Debug, PartialEq)]
pub struct Reconciled {
    /// The workspace to save.
    pub workspace: Option<WorkspaceData>,
    /// The board on the desk is no longer what the user left there.
    pub on_desk: bool,
    /// The update has to be handed on to the other tabs.
    pub announce: bool,
    pub action: ReconcileAction,
}

/// The state of an attempt to empty the queue.
#[derive(Debug, PartialEq)]
pub struct ReconcileDrain {
    pub limits: SyncLimits,
    pub queue: Vec<QueuedCrdtUpdate>,
    /// The position of the update that is being sent.
    pub index: usize,
    /// The identity of its space that was sent along.
    pub stable_id: Option<String>,
    /// For whom its answer is taken in.
    pub principal: String,
    pub auth_retry_used: bool,
    /// How many bytes the update of the answer has, once it was decoded.
    pub update_bytes: usize,
}

/// The state of an attempt, as a view.
pub struct ReconcileDrainView {
    pub limits: SyncLimits,
    pub queue: Seq<QueuedUpdateView>,
    pub index: int,
    pub stable_id: Option<Seq<char>>,
    pub principal: Seq<char>,
    pub auth_retry_used: bool,
    pub update_bytes: usize,
}

impl View for ReconcileDrain {
    type V = ReconcileDrainView;

    open spec fn view(&self) -> ReconcileDrainView {
        ReconcileDrainView {
            limits: self.limits,
            queue: views(self.queue@),
            index: self.index as int,
            stable_id: opt_view(self.stable_id),
            principal: self.principal@,
            auth_retry_used: self.auth_retry_used,
            update_bytes: self.update_bytes,
        }
    }
}

/// Whether the drain is at an update.
pub open spec fn at_update(d: ReconcileDrainView) -> bool {
    0 <= d.index < d.queue.len()
}

/// The end of an attempt.
pub open spec fn finish(result: QueueDrainResult) -> ReconcileActionView {
    ReconcileActionView::Finish(result)
}

/// The drain at the update of the given position or the first one after it
/// that has to be sent, and the action that follows.
pub open spec fn advanced(
    d: ReconcileDrainView,
    index: int,
    c: DrainContextView,
    spaces: Seq<SpaceView>,
) -> (ReconcileDrainView, ReconcileActionView)
    decreases d.queue.len() - index,
{
    if index < 0 || index >= d.queue.len() {
        (ReconcileDrainView { index, ..d }, finish(QueueDrainResult::Complete))
    } else {
        match run_gate(c) {
            Some(result) => (ReconcileDrainView { index, ..d }, finish(result)),
            None => if syncs(spaces, d.queue[index].space_id) {
                (
                    ReconcileDrainView { index, ..d },
                    ReconcileActionView::EnsureDocument(d.queue[index].space_id),
                )
            } else {
                advanced(d, index + 1, c, spaces)
            },
        }
    }
}

/// The step after the document was loaded, or could not be.
pub open spec fn after_document(
    d: ReconcileDrainView,
    loaded: bool,
    c: DrainContextView,
) -> ReconcileActionView {
    if !at_update(d) {
        finish(QueueDrainResult::Complete)
    } else if !loaded {
        finish(QueueDrainResult::Paused)
    } else {
        match run_gate(c) {
            Some(result) => finish(result),
            None => ReconcileActionView::Reserve(d.queue[d.index].space_id),
        }
    }
}

/// The request for the update at hand.
pub open spec fn request_for(d: ReconcileDrainView, own_device: Seq<char>) -> ReconcileRequestView {
    let q = d.queue[d.index];
    ReconcileRequestView {
        protocol_version: d.limits.protocol_version,
        document_schema_version: d.limits.document_schema_version,
        space_id: q.space_id,
        stable_space_id: d.stable_id,
        mutation_id: q.mutation_id,
        device_id: match q.device_id {
            Some(device) => if is_safe_text(device, 128) {
                device
            } else {
                own_device
            },
            None => own_device,
        },
        local_generation: or_zero(q.local_generation),
        last_server_sequence: or_zero(q.last_server_sequence),
        state_vector: q.state_vector,
        update: q.update,
    }
}

/// The step after the update was found to be decodable, or not. One that is
/// not stays in the queue.
pub open spec fn after_encoding(
    d: ReconcileDrainView,
    decodable: bool,
    own_device: Seq<char>,
    c: DrainContextView,
    spaces: Seq<SpaceView>,
) -> (ReconcileDrainView, ReconcileActionView) {
    if !at_update(d) {
        (d, finish(QueueDrainResult::Complete))
    } else if !decodable {
        (d, finish(QueueDrainResult::Paused))
    } else {
        match run_gate(c) {
            Some(result) => (d, finish(result)),
            None => {
                let next = ReconcileDrainView {
                    stable_id: identity_of(spaces, d.queue[d.index].space_id),
                    ..d
                };
                (next, ReconcileActionView::Send(request_for(next, own_device)))
            },
        }
    }
}

/// The step after the head of an answer came, or the request failed.
pub open spec fn after_reply(
    d: ReconcileDrainView,
    head: Option<ReplyHeadView>,
    c: DrainContextView,
) -> ReconcileActionView {
    match head {
        None => finish(QueueDrainResult::Retry),
        Some(head) => match run_gate(c) {
            Some(result) => finish(result),
            None => match classified(head) {
                ReplyClass::Success => ReconcileActionView::ReadBody,
                ReplyClass::AuthExpired => if d.auth_retry_used {
                    finish(QueueDrainResult::PausedAuth)
                } else {
                    ReconcileActionView::Refresh
                },
                ReplyClass::Conflict => finish(QueueDrainResult::Paused),
                ReplyClass::Ended(result) => finish(result),
            },
        },
    }
}

/// Whether an answer belongs to the update at hand.
pub open spec fn reply_matches(d: ReconcileDrainView, reply: ReconcileReplyView) -> bool {
    let q = d.queue[d.index];
    &&& reply.protocol_version == d.limits.protocol_version
    &&& reply.document_schema_version == d.limits.document_schema_version
    &&& reply.space_id == q.space_id
    &&& reply.mutation_id == q.mutation_id
    &&& d.stable_id is Some ==> reply.stable_space_id == d.stable_id
    &&& reply.acknowledged_generation == or_zero(q.local_generation)
}

/// The step after the body of an answer was read, or could not be.
pub open spec fn after_body(
    d: ReconcileDrainView,
    reply: Option<ReconcileReplyView>,
    c: DrainContextView,
) -> ReconcileActionView {
    match reply {
        None => finish(QueueDrainResult::Retry),
        Some(reply) => if !at_update(d) {
            finish(QueueDrainResult::Complete)
        } else {
            match run_gate(c) {
                Some(result) => finish(result),
                None => if reply_matches(d, reply) {
                    ReconcileActionView::Decode
                } else {
                    finish(QueueDrainResult::Paused)
                },
            }
        },
    }
}

/// The sizes of the documents of an answer.
#[derive(Clone, Copy, Debug, PartialEq, Eq, Structural)]
pub struct DecodedSizes {
    pub update: usize,
    pub state_vector: usize,
}

/// For whom an update was made.
pub open spec fn owner_of(q: QueuedUpdateView, c: DrainContextView) -> Seq<char> {
    match q.principal {
        Some(principal) => principal,
        None => c.principal,
    }
}

/// The step after the documents of an answer were decoded, or could not be.
pub open spec fn after_decoding(
    d: ReconcileDrainView,
    sizes: Option<DecodedSizes>,
    c: DrainContextView,
) -> (ReconcileDrainView, ReconcileActionView) {
    if !at_update(d) {
        (d, finish(QueueDrainResult::Complete))
    } else {
        match sizes {
            None => (d, finish(QueueDrainResult::Paused)),
            Some(s) => if s.update > d.limits.max_update_bytes || s.state_vector
                > d.limits.max_state_vector_bytes {
                (d, finish(QueueDrainResult::Paused))
            } else {
                let owner = owner_of(d.queue[d.index], c);
                let next = ReconcileDrainView { principal: owner, update_bytes: s.update, ..d };
                match gate(c, owner) {
                    Some(result) => (next, finish(result)),
                    None => (next, ReconcileActionView::Apply(d.queue[d.index].space_id)),
                }
            },
        }
    }
}

/// The step after the server's update was taken into a document whose snapshot
/// has so many bytes, or could not be.
pub open spec fn after_update(d: ReconcileDrainView, snapshot: Option<usize>) -> ReconcileActionView {
    let q = d.queue[d.index];
    if !at_update(d) {
        finish(QueueDrainResult::Complete)
    } else if snapshot matches Some(n) && n <= d.limits.max_snapshot_bytes {
        ReconcileActionView::Commit(q.space_id, q.mutation_id, or_zero(q.local_generation))
    } else {
        finish(QueueDrainResult::Retry)
    }
}

/// The step after the new document and the server's state were stored, or
/// could not be.
pub open spec fn after_commit(
    d: ReconcileDrainView,
    stored: bool,
    c: DrainContextView,
) -> ReconcileActionView {
    if !at_update(d) {
        finish(QueueDrainResult::Complete)
    } else if !stored {
        finish(QueueDrainResult::Retry)
    } else {
        match gate(c, d.principal) {
            Some(result) => finish(result),
            None => ReconcileActionView::Acknowledge(
                d.queue[d.index].space_id,
                d.queue[d.index].mutation_id,
            ),
        }
    }
}

/// The step after the update was taken out of the stored queue.
pub open spec fn after_ack(
    d: ReconcileDrainView,
    c: DrainContextView,
    spaces: Seq<SpaceView>,
) -> (ReconcileDrainView, ReconcileActionView) {
    match gate(c, d.principal) {
        Some(result) => (d, finish(result)),
        None => if at_update(d) {
            advanced(d, d.index + 1, c, spaces)
        } else {
            (d, finish(QueueDrainResult::Complete))
        },
    }
}

impl ReconcileDrain {
    fn advance(&mut self, from: usize, c: &DrainContext, spaces: &Vec<Space>) -> (r: ReconcileAction)
        ensures
            (final(self)@, r@) == advanced(old(self)@, from as int, c@, views(spaces@)),
            final(self).queue@ == old(self).queue@,
    {
        let ghost d = self@;
        self.index = from;
        while self.index < self.queue.len()
            invariant
                d == old(self)@,
                self.queue@ == old(self).queue@,
                self@ == (ReconcileDrainView { index: self@.index, ..d }),
                from <= self.index,
                advanced(d, from as int, c@, views(spaces@)) == advanced(
                    d,
                    self.index as int,
                    c@,
                    views(spaces@),
                ),
            decreases self.queue@.len() - self.index,
        {
            assert(d.queue[self.index as int] == self.queue@[self.index as int]@);
            if let Some(result) = check_run(c) {
                return ReconcileAction::Finish(result);
            }
            let id: u64 = self.queue[self.index].space_id;
            if space_sync_enabled(spaces, id) {
                return ReconcileAction::EnsureDocument(id);
            }
            self.index = self.index + 1;
        }
        ReconcileAction::Finish(QueueDrainResult::Complete)
    }

    /// Starts on a queue.
    pub fn start(
        limits: SyncLimits,
        queue: Vec<QueuedCrdtUpdate>,
        auth_retry_used: bool,
        c: &DrainContext,
        spaces: &Vec<Space>,
    ) -> (r: (Self, ReconcileAction))
        ensures
            ({
                let first = ReconcileDrainView {
                    limits,
                    queue: views(queue@),
                    index: 0,
                    stable_id: None,
                    principal: c@.principal,
                    auth_retry_used,
                    update_bytes: 0,
                };
                (r.0@, r.1@) == (match run_gate(c@) {
                    Some(result) => (first, finish(result)),
                    None => advanced(first, 0, c@, views(spaces@)),
                })
            }),
    {
        let mut drain = ReconcileDrain {
            limits,
            queue,
            index: 0,
            stable_id: None,
            principal: c.principal.clone(),
            auth_retry_used,
            update_bytes: 0,
        };
        match check_run(c) {
            Some(result) => (drain, ReconcileAction::Finish(result)),
            None => {
                let action = drain.advance(0, c, spaces);
                (drain, action)
            },
        }
    }

    /// The document was loaded, or could not be.
    pub fn document(&self, loaded: bool, c: &DrainContext) -> (r: ReconcileAction)
        ensures
            r@ == after_document(self@, loaded, c@),
    {
        if self.index >= self.queue.len() {
            return ReconcileAction::Finish(QueueDrainResult::Complete);
        }
        if !loaded {
            return ReconcileAction::Finish(QueueDrainResult::Paused);
        }
        match check_run(c) {
            Some(result) => ReconcileAction::Finish(result),
            None => ReconcileAction::Reserve(self.queue[self.index].space_id),
        }
    }

    /// The network was reserved for the space, or another request has it.
    pub fn reserved(&self, free: bool) -> (r: ReconcileAction)
        ensures
            r@ == (if free {
                ReconcileActionView::Encode
            } else {
                finish(QueueDrainResult::Retry)
            }),
    {
        if free {
            ReconcileAction::Encode
        } else {
            ReconcileAction::Finish(QueueDrainResult::Retry)
        }
    }

    /// The update was found to be decodable, or not.
    pub fn encoded(
        &mut self,
        decodable: bool,
        own_device: &String,
        c: &DrainContext,
        spaces: &Vec<Space>,
    ) -> (r: ReconcileAction)
        ensures
            (final(self)@, r@) == after_encoding(
                old(self)@,
                decodable,
                own_device@,
                c@,
                views(spaces@),
            ),
    {
        if self.index >= self.queue.len() {
            return ReconcileAction::Finish(QueueDrainResult::Complete);
        }
        if !decodable {
            return ReconcileAction::Finish(QueueDrainResult::Paused);
        }
        if let Some(result) = check_run(c) {
            return ReconcileAction::Finish(result);
        }
        assert(self@.queue[self.index as int] == self.queue@[self.index as int]@);
        self.stable_id = stable_space_id(spaces, self.queue[self.index].space_id);
        let q = &self.queue[self.index];
        let device_id = match &q.device_id {
            Some(device) => {
                if is_safe_local_identifier(device) {
                    device.clone()
                } else {
                    own_device.clone()
                }
            },
            None => own_device.clone(),
        };
        ReconcileAction::Send(
            ReconcileRequest {
                protocol_version: self.limits.protocol_version,
                document_schema_version: self.limits.document_schema_version,
                space_id: q.space_id,
                stable_space_id: clone_opt(&self.stable_id),
                mutation_id: q.mutation_id.clone(),
                device_id,
                local_generation: unwrap_or_zero(q.local_generation),
                last_server_sequence: unwrap_or_zero(q.last_server_sequence),
                state_vector: clone_opt(&q.state_vector),
                update: q.update.clone(),
            },
        )
    }

    /// The head of an answer came, or the request failed.
    pub fn replied(&self, head: Option<ReplyHead>, c: &DrainContext) -> (r: ReconcileAction)
        ensures
            r@ == after_reply(self@, opt_view(head), c@),
    {
        let head = match head {
            None => return ReconcileAction::Finish(QueueDrainResult::Retry),
            Some(head) => head,
        };
        if let Some(result) = check_run(c) {
            return ReconcileAction::Finish(result);
        }
        match classify_reply(&head) {
            ReplyClass::Success => ReconcileAction::ReadBody,
            ReplyClass::AuthExpired => {
                if self.auth_retry_used {
                    ReconcileAction::Finish(QueueDrainResult::PausedAuth)
                } else {
                    ReconcileAction::Refresh
                }
            },
            ReplyClass::Conflict => ReconcileAction::Finish(QueueDrainResult::Paused),
            ReplyClass::Ended(result) => ReconcileAction::Finish(result),
        }
    }

    /// The session was renewed, or could not be.
    pub fn refreshed(&mut self, renewed: bool) -> (r: ReconcileAction)
        ensures
            final(self)@ == (ReconcileDrainView {
                auth_retry_used: old(self)@.auth_retry_used || renewed,
                ..old(self)@
            }),
            r@ == finish(
                if renewed {
                    QueueDrainResult::Retry
                } else {
                    QueueDrainResult::PausedAuth
                },
            ),
    {
        if renewed {
            self.auth_retry_used = true;
            ReconcileAction::Finish(QueueDrainResult::Retry)
        } else {
            ReconcileAction::Finish(QueueDrainResult::PausedAuth)
        }
    }

    /// The body of the answer was read, or could not be.
    pub fn body(&self, reply: Option<ReconcileReply>, c: &DrainContext) -> (r: ReconcileAction)
        ensures
            r@ == after_body(self@, opt_view(reply), c@),
    {
        let reply = match reply {
            None => return ReconcileAction::Finish(QueueDrainResult::Retry),
            Some(reply) => reply,
        };
        if self.index >= self.queue.len() {
            return ReconcileAction::Finish(QueueDrainResult::Complete);
        }
        if let Some(result) = check_run(c) {
            return ReconcileAction::Finish(result);
        }
        let q = &self.queue[self.index];
        assert(self@.queue[self.index as int] == q@);
        if reply.protocol_version != self.limits.protocol_version || reply.document_schema_version
            != self.limits.document_schema_version || reply.space_id != q.space_id
            || reply.mutation_id != q.mutation_id || (self.stable_id.is_some() && !opt_text_eq(
            &reply.stable_space_id,
            &self.stable_id,
        )) || reply.acknowledged_generation != unwrap_or_zero(q.local_generation) {
            return ReconcileAction::Finish(QueueDrainResult::Paused);
        }
        ReconcileAction::Decode
    }

    /// The documents of the answer were decoded, or could not be.
    pub fn decoded(&mut self, sizes: Option<DecodedSizes>, c: &DrainContext) -> (r: ReconcileAction)
        ensures
            (final(self)@, r@) == after_decoding(old(self)@, sizes, c@),
    {
        if self.index >= self.queue.len() {
            return ReconcileAction::Finish(QueueDrainResult::Complete);
        }
        let s = match sizes {
            None => return ReconcileAction::Finish(QueueDrainResult::Paused),
            Some(s) => s,
        };
        if s.update > self.limits.max_update_bytes || s.state_vector
            > self.limits.max_state_vector_bytes {
            return ReconcileAction::Finish(QueueDrainResult::Paused);
        }
        assert(self@.queue[self.index as int] == self.queue@[self.index as int]@);
        let owner = match &self.queue[self.index].principal {
            Some(principal) => principal.clone(),
            None => c.principal.clone(),
        };
        let blocked = check_principal(c, &owner);
        self.principal = owner;
        self.update_bytes = s.update;
        match blocked {
            Some(result) => ReconcileAction::Finish(result),
            None => ReconcileAction::Apply(self.queue[self.index].space_id),
        }
    }

    /// The server's update was taken into the document, which now has this
    /// board and a snapshot of so many bytes, or could not be. The board comes
    /// on the shelf even where the document has become too large to be stored.
    pub fn applied(
        &self,
        result: Option<(&BoardData, usize)>,
        env: &Surroundings,
        shelf: &mut Shelf,
    ) -> (r: Reconciled)
        ensures
            ({
                let taken = at_update(self@) && result is Some;
                &&& final(shelf)@ == (if taken {
                    board_taken(
                        old(shelf)@,
                        self@.queue[self@.index].space_id,
                        (result->Some_0).0@,
                        env@.now,
                    )
                } else {
                    old(shelf)@
                })
                &&& opt_view(r.workspace) == (if taken {
                    Some(shelf_workspace(final(shelf)@, env@))
                } else {
                    None
                })
                &&& r.on_desk == (taken && old(shelf)@.active_space_id
                    == self@.queue[self@.index].space_id)
                &&& r.announce == (taken && self@.update_bytes > 0)
                &&& r.action@ == after_update(
                    self@,
                    match result {
                        Some(x) => Some(x.1),
                        None => None,
                    },
                )
            }),
    {
        let mut r = Reconciled {
            workspace: None,
            on_desk: false,
            announce: false,
            action: ReconcileAction::Finish(QueueDrainResult::Complete),
        };
        if self.index >= self.queue.len() {
            return r;
        }
        r.action = ReconcileAction::Finish(QueueDrainResult::Retry);
        let q = &self.queue[self.index];
        assert(self@.queue[self.index as int] == q@);
        if let Some(x) = result {
            r.on_desk = shelf.take_board(q.space_id, x.0, env.now);
            r.announce = self.update_bytes > 0;
            r.workspace = Some(
                workspace_snapshot(env, &shelf.spaces, shelf.active_space_id, &shelf.tombstones),
            );
            if x.1 <= self.limits.max_snapshot_bytes {
                r.action = ReconcileAction::Commit(
                    q.space_id,
                    q.mutation_id.clone(),
                    unwrap_or_zero(q.local_generation),
                );
            }
        }
        r
    }

    /// The new document and the server's state were stored, or could not be.
    /// Only then the server's state counts as acknowledged.
    pub fn committed(
        &self,
        stored: bool,
        c: &DrainContext,
        states: &mut AcknowledgedStates,
        server_state: Vec<u8>,
    ) -> (r: ReconcileAction)
        ensures
            r@ == after_commit(self@, stored, c@),
            final(states)@ == (if r@ is Acknowledge {
                old(states)@.insert(
                    (self@.principal, self@.queue[self@.index].space_id),
                    server_state@,
                )
            } else {
                old(states)@
            }),
    {
        if self.index >= self.queue.len() {
            return ReconcileAction::Finish(QueueDrainResult::Complete);
        }
        if !stored {
            return ReconcileAction::Finish(QueueDrainResult::Retry);
        }
        match check_principal(c, &self.principal) {
            Some(result) => ReconcileAction::Finish(result),
            None => {
                let q = &self.queue[self.index];
                assert(self@.queue[self.index as int] == q@);
                states.set_acknowledged_state_vector(&self.principal, q.space_id, server_state);
                ReconcileAction::Acknowledge(q.space_id, q.mutation_id.clone())
            },
        }
    }

    /// The update was taken out of the stored queue.
    pub fn acked(&mut self, c: &DrainContext, spaces: &Vec<Space>) -> (r: ReconcileAction)
        ensures
            (final(self)@, r@) == after_ack(old(self)@, c@, views(spaces@)),
    {
        if let Some(result) = check_principal(c, &self.principal) {
            return ReconcileAction::Finish(result);
        }
        if self.index >= self.queue.len() {
            return ReconcileAction::Finish(QueueDrainResult::Complete);
        }
        self.advance(self.index + 1, c, spaces)
    }
}

/// An update leaves the stored queue only after its own answer was stored, for
/// the principal that is selected.
pub proof fn updates_leave_only_when_stored(
    d: ReconcileDrainView,
    stored: bool,
    c: DrainContextView,
)
    ensures
        after_commit(d, stored, c) is Acknowledge ==> stored && d.principal == c.principal
            && run_gate(c) is None && at_update(d) && after_commit(d, stored, c)
            == ReconcileActionView::Acknowledge(
            d.queue[d.index].space_id,
            d.queue[d.index].mutation_id,
        ),
{
}

/// What is sent belongs to a space that is kept on the server.
pub proof fn only_synced_documents_are_sent(
    d: ReconcileDrainView,
    index: int,
    c: DrainContextView,
    spaces: Seq<SpaceView>,
)
    requires
        0 <= index,
    ensures
        ({
            let (next, action) = advanced(d, index, c, spaces);
            &&& next.queue == d.queue
            &&& action matches ReconcileActionView::EnsureDocument(id) ==> {
                &&& index <= next.index < d.queue.len()
                &&& d.queue[next.index].space_id == id
                &&& syncs(spaces, id)
                &&& run_gate(c) is None
            }
        }),
    decreases d.queue.len() - index,
{
    if index < d.queue.len() && run_gate(c) is None && !syncs(spaces, d.queue[index].space_id) {
        only_synced_documents_are_sent(d, index + 1, c, spaces);
    }
}

/// The drain goes on to the first update of a space that syncs, wherever it is
/// in the queue, and is complete only where there is none: `j` is a later place
/// whose space syncs. Nothing of the queue is lost on the way.
pub proof fn every_synced_update_is_sent(
    d: ReconcileDrainView,
    from: int,
    c: DrainContextView,
    spaces: Seq<SpaceView>,
    j: int,
)
    requires
        0 <= from,
        c.run_is_current,
        c.coordinator_is_current,
    ensures
        ({
            let (next, action) = advanced(d, from, c, spaces);
            &&& next == (ReconcileDrainView { index: next.index, ..d })
            &&& action == ReconcileActionView::Finish(QueueDrainResult::Complete) <==> forall|i: int|
                from <= i < d.queue.len() ==> !syncs(spaces, (#[trigger] d.queue[i]).space_id)
            &&& from <= j < d.queue.len() && syncs(spaces, d.queue[j].space_id) && (forall|i: int|
                from <= i < j ==> !syncs(spaces, (#[trigger] d.queue[i]).space_id)) ==> next.index
                == j && action == ReconcileActionView::EnsureDocument(d.queue[j].space_id)
        }),
    decreases d.queue.len() - from,
{
    if from < d.queue.len() {
        if !syncs(spaces, d.queue[from].space_id) {
            every_synced_update_is_sent(d, from + 1, c, spaces, j);
            let (next, action) = advanced(d, from, c, spaces);
            if action == ReconcileActionView::Finish(QueueDrainResult::Complete) {
                assert forall|i: int| from <= i < d.queue.len() implies !syncs(
                    spaces,
                    (#[trigger] d.queue[i]).space_id,
                ) by {
                    if i > from {
                        assert(from + 1 <= i);
                    }
                }
            }
        }
    }
}

/// After an update was acknowledged the drain goes on behind it: to the first
/// later update of a space that syncs, and to the end only where there is none.
/// Where the principal was changed, the run was stopped or another tab took
/// over, it ends without having been complete.
pub proof fn drains_go_through_the_outbox(
    d: ReconcileDrainView,
    c: DrainContextView,
    spaces: Seq<SpaceView>,
    j: int,
)
    requires
        0 <= d.index < d.queue.len(),
    ensures
        ({
            let (next, action) = after_ack(d, c, spaces);
            let current = d.principal == c.principal && c.run_is_current
                && c.coordinator_is_current;
            &&& next.queue == d.queue
            &&& action == ReconcileActionView::Finish(QueueDrainResult::Complete) <==> current && (
            forall|i: int|
                d.index < i < d.queue.len() ==> !syncs(spaces, (#[trigger] d.queue[i]).space_id))
            &&& current && d.index < j < d.queue.len() && syncs(spaces, d.queue[j].space_id) && (
            forall|i: int| d.index < i < j ==> !syncs(spaces, (#[trigger] d.queue[i]).space_id))
                ==> next.index == j && action == ReconcileActionView::EnsureDocument(
                d.queue[j].space_id,
            )
            &&& d.principal != c.principal || !c.run_is_current ==> next == d && action
                == ReconcileActionView::Finish(QueueDrainResult::Paused)
            &&& d.principal == c.principal && c.run_is_current && !c.coordinator_is_current
                ==> next == d && action == ReconcileActionView::Finish(
                QueueDrainResult::CoordinatorLost,
            )
        }),
{
    if d.principal == c.principal && c.run_is_current && c.coordinator_is_current {
        every_synced_update_is_sent(d, d.index + 1, c, spaces, j);
        let (next, action) = after_ack(d, c, spaces);
        if action == ReconcileActionView::Finish(QueueDrainResult::Complete) {
            assert forall|i: int| d.index < i < d.queue.len() implies !syncs(
                spaces,
                (#[trigger] d.queue[i]).space_id,
            ) by {
                assert(d.index + 1 <= i);
            }
        }
        if forall|i: int|
            d.index < i < d.queue.len() ==> !syncs(spaces, (#[trigger] d.queue[i]).space_id) {
            assert forall|i: int| d.index + 1 <= i < d.queue.len() implies !syncs(
                spaces,
                (#[trigger] d.queue[i]).space_id,
            ) by {}
        }
        if d.index < j < d.queue.len() && syncs(spaces, d.queue[j].space_id) && (forall|i: int|
            d.index < i < j ==> !syncs(spaces, (#[trigger] d.queue[i]).space_id)) {
            assert forall|i: int| d.index + 1 <= i < j implies !syncs(
                spaces,
                (#[trigger] d.queue[i]).space_id,
            ) by {}
        }
    }
}

/// What is sent is the update as it waits in the queue, under the identity that
/// its space has now. A device identifier that is not well formed is replaced
/// by the device's own, and what cannot be decoded is not sent.
pub proof fn updates_are_sent_as_queued(
    d: ReconcileDrainView,
    own_device: Seq<char>,
    c: DrainContextView,
    spaces: Seq<SpaceView>,
)
    requires
        0 <= d.index < d.queue.len(),
        c.run_is_current,
        c.coordinator_is_current,
    ensures
        after_document(d, true, c) == ReconcileActionView::Reserve(d.queue[d.index].space_id),
        after_document(d, false, c) == ReconcileActionView::Finish(QueueDrainResult::Paused),
        after_encoding(d, false, own_device, c, spaces) == (
            d,
            ReconcileActionView::Finish(QueueDrainResult::Paused),
        ),
        ({
            let q = d.queue[d.index];
            let (next, action) = after_encoding(d, true, own_device, c, spaces);
            &&& next == (ReconcileDrainView { stable_id: next.stable_id, ..d })
            &&& next.stable_id == identity_of(spaces, q.space_id)
            &&& action matches ReconcileActionView::Send(request) && {
                &&& request.protocol_version == d.limits.protocol_version
                &&& request.document_schema_version == d.limits.document_schema_version
                &&& request.space_id == q.space_id
                &&& request.stable_space_id == next.stable_id
                &&& request.mutation_id == q.mutation_id
                &&& request.update == q.update
                &&& request.state_vector == q.state_vector
                &&& q.local_generation matches Some(n) ==> request.local_generation == n
                &&& q.local_generation is None ==> request.local_generation == 0
                &&& q.last_server_sequence matches Some(n) ==> request.last_server_sequence == n
                &&& q.last_server_sequence is None ==> request.last_server_sequence == 0
                &&& q.device_id is None ==> request.device_id == own_device
                &&& q.device_id matches Some(device) ==> request.device_id == (if is_safe_text(
                    device,
                    128,
                ) {
                    device
                } else {
                    own_device
                })
            }
        }),
{
}

/// An answer counts only where it is complete, belongs to the very update that
/// was sent, and came for whom the update was made; then its documents are
/// taken in where they are not too large.
pub proof fn only_fitting_answers_count(
    d: ReconcileDrainView,
    reply: ReconcileReplyView,
    sizes: DecodedSizes,
    snapshot: usize,
    c: DrainContextView,
)
    requires
        0 <= d.index < d.queue.len(),
        c.run_is_current,
        c.coordinator_is_current,
    ensures
        ({
            let q = d.queue[d.index];
            let generation = if q.local_generation is Some {
                q.local_generation->0
            } else {
                0
            };
            let fits = reply.protocol_version == d.limits.protocol_version
                && reply.document_schema_version == d.limits.document_schema_version
                && reply.space_id == q.space_id && reply.mutation_id == q.mutation_id
                && reply.acknowledged_generation == generation && (d.stable_id is None
                || reply.stable_space_id == d.stable_id);
            let small = sizes.update <= d.limits.max_update_bytes && sizes.state_vector
                <= d.limits.max_state_vector_bytes;
            let own = q.principal is None || q.principal == Some(c.principal);
            let (next, action) = after_decoding(d, Some(sizes), c);
            &&& after_body(d, Some(reply), c) is Decode <==> fits
            &&& !fits ==> after_body(d, Some(reply), c) == ReconcileActionView::Finish(
                QueueDrainResult::Paused,
            )
            &&& after_body(d, None, c) == ReconcileActionView::Finish(QueueDrainResult::Retry)
            &&& action == ReconcileActionView::Apply(q.space_id) <==> small && own
            &&& !(small && own) ==> action == ReconcileActionView::Finish(QueueDrainResult::Paused)
            &&& small && own ==> next.principal == c.principal && next.update_bytes == sizes.update
                && next.queue == d.queue && next.index == d.index
            &&& after_decoding(d, None, c).1 == ReconcileActionView::Finish(
                QueueDrainResult::Paused,
            )
            &&& snapshot <= d.limits.max_snapshot_bytes ==> after_update(d, Some(snapshot))
                == ReconcileActionView::Commit(q.space_id, q.mutation_id, generation)
            &&& snapshot > d.limits.max_snapshot_bytes ==> after_update(d, Some(snapshot))
                == ReconcileActionView::Finish(QueueDrainResult::Retry)
            &&& after_update(d, None) == ReconcileActionView::Finish(QueueDrainResult::Retry)
        }),
{
}

/// An update whose answer was stored is taken out of the queue while its
/// principal is selected; one whose answer could not be stored stays for
/// another attempt. What the head of an answer means is the same as for the
/// metadata, but that a conflict makes the queue wait.
pub proof fn stored_answers_are_acknowledged(
    d: ReconcileDrainView,
    head: ReplyHeadView,
    c: DrainContextView,
)
    requires
        0 <= d.index < d.queue.len(),
        c.run_is_current,
        c.coordinator_is_current,
    ensures
        d.principal == c.principal ==> after_commit(d, true, c) == ReconcileActionView::Acknowledge(
            d.queue[d.index].space_id,
            d.queue[d.index].mutation_id,
        ),
        d.principal != c.principal ==> after_commit(d, true, c) == ReconcileActionView::Finish(
            QueueDrainResult::Paused,
        ),
        after_commit(d, false, c) == ReconcileActionView::Finish(QueueDrainResult::Retry),
        200 <= head.status <= 299 ==> after_reply(d, Some(head), c) is ReadBody,
        head.status == 401 && !d.auth_retry_used ==> after_reply(d, Some(head), c) is Refresh,
        head.status == 401 && d.auth_retry_used ==> after_reply(d, Some(head), c)
            == ReconcileActionView::Finish(QueueDrainResult::PausedAuth),
        head.status == 409 || head.status == 404 || head.status == 422 ==> after_reply(
            d,
            Some(head),
            c,
        ) == ReconcileActionView::Finish(QueueDrainResult::Paused),
        head.status == 503 && head.retry_after is None ==> after_reply(d, Some(head), c)
            == ReconcileActionView::Finish(QueueDrainResult::Retry),
        after_reply(d, None, c) == ReconcileActionView::Finish(QueueDrainResult::Retry),
{
}

/// No step but the last one reports that everything was sent: while an update
/// is at hand, an attempt never ends as complete before that update was
/// acknowledged.
pub proof fn unfinished_drains_are_not_complete(
    d: ReconcileDrainView,
    ok: bool,
    head: Option<ReplyHeadView>,
    reply: Option<ReconcileReplyView>,
    sizes: Option<DecodedSizes>,
    snapshot: Option<usize>,
    own_device: Seq<char>,
    c: DrainContextView,
    spaces: Seq<SpaceView>,
)
    requires
        0 <= d.index < d.queue.len(),
    ensures
        ({
            let complete = ReconcileActionView::Finish(QueueDrainResult::Complete);
            &&& after_document(d, ok, c) != complete
            &&& after_encoding(d, ok, own_device, c, spaces).1 != complete
            &&& after_reply(d, head, c) != complete
            &&& after_body(d, reply, c) != complete
            &&& after_decoding(d, sizes, c).1 != complete
            &&& after_update(d, snapshot) != complete
            &&& after_commit(d, ok, c) != complete
        }),
{
}

/// A drain whose run is over, or whose tab no longer sends, stops at every step
/// and says why; no answer is taken in for another principal.
pub proof fn stale_drains_stop(
    d: ReconcileDrainView,
    head: ReplyHeadView,
    reply: ReconcileReplyView,
    sizes: DecodedSizes,
    own_device: Seq<char>,
    c: DrainContextView,
    spaces: Seq<SpaceView>,
)
    requires
        0 <= d.index < d.queue.len(),
        !(c.run_is_current && c.coordinator_is_current),
    ensures
        ({
            let why = ReconcileActionView::Finish(
                if !c.run_is_current {
                    QueueDrainResult::Paused
                } else {
                    QueueDrainResult::CoordinatorLost
                },
            );
            &&& advanced(d, d.index, c, spaces) == (d, why)
            &&& after_document(d, true, c) == why
            &&& after_encoding(d, true, own_device, c, spaces) == (d, why)
            &&& after_reply(d, Some(head), c) == why
            &&& after_body(d, Some(reply), c) == why
            &&& !(after_decoding(d, Some(sizes), c).1 is Apply)
            &&& d.principal == c.principal ==> after_commit(d, true, c) == why
            &&& d.principal != c.principal ==> after_commit(d, true, c)
                == ReconcileActionView::Finish(QueueDrainResult::Paused)
        }),
{
}

/// What the server says of an attempt that it did not accept is how the attempt
/// ends.
pub proof fn refusals_end_the_attempt(d: ReconcileDrainView, head: ReplyHeadView, c: DrainContextView)
    requires
        c.run_is_current,
        c.coordinator_is_current,
    ensures
        classified(head) matches ReplyClass::Ended(result) ==> after_reply(d, Some(head), c)
            == ReconcileActionView::Finish(result),
{
}

} // verus!
