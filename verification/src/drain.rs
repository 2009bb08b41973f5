//! Emptying the queue of metadata changes into the server, one at a time.
//!
//! The drain decides; the caller sends requests and reports what came back.
//! Between any two steps the account may have changed, the run may have been
//! stopped or another tab may have taken over, so every step looks first.
use vstd::prelude::*;
use vstd::string::*;

use crate::lists::opt_view;
use crate::lists::views;
use crate::metadata::apply_metadata;
use crate::metadata::apply_tombstones;
use crate::metadata::is_satisfied;
use crate::metadata::metadata_operation_from_name;
use crate::metadata::metadata_operation_is_satisfied;
use crate::metadata::named_operation;
use crate::metadata::queue_in_order;
use crate::metadata::sort_metadata_updates;
use crate::metadata::space_with_metadata;
use crate::metadata::tombstones_after;
use crate::metadata::with_key;
use crate::metadata::ManifestView;
use crate::metadata::QueuedMetadataUpdate;
use crate::metadata::QueuedMetadataView;
use crate::metadata::RemoteMetadata;
use crate::metadata::RemoteMetadataView;
use crate::metadata::SpaceManifestEntry;
use crate::model::Space;
use crate::model::SpaceView;
use crate::model::Tombstone;
use crate::model::TombstoneKind;
use crate::model::TombstoneView;
use crate::spaces::with_space;
use crate::spaces::SpaceMetadataOperation;
use crate::text::clone_opt;
use crate::text::opt_text_eq;
use crate::text::parse_unsigned;
use crate::text::text_eq;
use crate::text::unsigned_value;
use crate::workspace::first_space;
use crate::workspace::position_of_space;

verus! {

/// How an attempt to empty the queue ends.
#[derive(Clone, Copy, Debug, PartialEq, Eq, Structural)]
pub enum QueueDrainResult {
    /// Everything was sent.
    Complete,
    /// Another attempt is worth making.
    Retry,
    /// Another attempt is worth making after some milliseconds.
    RetryAfter(i32),
    /// Another tab has taken over.
    CoordinatorLost,
    /// The queue has to wait.
    Paused,
    /// The queue has to wait until somebody signs in again.
    PausedAuth,
    /// The queue has to wait until the account may sync.
    PausedBilling,
}

/// The head of a response: its status and the headers that matter.
#[derive(Debug, PartialEq)]
pub struct ReplyHead {
    pub status: u16,
    pub retry_after: Option<String>,
    pub error_code: Option<String>,
}

/// The head of a response, its texts as characters.
pub struct ReplyHeadView {
    pub status: u16,
    pub retry_after: Option<Seq<char>>,
    pub error_code: Option<Seq<char>>,
}

impl View for ReplyHead {
    type V = ReplyHeadView;

    open spec fn view(&self) -> ReplyHeadView {
        ReplyHeadView {
            status: self.status,
            retry_after: opt_view(self.retry_after),
            error_code: opt_view(self.error_code),
        }
    }
}

/// How long the server asks to wait: at least a quarter of a second and at
/// most a minute.
pub open spec fn retry_result(retry_after: Option<Seq<char>>) -> QueueDrainResult {
    match retry_after {
        Some(text) => match unsigned_value(text, u64::MAX as nat) {
            Some(seconds) => QueueDrainResult::RetryAfter(
                if seconds == 0 {
                    250
                } else if seconds >= 60 {
                    60_000
                } else {
                    (seconds * 1_000) as i32
                },
            ),
            None => QueueDrainResult::Retry,
        },
        None => QueueDrainResult::Retry,
    }
}

/// How long the server asks to wait.
pub fn retry_result_for_response(retry_after: &Option<String>) -> (r: QueueDrainResult)
    ensures
        r == retry_result(opt_view(*retry_after)),
{
    match retry_after {
        Some(text) => match parse_unsigned(text, u64::MAX) {
            Some(seconds) => {
                if seconds == 0 {
                    QueueDrainResult::RetryAfter(250)
                } else if seconds >= 60 {
                    QueueDrainResult::RetryAfter(60_000)
                } else {
                    QueueDrainResult::RetryAfter(seconds as i32 * 1_000)
                }
            },
            None => QueueDrainResult::Retry,
        },
        None => QueueDrainResult::Retry,
    }
}

/// Whether a response says that the account may not sync.
pub open spec fn is_billing_pause(head: ReplyHeadView) -> bool {
    head.status == 403 && (head.error_code == Some("SYNC_NOT_ENTITLED"@) || head.error_code
        == Some("SYNC_PAYMENT_PAUSED"@))
}

/// Whether a response says that the account may not sync.
pub fn is_billing_pause_response(head: &ReplyHead) -> (r: bool)
    ensures
        r == is_billing_pause(head@),
{
    head.status == 403 && (match &head.error_code {
        Some(code) => text_eq(code, "SYNC_NOT_ENTITLED") || text_eq(code, "SYNC_PAYMENT_PAUSED"),
        None => false,
    })
}

/// What a response means for a queue.
#[derive(Clone, Copy, Debug, PartialEq, Eq, Structural)]
pub enum ReplyClass {
    /// The request succeeded.
    Success,
    /// The session has run out.
    AuthExpired,
    /// The server has something newer.
    Conflict,
    /// The attempt ends.
    Ended(QueueDrainResult),
}

/// What a response means for a queue.
pub open spec fn classified(head: ReplyHeadView) -> ReplyClass {
    let status = head.status;
    if 200 <= status < 300 {
        ReplyClass::Success
    } else if status == 408 || status == 425 || status == 429 || 500 <= status < 600 {
        ReplyClass::Ended(retry_result(head.retry_after))
    } else if status == 401 {
        ReplyClass::AuthExpired
    } else if is_billing_pause(head) {
        ReplyClass::Ended(QueueDrainResult::PausedBilling)
    } else if status == 409 {
        ReplyClass::Conflict
    } else {
        ReplyClass::Ended(QueueDrainResult::Paused)
    }
}

/// What a response means for a queue.
pub fn classify_reply(head: &ReplyHead) -> (r: ReplyClass)
    ensures
        r == classified(head@),
{
    let status: u16 = head.status;
    if 200 <= status && status < 300 {
        ReplyClass::Success
    } else if status == 408 || status == 425 || status == 429 || (500 <= status && status < 600) {
        ReplyClass::Ended(retry_result_for_response(&head.retry_after))
    } else if status == 401 {
        ReplyClass::AuthExpired
    } else if is_billing_pause_response(head) {
        ReplyClass::Ended(QueueDrainResult::PausedBilling)
    } else if status == 409 {
        ReplyClass::Conflict
    } else {
        ReplyClass::Ended(QueueDrainResult::Paused)
    }
}

/// What the world looks like at a step: whose namespace is selected, whether
/// this run was not stopped, and whether this tab still sends for all tabs.
#[derive(Debug, PartialEq)]
pub struct DrainContext {
    pub principal: String,
    pub run_is_current: bool,
    pub coordinator_is_current: bool,
}

/// What the world looks like at a step, as a view.
pub struct DrainContextView {
    pub principal: Seq<char>,
    pub run_is_current: bool,
    pub coordinator_is_current: bool,
}

impl View for DrainContext {
    type V = DrainContextView;

    open spec fn view(&self) -> DrainContextView {
        DrainContextView {
            principal: self.principal@,
            run_is_current: self.run_is_current,
            coordinator_is_current: self.coordinator_is_current,
        }
    }
}

/// Why a run has to end, if it has to.
pub open spec fn run_gate(c: DrainContextView) -> Option<QueueDrainResult> {
    if !c.run_is_current {
        Some(QueueDrainResult::Paused)
    } else if !c.coordinator_is_current {
        Some(QueueDrainResult::CoordinatorLost)
    } else {
        None
    }
}

/// Why work for a principal has to end, if it has to.
pub open spec fn gate(c: DrainContextView, principal: Seq<char>) -> Option<QueueDrainResult> {
    if principal != c.principal {
        Some(QueueDrainResult::Paused)
    } else {
        run_gate(c)
    }
}

/// Why a run has to end, if it has to.
pub fn check_run(c: &DrainContext) -> (r: Option<QueueDrainResult>)
    ensures
        r == run_gate(c@),
{
    if !c.run_is_current {
        Some(QueueDrainResult::Paused)
    } else if !c.coordinator_is_current {
        Some(QueueDrainResult::CoordinatorLost)
    } else {
        None
    }
}

/// Why work for a principal has to end, if it has to.
pub fn check_principal(c: &DrainContext, principal: &String) -> (r: Option<QueueDrainResult>)
    ensures
        r == gate(c@, principal@),
{
    if *principal != c.principal {
        Some(QueueDrainResult::Paused)
    } else {
        check_run(c)
    }
}

/// Whether a space is kept on the server; one that is not there is not.
pub open spec fn syncs(spaces: Seq<SpaceView>, id: u64) -> bool {
    let i = first_space(spaces, |s: SpaceView| s.id == id);
    i < spaces.len() && spaces[i].sync_enabled
}

/// The stable identity of a space, where it is there.
pub open spec fn identity_of(spaces: Seq<SpaceView>, id: u64) -> Option<Seq<char>> {
    let i = first_space(spaces, |s: SpaceView| s.id == id);
    if i < spaces.len() {
        Some(spaces[i].stable_id)
    } else {
        None
    }
}

/// Whether a space is kept on the server.
pub fn space_sync_enabled(spaces: &Vec<Space>, id: u64) -> (r: bool)
    ensures
        r == syncs(views(spaces@), id),
{
    let i = position_of_space(spaces, id);
    i < spaces.len() && spaces[i].sync_enabled
}

/// The stable identity of a space, where it is there.
pub fn stable_space_id(spaces: &Vec<Space>, id: u64) -> (r: Option<String>)
    ensures
        opt_view(r) == identity_of(views(spaces@), id),
{
    let i = position_of_space(spaces, id);
    if i < spaces.len() {
        Some(spaces[i].stable_id.clone())
    } else {
        None
    }
}

/// A request that sends a change of a space's metadata.
#[derive(Debug, PartialEq)]
pub struct MetadataRequest {
    pub protocol_version: u32,
    pub space_id: u64,
    pub stable_space_id: Option<String>,
    pub operation_id: String,
    pub operation: SpaceMetadataOperation,
    pub name: Option<String>,
    pub expected_version: Option<u64>,
}

/// A request that sends a change, its texts as characters.
pub struct MetadataRequestView {
    pub protocol_version: u32,
    pub space_id: u64,
    pub stable_space_id: Option<Seq<char>>,
    pub operation_id: Seq<char>,
    pub operation: SpaceMetadataOperation,
    pub name: Option<Seq<char>>,
    pub expected_version: Option<u64>,
}

impl View for MetadataRequest {
    type V = MetadataRequestView;

    open spec fn view(&self) -> MetadataRequestView {
        MetadataRequestView {
            protocol_version: self.protocol_version,
            space_id: self.space_id,
            stable_space_id: opt_view(self.stable_space_id),
            operation_id: self.operation_id@,
            operation: self.operation,
            name: opt_view(self.name),
            expected_version: self.expected_version,
        }
    }
}

/// The body of the server's answer to a change.
#[derive(Debug, PartialEq)]
pub struct MetadataReply {
    pub protocol_version: u32,
    pub space_id: u64,
    pub stable_space_id: Option<String>,
    pub name: String,
    pub archived: bool,
    pub metadata_version: u64,
    pub deleted_at: Option<u64>,
}

/// The body of the server's answer, its texts as characters.
pub struct MetadataReplyView {
    pub protocol_version: u32,
    pub space_id: u64,
    pub stable_space_id: Option<Seq<char>>,
    pub name: Seq<char>,
    pub archived: bool,
    pub metadata_version: u64,
    pub deleted_at: Option<u64>,
}

impl View for MetadataReply {
    type V = MetadataReplyView;

    open spec fn view(&self) -> MetadataReplyView {
        MetadataReplyView {
            protocol_version: self.protocol_version,
            space_id: self.space_id,
            stable_space_id: opt_view(self.stable_space_id),
            name: self.name@,
            archived: self.archived,
            metadata_version: self.metadata_version,
            deleted_at: self.deleted_at,
        }
    }
}

/// What has to be done next.
#[derive(Debug, PartialEq)]
pub enum DrainAction {
    /// Send a change.
    Send(MetadataRequest),
    /// Read the body of the answer.
    ReadBody,
    /// Renew the session.
    Refresh,
    /// Ask the server how a space stands.
    FetchRemote(u64),
    /// Save the workspace, then take the change of this space and operation
    /// out of the stored queue.
    SaveAndAck(u64, String),
    /// Store the version that the change of this space and operation is now
    /// based on.
    Rebase(u64, String, Option<u64>),
    /// The attempt is over.
    Finish(QueueDrainResult),
}

/// What has to be done next, as a view.
pub enum DrainActionView {
    Send(MetadataRequestView),
    ReadBody,
    Refresh,
    FetchRemote(u64),
    SaveAndAck(u64, Seq<char>),
    Rebase(u64, Seq<char>, Option<u64>),
    Finish(QueueDrainResult),
}

impl View for DrainAction {
    type V = DrainActionView;

    open spec fn view(&self) -> DrainActionView {
        match self {
            DrainAction::Send(r) => DrainActionView::Send(r@),
            DrainAction::ReadBody => DrainActionView::ReadBody,
            DrainAction::Refresh => DrainActionView::Refresh,
            DrainAction::FetchRemote(id) => DrainActionView::FetchRemote(*id),
            DrainAction::SaveAndAck(id, op) => DrainActionView::SaveAndAck(*id, op@),
            DrainAction::Rebase(id, op, v) => DrainActionView::Rebase(*id, op@, *v),
            DrainAction::Finish(r) => DrainActionView::Finish(*r),
        }
    }
}

/// The state of an attempt to empty the queue.
#[derive(Debug, PartialEq)]
pub struct MetadataDrain {
    pub protocol_version: u32,
    pub queue: Vec<QueuedMetadataUpdate>,
    /// The position of the change that is being sent.
    pub index: usize,
    /// For whom it is sent.
    pub principal: String,
    /// The identity of its space that was sent along.
    pub stable_id: Option<String>,
    pub auth_retry_used: bool,
    /// Whether the server said that something newer replaces the change.
    pub superseded: bool,
}

/// The state of an attempt, as a view.
pub struct MetadataDrainView {
    pub protocol_version: u32,
    pub queue: Seq<QueuedMetadataView>,
    pub index: int,
    pub principal: Seq<char>,
    pub stable_id: Option<Seq<char>>,
    pub auth_retry_used: bool,
    pub superseded: bool,
}

impl View for MetadataDrain {
    type V = MetadataDrainView;

    open spec fn view(&self) -> MetadataDrainView {
        MetadataDrainView {
            protocol_version: self.protocol_version,
            queue: views(self.queue@),
            index: self.index as int,
            principal: self.principal@,
            stable_id: opt_view(self.stable_id),
            auth_retry_used: self.auth_retry_used,
            superseded: self.superseded,
        }
    }
}

/// The request for the change at hand.
pub open spec fn request_for(
    d: MetadataDrainView,
    operation: SpaceMetadataOperation,
) -> MetadataRequestView {
    let q = d.queue[d.index];
    MetadataRequestView {
        protocol_version: d.protocol_version,
        space_id: q.space_id,
        stable_space_id: d.stable_id,
        operation_id: q.operation_id,
        operation,
        name: q.name,
        expected_version: q.expected_version,
    }
}

/// For whom a change is sent: for whom it was made, or for the namespace that
/// is selected.
pub open spec fn owner_of(q: QueuedMetadataView, c: DrainContextView) -> Seq<char> {
    match q.principal {
        Some(principal) => principal,
        None => c.principal,
    }
}

/// The drain at the change of the given position or the first one after it
/// that has to be sent, and the action that follows. Changes of spaces that
/// stay on the device are passed over.
pub open spec fn advanced(
    d: MetadataDrainView,
    index: int,
    c: DrainContextView,
    spaces: Seq<SpaceView>,
) -> (MetadataDrainView, DrainActionView)
    decreases d.queue.len() - index,
{
    if index < 0 || index >= d.queue.len() {
        (
            MetadataDrainView { index, ..d },
            DrainActionView::Finish(QueueDrainResult::Complete),
        )
    } else {
        let q = d.queue[index];
        let here = MetadataDrainView {
            index,
            principal: owner_of(q, c),
            stable_id: identity_of(spaces, q.space_id),
            ..d
        };
        match gate(c, owner_of(q, c)) {
            Some(result) => (here, DrainActionView::Finish(result)),
            None => if !syncs(spaces, q.space_id) {
                advanced(d, index + 1, c, spaces)
            } else {
                match named_operation(q.operation) {
                    None => (here, DrainActionView::Finish(QueueDrainResult::Paused)),
                    Some(operation) => (
                        here,
                        DrainActionView::Send(request_for(here, operation)),
                    ),
                }
            },
        }
    }
}

/// The operation of the change at hand, where there is one.
pub open spec fn operation_at(d: MetadataDrainView) -> Option<SpaceMetadataOperation> {
    if 0 <= d.index < d.queue.len() {
        named_operation(d.queue[d.index].operation)
    } else {
        None
    }
}

/// The step after the head of an answer came, or the request failed.
pub open spec fn after_reply(
    d: MetadataDrainView,
    head: Option<ReplyHeadView>,
    c: DrainContextView,
) -> (MetadataDrainView, DrainActionView) {
    match head {
        None => (d, DrainActionView::Finish(QueueDrainResult::Retry)),
        Some(head) => match gate(c, d.principal) {
            Some(result) => (d, DrainActionView::Finish(result)),
            None => match classified(head) {
                ReplyClass::Success => (d, DrainActionView::ReadBody),
                ReplyClass::AuthExpired => if d.auth_retry_used {
                    (d, DrainActionView::Finish(QueueDrainResult::PausedAuth))
                } else {
                    (d, DrainActionView::Refresh)
                },
                ReplyClass::Conflict => if 0 <= d.index < d.queue.len() {
                    (
                        MetadataDrainView {
                            superseded: head.error_code == Some(
                                "METADATA_CONFLICT_SUPERSEDED"@,
                            ),
                            ..d
                        },
                        DrainActionView::FetchRemote(d.queue[d.index].space_id),
                    )
                } else {
                    (d, DrainActionView::Finish(QueueDrainResult::Complete))
                },
                ReplyClass::Ended(result) => (d, DrainActionView::Finish(result)),
            },
        },
    }
}

/// Whether an answer belongs to the change at hand.
pub open spec fn reply_matches(d: MetadataDrainView, reply: MetadataReplyView) -> bool {
    &&& reply.protocol_version == d.protocol_version
    &&& reply.space_id == d.queue[d.index].space_id
    &&& d.stable_id is Some ==> reply.stable_space_id == d.stable_id
}

/// The metadata that an answer brings; `legacy` stands in for an identity that
/// it does not name.
pub open spec fn reply_metadata(reply: MetadataReplyView, legacy: Seq<char>) -> RemoteMetadataView {
    RemoteMetadataView {
        space_id: reply.space_id,
        stable_id: match reply.stable_space_id {
            Some(id) => id,
            None => legacy,
        },
        name: reply.name,
        archived: reply.archived,
        metadata_version: reply.metadata_version,
        deleted_at: reply.deleted_at,
    }
}

/// The metadata that an entry of the server's list brings.
pub open spec fn manifest_metadata(remote: ManifestView) -> RemoteMetadataView {
    RemoteMetadataView {
        space_id: remote.id,
        stable_id: remote.stable_id,
        name: remote.name,
        archived: remote.archived,
        metadata_version: remote.metadata_version,
        deleted_at: remote.deleted_at,
    }
}

/// What the device holds while a queue is emptied.
pub struct HeldView {
    pub spaces: Seq<SpaceView>,
    pub tombstones: Seq<TombstoneView>,
}

/// What the device holds after the server's metadata was taken over.
pub open spec fn settled(
    h: HeldView,
    operation: SpaceMetadataOperation,
    m: RemoteMetadataView,
    now: u64,
) -> HeldView {
    HeldView {
        spaces: with_space(h.spaces, m.space_id, |s: SpaceView| space_with_metadata(s, m)),
        tombstones: tombstones_after(h.tombstones, operation, m, now),
    }
}

/// The action that takes the change at hand out of the stored queue.
pub open spec fn acknowledge(d: MetadataDrainView) -> DrainActionView {
    DrainActionView::SaveAndAck(
        d.queue[d.index].space_id,
        d.queue[d.index].operation_id,
    )
}

/// The step after the body of an answer was read, or could not be.
pub open spec fn after_body(
    d: MetadataDrainView,
    reply: Option<MetadataReplyView>,
    legacy: Seq<char>,
    c: DrainContextView,
    h: HeldView,
    now: u64,
) -> (HeldView, DrainActionView) {
    match (reply, operation_at(d)) {
        (None, _) => (h, DrainActionView::Finish(QueueDrainResult::Retry)),
        (Some(_), None) => (h, DrainActionView::Finish(QueueDrainResult::Complete)),
        (Some(reply), Some(operation)) => match gate(c, d.principal) {
            Some(result) => (h, DrainActionView::Finish(result)),
            None => if !reply_matches(d, reply) {
                (h, DrainActionView::Finish(QueueDrainResult::Paused))
            } else {
                (settled(h, operation, reply_metadata(reply, legacy), now), acknowledge(d))
            },
        },
    }
}

/// Whether a conflict is over: the server has something newer, the space is as
/// the change would make it, or it is deleted and not to be restored.
pub open spec fn conflict_is_over(
    d: MetadataDrainView,
    operation: SpaceMetadataOperation,
    remote: ManifestView,
) -> bool {
    ||| d.superseded
    ||| is_satisfied(operation, d.queue[d.index].name, remote)
    ||| remote.deleted_at is Some && operation != SpaceMetadataOperation::Restore
}

/// The drain with the change at hand based on another version.
pub open spec fn based_on(d: MetadataDrainView, version: u64) -> MetadataDrainView {
    MetadataDrainView {
        queue: d.queue.update(
            d.index,
            QueuedMetadataView { expected_version: Some(version), ..d.queue[d.index] },
        ),
        ..d
    }
}

/// The step after the server said how a space stands, or did not.
pub open spec fn after_remote(
    d: MetadataDrainView,
    remote: Option<ManifestView>,
    c: DrainContextView,
    h: HeldView,
    now: u64,
) -> (MetadataDrainView, HeldView, DrainActionView) {
    match (remote, operation_at(d)) {
        (None, _) => (d, h, DrainActionView::Finish(QueueDrainResult::Retry)),
        (Some(_), None) => (d, h, DrainActionView::Finish(QueueDrainResult::Complete)),
        (Some(remote), Some(operation)) => match gate(c, d.principal) {
            Some(result) => (d, h, DrainActionView::Finish(result)),
            None => if conflict_is_over(d, operation, remote) {
                (d, settled(h, operation, manifest_metadata(remote), now), acknowledge(d))
            } else {
                (
                    based_on(d, remote.metadata_version),
                    h,
                    DrainActionView::Rebase(
                        d.queue[d.index].space_id,
                        d.queue[d.index].operation_id,
                        Some(remote.metadata_version),
                    ),
                )
            },
        },
    }
}

/// The step after the new version was stored, or was not: the change is sent
/// again.
pub open spec fn after_rebase(
    d: MetadataDrainView,
    stored: bool,
    c: DrainContextView,
    spaces: Seq<SpaceView>,
) -> (MetadataDrainView, DrainActionView) {
    match operation_at(d) {
        None => (d, DrainActionView::Finish(QueueDrainResult::Complete)),
        Some(operation) => if !stored {
            (d, DrainActionView::Finish(QueueDrainResult::Retry))
        } else {
            match gate(c, d.principal) {
                Some(result) => (d, DrainActionView::Finish(result)),
                None => {
                    let next = MetadataDrainView {
                        stable_id: identity_of(spaces, d.queue[d.index].space_id),
                        ..d
                    };
                    (next, DrainActionView::Send(request_for(next, operation)))
                },
            }
        },
    }
}

/// The step after a change was taken out of the stored queue: whether the
/// server's answer counts, and how it goes on.
pub open spec fn after_ack(
    d: MetadataDrainView,
    c: DrainContextView,
    spaces: Seq<SpaceView>,
) -> (bool, MetadataDrainView, DrainActionView) {
    match gate(c, d.principal) {
        Some(result) => (false, d, DrainActionView::Finish(result)),
        None => if 0 <= d.index < d.queue.len() {
            let (next, action) = advanced(d, d.index + 1, c, spaces);
            (true, next, action)
        } else {
            (false, d, DrainActionView::Finish(QueueDrainResult::Complete))
        },
    }
}

/// How an attempt ends whose queue could not be read: one that is there but
/// makes no sense is kept and waits.
pub fn unread_queue(malformed: bool) -> (r: QueueDrainResult)
    ensures
        r == (if malformed {
            QueueDrainResult::Paused
        } else {
            QueueDrainResult::Retry
        }),
{
    if malformed {
        QueueDrainResult::Paused
    } else {
        QueueDrainResult::Retry
    }
}

/// How the documents' queue follows that of the metadata: it is emptied only
/// once the other is empty, and else the attempt ends as the other one did.
pub fn documents_follow(metadata: QueueDrainResult) -> (r: Option<QueueDrainResult>)
    ensures
        r == (if metadata == QueueDrainResult::Complete {
            None
        } else {
            Some(metadata)
        }),
{
    match metadata {
        QueueDrainResult::Complete => None,
        _ => Some(metadata),
    }
}

impl MetadataDrain {
    fn at(&self) -> (r: Option<SpaceMetadataOperation>)
        ensures
            r == operation_at(self@),
    {
        if self.index < self.queue.len() {
            metadata_operation_from_name(&self.queue[self.index].operation)
        } else {
            None
        }
    }

    fn request(&self, operation: SpaceMetadataOperation) -> (r: MetadataRequest)
        requires
            self.index < self.queue@.len(),
        ensures
            r@ == request_for(self@, operation),
    {
        let q = &self.queue[self.index];
        MetadataRequest {
            protocol_version: self.protocol_version,
            space_id: q.space_id,
            stable_space_id: clone_opt(&self.stable_id),
            operation_id: q.operation_id.clone(),
            operation,
            name: clone_opt(&q.name),
            expected_version: q.expected_version,
        }
    }

    fn advance(&mut self, from: usize, c: &DrainContext, spaces: &Vec<Space>) -> (r: DrainAction)
        ensures
            (final(self)@, r@) == advanced(old(self)@, from as int, c@, views(spaces@)),
            final(self).queue@ == old(self).queue@,
    {
        let ghost d = self@;
        let ghost queue = self.queue@;
        self.index = from;
        while self.index < self.queue.len()
            invariant
                d == old(self)@,
                queue == old(self).queue@,
                self.queue@ == queue,
                d.queue == views(queue),
                self@ == (MetadataDrainView { index: self@.index, ..d }),
                from <= self.index,
                advanced(d, from as int, c@, views(spaces@)) == advanced(
                    d,
                    self.index as int,
                    c@,
                    views(spaces@),
                ),
            decreases queue.len() - self.index,
        {
            let space_id: u64 = self.queue[self.index].space_id;
            assert(d.queue[self.index as int] == queue[self.index as int]@);
            let owner = match &self.queue[self.index].principal {
                Some(principal) => principal.clone(),
                None => c.principal.clone(),
            };
            let blocked = check_principal(c, &owner);
            if let Some(result) = blocked {
                self.principal = owner;
                self.stable_id = stable_space_id(spaces, space_id);
                return DrainAction::Finish(result);
            }
            if space_sync_enabled(spaces, space_id) {
                self.principal = owner;
                self.stable_id = stable_space_id(spaces, space_id);
                return match self.at() {
                    None => DrainAction::Finish(QueueDrainResult::Paused),
                    Some(operation) => DrainAction::Send(self.request(operation)),
                };
            }
            self.index = self.index + 1;
        }
        DrainAction::Finish(QueueDrainResult::Complete)
    }

    /// Starts on a queue. It is sent in the order in which the changes were
    /// made.
    pub fn start(
        protocol_version: u32,
        queue: Vec<QueuedMetadataUpdate>,
        auth_retry_used: bool,
        c: &DrainContext,
        spaces: &Vec<Space>,
    ) -> (r: (Self, DrainAction))
        ensures
            queue_in_order(r.0@.queue),
            forall|key: (u64, Seq<char>)|
                #[trigger] with_key(r.0@.queue, key) == with_key(views(queue@), key),
            ({
                let first = MetadataDrainView {
                    protocol_version,
                    queue: r.0@.queue,
                    index: 0,
                    principal: c@.principal,
                    stable_id: None,
                    auth_retry_used,
                    superseded: false,
                };
                (r.0@, r.1@) == (match run_gate(c@) {
                    Some(result) => (first, DrainActionView::Finish(result)),
                    None => advanced(first, 0, c@, views(spaces@)),
                })
            }),
    {
        let sorted = sort_metadata_updates(queue);
        let mut drain = MetadataDrain {
            protocol_version,
            queue: sorted,
            index: 0,
            principal: c.principal.clone(),
            stable_id: None,
            auth_retry_used,
            superseded: false,
        };
        match check_run(c) {
            Some(result) => (drain, DrainAction::Finish(result)),
            None => {
                let action = drain.advance(0, c, spaces);
                (drain, action)
            },
        }
    }

    /// The head of an answer came, or the request failed.
    pub fn replied(&mut self, head: Option<ReplyHead>, c: &DrainContext) -> (r: DrainAction)
        ensures
            (final(self)@, r@) == after_reply(old(self)@, opt_view(head), c@),
    {
        let head = match head {
            None => return DrainAction::Finish(QueueDrainResult::Retry),
            Some(head) => head,
        };
        if let Some(result) = check_principal(c, &self.principal) {
            return DrainAction::Finish(result);
        }
        match classify_reply(&head) {
            ReplyClass::Success => DrainAction::ReadBody,
            ReplyClass::AuthExpired => {
                if self.auth_retry_used {
                    DrainAction::Finish(QueueDrainResult::PausedAuth)
                } else {
                    DrainAction::Refresh
                }
            },
            ReplyClass::Conflict => {
                if self.index < self.queue.len() {
                    self.superseded = match &head.error_code {
                        Some(code) => text_eq(code, "METADATA_CONFLICT_SUPERSEDED"),
                        None => false,
                    };
                    DrainAction::FetchRemote(self.queue[self.index].space_id)
                } else {
                    DrainAction::Finish(QueueDrainResult::Complete)
                }
            },
            ReplyClass::Ended(result) => DrainAction::Finish(result),
        }
    }

    /// The session was renewed, or could not be. One renewal is worth another
    /// attempt.
    pub fn refreshed(&mut self, renewed: bool) -> (r: DrainAction)
        ensures
            final(self)@ == (MetadataDrainView {
                auth_retry_used: old(self)@.auth_retry_used || renewed,
                ..old(self)@
            }),
            r@ == DrainActionView::Finish(
                if renewed {
                    QueueDrainResult::Retry
                } else {
                    QueueDrainResult::PausedAuth
                },
            ),
    {
        if renewed {
            self.auth_retry_used = true;
            DrainAction::Finish(QueueDrainResult::Retry)
        } else {
            DrainAction::Finish(QueueDrainResult::PausedAuth)
        }
    }

    fn ack(&self) -> (r: DrainAction)
        requires
            self.index < self.queue@.len(),
        ensures
            r@ == acknowledge(self@),
    {
        DrainAction::SaveAndAck(
            self.queue[self.index].space_id,
            self.queue[self.index].operation_id.clone(),
        )
    }

    /// The body of the answer was read, or could not be.
    pub fn body(
        &self,
        reply: Option<MetadataReply>,
        legacy: &String,
        c: &DrainContext,
        spaces: &mut Vec<Space>,
        tombstones: &mut Vec<Tombstone>,
        now: u64,
    ) -> (r: DrainAction)
        ensures
            (
                HeldView { spaces: views(final(spaces)@), tombstones: views(final(tombstones)@) },
                r@,
            ) == after_body(
                self@,
                opt_view(reply),
                legacy@,
                c@,
                HeldView { spaces: views(old(spaces)@), tombstones: views(old(tombstones)@) },
                now,
            ),
    {
        let reply = match reply {
            None => return DrainAction::Finish(QueueDrainResult::Retry),
            Some(reply) => reply,
        };
        let operation = match self.at() {
            None => return DrainAction::Finish(QueueDrainResult::Complete),
            Some(operation) => operation,
        };
        if let Some(result) = check_principal(c, &self.principal) {
            return DrainAction::Finish(result);
        }
        assert(self@.queue[self.index as int] == self.queue@[self.index as int]@);
        if reply.protocol_version != self.protocol_version || reply.space_id
            != self.queue[self.index].space_id || (self.stable_id.is_some() && !opt_text_eq(
            &reply.stable_space_id,
            &self.stable_id,
        )) {
            return DrainAction::Finish(QueueDrainResult::Paused);
        }
        let m = RemoteMetadata {
            space_id: reply.space_id,
            stable_id: match &reply.stable_space_id {
                Some(id) => id.clone(),
                None => legacy.clone(),
            },
            name: reply.name,
            archived: reply.archived,
            metadata_version: reply.metadata_version,
            deleted_at: reply.deleted_at,
        };
        *spaces = apply_metadata(spaces, &m);
        *tombstones = apply_tombstones(tombstones, operation, &m, now);
        self.ack()
    }

    /// The server said how the space stands, or did not.
    pub fn remote(
        &mut self,
        remote: Option<SpaceManifestEntry>,
        c: &DrainContext,
        spaces: &mut Vec<Space>,
        tombstones: &mut Vec<Tombstone>,
        now: u64,
    ) -> (r: DrainAction)
        ensures
            (
                final(self)@,
                HeldView { spaces: views(final(spaces)@), tombstones: views(final(tombstones)@) },
                r@,
            ) == after_remote(
                old(self)@,
                opt_view(remote),
                c@,
                HeldView { spaces: views(old(spaces)@), tombstones: views(old(tombstones)@) },
                now,
            ),
    {
        let remote = match remote {
            None => return DrainAction::Finish(QueueDrainResult::Retry),
            Some(remote) => remote,
        };
        let operation = match self.at() {
            None => return DrainAction::Finish(QueueDrainResult::Complete),
            Some(operation) => operation,
        };
        if let Some(result) = check_principal(c, &self.principal) {
            return DrainAction::Finish(result);
        }
        assert(self@.queue[self.index as int] == self.queue@[self.index as int]@);
        if self.superseded || metadata_operation_is_satisfied(
            operation,
            &self.queue[self.index].name,
            &remote,
        ) || (remote.deleted_at.is_some() && operation != SpaceMetadataOperation::Restore) {
            let m = RemoteMetadata {
                space_id: remote.id,
                stable_id: remote.stable_id.clone(),
                name: remote.name.clone(),
                archived: remote.archived,
                metadata_version: remote.metadata_version,
                deleted_at: remote.deleted_at,
            };
            *spaces = apply_metadata(spaces, &m);
            *tombstones = apply_tombstones(tombstones, operation, &m, now);
            return self.ack();
        }
        let ghost before = self@;
        let ghost items = self.queue@;
        let q = &self.queue[self.index];
        let space_id: u64 = q.space_id;
        let operation_id = q.operation_id.clone();
        let updated = QueuedMetadataUpdate {
            principal: clone_opt(&q.principal),
            space_id: q.space_id,
            operation_id: q.operation_id.clone(),
            operation: q.operation.clone(),
            name: clone_opt(&q.name),
            expected_version: Some(remote.metadata_version),
            created_at: q.created_at,
        };
        let ghost changed = updated@;
        self.queue.set(self.index, updated);
        assert(self@.queue =~= before.queue.update(self.index as int, changed));
        DrainAction::Rebase(space_id, operation_id, Some(remote.metadata_version))
    }

    /// The new version was stored, or was not.
    pub fn rebased(&mut self, stored: bool, c: &DrainContext, spaces: &Vec<Space>) -> (r: DrainAction)
        ensures
            (final(self)@, r@) == after_rebase(old(self)@, stored, c@, views(spaces@)),
    {
        let operation = match self.at() {
            None => return DrainAction::Finish(QueueDrainResult::Complete),
            Some(operation) => operation,
        };
        if !stored {
            return DrainAction::Finish(QueueDrainResult::Retry);
        }
        if let Some(result) = check_principal(c, &self.principal) {
            return DrainAction::Finish(result);
        }
        assert(self@.queue[self.index as int] == self.queue@[self.index as int]@);
        self.stable_id = stable_space_id(spaces, self.queue[self.index].space_id);
        DrainAction::Send(self.request(operation))
    }

    /// The change was taken out of the stored queue. Says whether the server's
    /// answer counts, and how it goes on.
    pub fn acked(&mut self, c: &DrainContext, spaces: &Vec<Space>) -> (r: (bool, DrainAction))
        ensures
            (r.0, final(self)@, r.1@) == after_ack(old(self)@, c@, views(spaces@)),
    {
        if let Some(result) = check_principal(c, &self.principal) {
            return (false, DrainAction::Finish(result));
        }
        if self.index >= self.queue.len() {
            return (false, DrainAction::Finish(QueueDrainResult::Complete));
        }
        let action = self.advance(self.index + 1, c, spaces);
        (true, action)
    }
}

/// What is sent belongs to a space that is kept on the server, and is sent for
/// the namespace that is selected, by a run that was not stopped, from the tab
/// that sends for all tabs.
pub proof fn only_synced_spaces_are_sent(
    d: MetadataDrainView,
    index: int,
    c: DrainContextView,
    spaces: Seq<SpaceView>,
)
    requires
        0 <= index,
    ensures
        ({
            let (next, action) = advanced(d, index, c, spaces);
            &&& next.queue == d.queue
            &&& index <= next.index
            &&& !(action is SaveAndAck) && !(action is Rebase)
            &&& action matches DrainActionView::Send(request) ==> {
                &&& syncs(spaces, request.space_id)
                &&& next.principal == c.principal
                &&& run_gate(c) is None
                &&& next.index < d.queue.len()
                &&& request.operation_id == d.queue[next.index].operation_id
            }
        }),
    decreases d.queue.len() - index,
{
    if index < d.queue.len() && gate(c, owner_of(d.queue[index], c)) is None && !syncs(
        spaces,
        d.queue[index].space_id,
    ) {
        only_synced_spaces_are_sent(d, index + 1, c, spaces);
    }
}

/// A change leaves the stored queue only once the server has answered it: with
/// a matching success, or with a state of the space that settles it.
pub proof fn nothing_leaves_the_queue_unanswered(
    d: MetadataDrainView,
    head: Option<ReplyHeadView>,
    reply: Option<MetadataReplyView>,
    remote: Option<ManifestView>,
    legacy: Seq<char>,
    c: DrainContextView,
    h: HeldView,
    now: u64,
)
    ensures
        !(after_reply(d, head, c).1 is SaveAndAck),
        after_body(d, reply, legacy, c, h, now).1 is SaveAndAck ==> {
            &&& reply matches Some(answer) && reply_matches(d, answer)
            &&& gate(c, d.principal) is None
        },
        after_remote(d, remote, c, h, now).2 is SaveAndAck ==> {
            &&& remote matches Some(entry) && (operation_at(d) matches Some(operation)
                && conflict_is_over(d, operation, entry))
            &&& gate(c, d.principal) is None
        },
{
}

/// A space syncs exactly where the first space of its id is marked so.
pub proof fn spaces_sync_by_their_flag(spaces: Seq<SpaceView>, id: u64, i: int)
    ensures
        0 <= i < spaces.len() && spaces[i].id == id && (forall|j: int|
            0 <= j < i ==> (#[trigger] spaces[j]).id != id) ==> syncs(spaces, id)
            == spaces[i].sync_enabled && identity_of(spaces, id) == Some(spaces[i].stable_id),
        (forall|j: int| 0 <= j < spaces.len() ==> (#[trigger] spaces[j]).id != id) ==> !syncs(
            spaces,
            id,
        ) && identity_of(spaces, id) is None,
{
    let pred = |s: SpaceView| s.id == id;
    crate::workspace::first_space_is_least(spaces, pred);
    let k = first_space(spaces, pred);
    if 0 <= i < spaces.len() && spaces[i].id == id && (forall|j: int|
        0 <= j < i ==> (#[trigger] spaces[j]).id != id) {
        assert(pred(spaces[i]));
        if k < i {
            assert(pred(spaces[k]));
        }
    }
    if forall|j: int| 0 <= j < spaces.len() ==> (#[trigger] spaces[j]).id != id {
        if k < spaces.len() {
            assert(pred(spaces[k]));
        }
    }
}

/// Work for a principal goes on exactly while that principal is selected, the
/// run was not stopped and this tab sends for all tabs; another tab that took
/// over is told apart from a stop.
pub proof fn work_goes_on_only_while_current(c: DrainContextView, principal: Seq<char>)
    ensures
        gate(c, principal) is None <==> c.principal == principal && c.run_is_current
            && c.coordinator_is_current,
        run_gate(c) is None <==> c.run_is_current && c.coordinator_is_current,
        c.principal != principal || !c.run_is_current ==> gate(c, principal) == Some(
            QueueDrainResult::Paused,
        ),
        c.principal == principal && c.run_is_current && !c.coordinator_is_current ==> gate(
            c,
            principal,
        ) == Some(QueueDrainResult::CoordinatorLost),
        !c.run_is_current ==> run_gate(c) == Some(QueueDrainResult::Paused),
        c.run_is_current && !c.coordinator_is_current ==> run_gate(c) == Some(
            QueueDrainResult::CoordinatorLost,
        ),
{
}

/// The drain goes on to the first change that has to be sent, wherever it is in
/// the queue, and is complete only where there is none: `j` is a later place
/// whose space syncs. Nothing of the queue is lost on the way.
pub proof fn every_synced_change_is_sent(
    d: MetadataDrainView,
    from: int,
    c: DrainContextView,
    spaces: Seq<SpaceView>,
    j: int,
)
    requires
        0 <= from,
        c.run_is_current,
        c.coordinator_is_current,
        forall|i: int|
            0 <= i < d.queue.len() ==> (#[trigger] d.queue[i]).principal is None
                || d.queue[i].principal == Some(c.principal),
    ensures
        ({
            let (next, action) = advanced(d, from, c, spaces);
            &&& next.queue == d.queue
            &&& next.auth_retry_used == d.auth_retry_used
            &&& next.protocol_version == d.protocol_version
            &&& action == DrainActionView::Finish(QueueDrainResult::Complete) ==> forall|i: int|
                from <= i < d.queue.len() ==> !syncs(spaces, (#[trigger] d.queue[i]).space_id)
            &&& from <= j < d.queue.len() && syncs(spaces, d.queue[j].space_id) && (forall|i: int|
                from <= i < j ==> !syncs(spaces, (#[trigger] d.queue[i]).space_id)) ==> {
                &&& next.index == j
                &&& next.principal == c.principal
                &&& named_operation(d.queue[j].operation) is None ==> action
                    == DrainActionView::Finish(QueueDrainResult::Paused)
                &&& named_operation(d.queue[j].operation) matches Some(operation) ==> {
                    &&& action matches DrainActionView::Send(request) && {
                        &&& request.protocol_version == d.protocol_version
                        &&& request.space_id == d.queue[j].space_id
                        &&& request.stable_space_id == identity_of(
                            spaces,
                            d.queue[j].space_id,
                        )
                        &&& request.operation_id == d.queue[j].operation_id
                        &&& request.operation == operation
                        &&& request.name == d.queue[j].name
                        &&& request.expected_version == d.queue[j].expected_version
                    }
                }
            }
        }),
    decreases d.queue.len() - from,
{
    if from < d.queue.len() {
        assert(owner_of(d.queue[from], c) == c.principal);
        if !syncs(spaces, d.queue[from].space_id) {
            every_synced_change_is_sent(d, from + 1, c, spaces, j);
        }
    }
}

/// After a change was taken out of the stored queue, the drain goes on behind
/// it, and is complete only where no later change is to be sent.
pub proof fn drains_go_through_the_queue(
    d: MetadataDrainView,
    c: DrainContextView,
    spaces: Seq<SpaceView>,
    j: int,
)
    requires
        0 <= d.index < d.queue.len(),
        forall|i: int|
            0 <= i < d.queue.len() ==> (#[trigger] d.queue[i]).principal is None
                || d.queue[i].principal == Some(c.principal),
    ensures
        ({
            let (counts, next, action) = after_ack(d, c, spaces);
            let current = d.principal == c.principal && c.run_is_current
                && c.coordinator_is_current;
            &&& counts == current
            &&& !current ==> next == d && action is Finish && action != DrainActionView::Finish(
                QueueDrainResult::Complete,
            )
            &&& action == DrainActionView::Finish(QueueDrainResult::Complete) ==> forall|i: int|
                d.index < i < d.queue.len() ==> !syncs(spaces, (#[trigger] d.queue[i]).space_id)
            &&& current && d.index < j < d.queue.len() && syncs(spaces, d.queue[j].space_id) && (
            forall|i: int| d.index < i < j ==> !syncs(spaces, (#[trigger] d.queue[i]).space_id))
                ==> {
                &&& next.index == j
                &&& named_operation(d.queue[j].operation) is Some ==> (action
                    matches DrainActionView::Send(request) && request.operation_id
                    == d.queue[j].operation_id && request.space_id == d.queue[j].space_id)
            }
        }),
{
    if d.principal == c.principal && c.run_is_current && c.coordinator_is_current {
        every_synced_change_is_sent(d, d.index + 1, c, spaces, j);
    }
}

/// What a response means: success, a lost session, a conflict; a server that is
/// busy or failing is asked again, and anything else makes the queue wait.
pub proof fn responses_are_told_apart(head: ReplyHeadView)
    ensures
        classified(head) == ReplyClass::Success <==> 200 <= head.status <= 299,
        classified(head) == ReplyClass::AuthExpired <==> head.status == 401,
        classified(head) == ReplyClass::Conflict <==> head.status == 409,
        classified(head) == ReplyClass::Ended(QueueDrainResult::PausedBilling) <==> head.status
            == 403 && (head.error_code == Some("SYNC_NOT_ENTITLED"@) || head.error_code == Some(
            "SYNC_PAYMENT_PAUSED"@,
        )),
        (classified(head) == ReplyClass::Ended(QueueDrainResult::Retry) || classified(
            head,
        ) matches ReplyClass::Ended(QueueDrainResult::RetryAfter(_))) <==> head.status == 408
            || head.status == 425 || head.status == 429 || 500 <= head.status <= 599,
        !(classified(head) == ReplyClass::Ended(QueueDrainResult::Complete)),
        head.status == 404 || head.status == 422 || head.status == 400 ==> classified(head)
            == ReplyClass::Ended(QueueDrainResult::Paused),
{
}

/// A server that asks for a pause is asked again after the seconds that it
/// names, within a quarter of a second and a minute, and without a readable
/// number of seconds as usual.
pub proof fn servers_may_ask_for_a_pause(seconds: Seq<char>)
    ensures
        retry_result(None) == QueueDrainResult::Retry,
        unsigned_value(seconds, u64::MAX as nat) is None ==> retry_result(Some(seconds))
            == QueueDrainResult::Retry,
        unsigned_value(seconds, u64::MAX as nat) matches Some(n) ==> {
            &&& retry_result(Some(seconds)) matches QueueDrainResult::RetryAfter(ms) && {
                &&& 250 <= ms <= 60_000
                &&& 1 <= n <= 60 ==> ms == 1_000 * n
                &&& n > 60 ==> ms == 60_000
                &&& n == 0 ==> ms == 250
            }
        },
{
}

/// A lost session is renewed once in an attempt, and then the attempt ends: to
/// be made again where it was renewed, and to wait for a sign-in otherwise.
pub proof fn answers_lead_on(d: MetadataDrainView, head: ReplyHeadView, c: DrainContextView)
    requires
        d.principal == c.principal,
        c.run_is_current,
        c.coordinator_is_current,
        0 <= d.index < d.queue.len(),
    ensures
        ({
            let (next, action) = after_reply(d, Some(head), c);
            &&& next.queue == d.queue
            &&& next.index == d.index
            &&& 200 <= head.status <= 299 ==> action is ReadBody && next == d
            &&& head.status == 401 && !d.auth_retry_used ==> action is Refresh
            &&& head.status == 401 && d.auth_retry_used ==> action == DrainActionView::Finish(
                QueueDrainResult::PausedAuth,
            )
            &&& head.status == 409 ==> action == DrainActionView::FetchRemote(
                d.queue[d.index].space_id,
            ) && next.superseded == (head.error_code == Some("METADATA_CONFLICT_SUPERSEDED"@))
            &&& head.status == 404 ==> action == DrainActionView::Finish(QueueDrainResult::Paused)
            &&& classified(head) matches ReplyClass::Ended(result) ==> action
                == DrainActionView::Finish(result) && next == d
            &&& after_reply(d, None, c).1 == DrainActionView::Finish(QueueDrainResult::Retry)
        }),
{
}

/// A change that the server accepted is taken out of the queue, and the space
/// has then the name, the place and the version that the server answered with;
/// other spaces and the board stay as they are. An answer to another request
/// changes nothing.
pub proof fn accepted_changes_settle_the_space(
    d: MetadataDrainView,
    reply: MetadataReplyView,
    legacy: Seq<char>,
    c: DrainContextView,
    h: HeldView,
    now: u64,
    k: int,
)
    requires
        0 <= d.index < d.queue.len(),
        named_operation(d.queue[d.index].operation) is Some,
        d.principal == c.principal,
        c.run_is_current,
        c.coordinator_is_current,
        0 <= k < h.spaces.len(),
    ensures
        ({
            let q = d.queue[d.index];
            let (after, action) = after_body(d, Some(reply), legacy, c, h, now);
            let fits = reply.protocol_version == d.protocol_version && reply.space_id == q.space_id
                && (d.stable_id is None || reply.stable_space_id == d.stable_id);
            let first = h.spaces[k].id == q.space_id && forall|j: int|
                0 <= j < k ==> (#[trigger] h.spaces[j]).id != q.space_id;
            let s = after.spaces[k];
            &&& !fits ==> after == h && action == DrainActionView::Finish(QueueDrainResult::Paused)
            &&& fits ==> action == DrainActionView::SaveAndAck(q.space_id, q.operation_id)
            &&& after.spaces.len() == h.spaces.len()
            &&& s.board == h.spaces[k].board
            &&& s.id == h.spaces[k].id
            &&& s.sync_enabled == h.spaces[k].sync_enabled
            &&& !first ==> s == h.spaces[k]
            &&& fits && first ==> {
                &&& s.name == reply.name
                &&& s.archived == reply.archived
                &&& s.metadata_version == reply.metadata_version
                &&& s.deleted_at == reply.deleted_at
                &&& s.stable_id == h.spaces[k].stable_id
                &&& s.created_at == h.spaces[k].created_at
            }
        }),
{
    let q = d.queue[d.index];
    let pred = |s: SpaceView| s.id == q.space_id;
    crate::workspace::first_space_is_least(h.spaces, pred);
    let i = first_space(h.spaces, pred);
    if h.spaces[k].id == q.space_id {
        assert(pred(h.spaces[k]));
        assert(i <= k);
    }
    if i < h.spaces.len() {
        assert(pred(h.spaces[i]));
    }
}

/// A conflict is over where something newer replaced the change, where the
/// space is already as the change would make it, or where it is deleted and not
/// to be restored: then the server's state is taken over. Otherwise the change
/// is based on the server's version and nothing else of it changes.
pub proof fn conflicts_are_settled_or_rebased(
    d: MetadataDrainView,
    remote: ManifestView,
    c: DrainContextView,
    h: HeldView,
    now: u64,
    k: int,
)
    requires
        0 <= d.index < d.queue.len(),
        named_operation(d.queue[d.index].operation) is Some,
        d.principal == c.principal,
        c.run_is_current,
        c.coordinator_is_current,
        0 <= k < h.spaces.len(),
    ensures
        ({
            let q = d.queue[d.index];
            let operation = named_operation(q.operation)->0;
            let (next, after, action) = after_remote(d, Some(remote), c, h, now);
            let over = d.superseded || is_satisfied(operation, q.name, remote) || (remote.deleted_at
                is Some && operation != SpaceMetadataOperation::Restore);
            let first = h.spaces[k].id == remote.id && forall|j: int|
                0 <= j < k ==> (#[trigger] h.spaces[j]).id != remote.id;
            &&& over ==> {
                &&& next == d
                &&& action == DrainActionView::SaveAndAck(q.space_id, q.operation_id)
                &&& after.spaces.len() == h.spaces.len()
                &&& !first ==> after.spaces[k] == h.spaces[k]
                &&& first ==> {
                    &&& after.spaces[k].name == remote.name
                    &&& after.spaces[k].archived == remote.archived
                    &&& after.spaces[k].metadata_version == remote.metadata_version
                    &&& after.spaces[k].deleted_at == remote.deleted_at
                    &&& after.spaces[k].board == h.spaces[k].board
                    &&& after.spaces[k].sync_enabled == h.spaces[k].sync_enabled
                    &&& after.spaces[k].id == h.spaces[k].id
                    &&& after.spaces[k].stable_id == h.spaces[k].stable_id
                    &&& after.spaces[k].created_at == h.spaces[k].created_at
                }
            }
            &&& !over ==> {
                &&& after == h
                &&& action == DrainActionView::Rebase(
                    q.space_id,
                    q.operation_id,
                    Some(remote.metadata_version),
                )
                &&& next.index == d.index
                &&& next.queue.len() == d.queue.len()
                &&& next.queue[d.index] == (QueuedMetadataView {
                    expected_version: Some(remote.metadata_version),
                    ..q
                })
                &&& forall|i: int|
                    0 <= i < d.queue.len() && i != d.index ==> #[trigger] next.queue[i]
                        == d.queue[i]
            }
        }),
{
    let pred = |s: SpaceView| s.id == remote.id;
    crate::workspace::first_space_is_least(h.spaces, pred);
    let i = first_space(h.spaces, pred);
    if h.spaces[k].id == remote.id {
        assert(pred(h.spaces[k]));
        assert(i <= k);
    }
    if i < h.spaces.len() {
        assert(pred(h.spaces[i]));
    }
}

/// A change that was rebased is sent again with the version that it is now
/// based on.
pub proof fn rebased_changes_are_sent_again(
    d: MetadataDrainView,
    c: DrainContextView,
    spaces: Seq<SpaceView>,
)
    requires
        0 <= d.index < d.queue.len(),
        named_operation(d.queue[d.index].operation) is Some,
        d.principal == c.principal,
        c.run_is_current,
        c.coordinator_is_current,
    ensures
        after_rebase(d, false, c, spaces).1 == DrainActionView::Finish(QueueDrainResult::Retry),
        after_rebase(d, true, c, spaces).1 matches DrainActionView::Send(request) && {
            let q = d.queue[d.index];
            &&& request.space_id == q.space_id
            &&& request.operation_id == q.operation_id
            &&& Some(request.operation) == named_operation(q.operation)
            &&& request.name == q.name
            &&& request.expected_version == q.expected_version
            &&& request.protocol_version == d.protocol_version
            &&& request.stable_space_id == identity_of(spaces, q.space_id)
        },
{
}

/// A drain that is no longer current changes nothing, sends nothing and takes
/// nothing out of the queue; and it never says that everything was sent.
pub proof fn stale_drains_change_nothing(
    d: MetadataDrainView,
    head: ReplyHeadView,
    reply: MetadataReplyView,
    remote: ManifestView,
    legacy: Seq<char>,
    c: DrainContextView,
    spaces: Seq<SpaceView>,
    h: HeldView,
    now: u64,
)
    requires
        0 <= d.index < d.queue.len(),
        named_operation(d.queue[d.index].operation) is Some,
        !(d.principal == c.principal && c.run_is_current && c.coordinator_is_current),
    ensures
        ({
            let result = if d.principal != c.principal || !c.run_is_current {
                QueueDrainResult::Paused
            } else {
                QueueDrainResult::CoordinatorLost
            };
            &&& after_reply(d, Some(head), c) == (d, DrainActionView::Finish(result))
            &&& after_body(d, Some(reply), legacy, c, h, now) == (
                h,
                DrainActionView::Finish(result),
            )
            &&& after_remote(d, Some(remote), c, h, now) == (
                d,
                h,
                DrainActionView::Finish(result),
            )
            &&& after_rebase(d, true, c, spaces) == (d, DrainActionView::Finish(result))
            &&& after_ack(d, c, spaces) == (false, d, DrainActionView::Finish(result))
        }),
{
}

/// An answer that cannot be had is waited for: nothing changes, and another
/// attempt is worth making.
pub proof fn missing_answers_are_tried_again(
    d: MetadataDrainView,
    legacy: Seq<char>,
    c: DrainContextView,
    h: HeldView,
    now: u64,
)
    ensures
        after_reply(d, None, c) == (d, DrainActionView::Finish(QueueDrainResult::Retry)),
        after_body(d, None, legacy, c, h, now) == (
            h,
            DrainActionView::Finish(QueueDrainResult::Retry),
        ),
        after_remote(d, None, c, h, now) == (
            d,
            h,
            DrainActionView::Finish(QueueDrainResult::Retry),
        ),
{
}

/// A change of another principal stops the drain before it is sent.
pub proof fn changes_of_others_stop_the_drain(
    d: MetadataDrainView,
    index: int,
    c: DrainContextView,
    spaces: Seq<SpaceView>,
)
    requires
        0 <= index < d.queue.len(),
        d.queue[index].principal is Some,
        d.queue[index].principal->0 != c.principal,
    ensures
        advanced(d, index, c, spaces).1 == DrainActionView::Finish(QueueDrainResult::Paused),
        advanced(d, index, c, spaces).0.index == index,
        advanced(d, index, c, spaces).0.queue == d.queue,
{
}

/// A change that is settled marks its space as the change asks: a deletion leaves
/// a tombstone, a restoring takes it away, and no other tombstone is touched.
pub proof fn settled_changes_mark_the_space(
    d: MetadataDrainView,
    reply: MetadataReplyView,
    remote: ManifestView,
    legacy: Seq<char>,
    c: DrainContextView,
    h: HeldView,
    now: u64,
    t: TombstoneView,
)
    requires
        0 <= d.index < d.queue.len(),
        named_operation(d.queue[d.index].operation) is Some,
    ensures
        ({
            let operation = named_operation(d.queue[d.index].operation)->0;
            let (after, action) = after_body(d, Some(reply), legacy, c, h, now);
            &&& action is SaveAndAck ==> is_marked(h, after, operation, reply.space_id, t)
            &&& !(action is SaveAndAck) ==> after == h
        }),
        ({
            let operation = named_operation(d.queue[d.index].operation)->0;
            let (_, after, action) = after_remote(d, Some(remote), c, h, now);
            &&& action is SaveAndAck ==> is_marked(h, after, operation, remote.id, t)
            &&& !(action is SaveAndAck) ==> after == h
        }),
{
    let operation = named_operation(d.queue[d.index].operation)->0;
    crate::metadata::tombstones_follow_the_change(
        h.tombstones,
        operation,
        reply_metadata(reply, legacy),
        now,
        t,
    );
    crate::metadata::tombstones_follow_the_change(
        h.tombstones,
        operation,
        manifest_metadata(remote),
        now,
        t,
    );
}

/// Whether a tombstone is there after a change of a space as the change asks.
pub open spec fn is_marked(
    before: HeldView,
    after: HeldView,
    operation: SpaceMetadataOperation,
    id: u64,
    t: TombstoneView,
) -> bool {
    let of_space = t.kind == TombstoneKind::Space && t.id == id;
    &&& !of_space ==> after.tombstones.contains(t) == before.tombstones.contains(t)
    &&& operation == SpaceMetadataOperation::Delete ==> (exists|i: int|
        0 <= i < after.tombstones.len() && (#[trigger] after.tombstones[i]).kind
            == TombstoneKind::Space && after.tombstones[i].id == id)
    &&& operation == SpaceMetadataOperation::Restore && of_space ==> !after.tombstones.contains(t)
    &&& operation != SpaceMetadataOperation::Delete && operation != SpaceMetadataOperation::Restore
        ==> after.tombstones == before.tombstones
}

} // verus!
