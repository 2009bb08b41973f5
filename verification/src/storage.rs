//! Writing to the device, and knowing when not to.
//!
//! A record of a newer client, or a record that cannot be read, must not be
//! written over. Writes are numbered so that a late answer to an old write
//! does not speak for a newer one.
use vstd::prelude::*;
use vstd::string::*;

use crate::identity::guest_principal_text;
use crate::identity::is_guest_principal;
use crate::lists::opt_view;
use crate::lists::views;
use crate::model::clone_spaces;
use crate::model::Space;
use crate::model::SpaceView;
use crate::model::WorkspaceData;
use crate::spaces::with_space;
use crate::status::StorageStatus;
use crate::text::blank;
use crate::text::concat;
use crate::text::decimal;
use crate::text::decimal_of;
use crate::text::decimal_reads_back;
use crate::text::is_blank;
use crate::text::parse_unsigned;
use crate::text::unsigned_value;
use crate::workspace::normalize_workspace;
use crate::workspace::normalized_workspace;
use crate::workspace::position_of_space;
use crate::workspace::replace_space;
use crate::workspace::Surroundings;

verus! {

/// The number after another; the last one has none after it.
pub open spec fn generation_after(current: u64) -> u64 {
    if current == u64::MAX {
        u64::MAX
    } else {
        (current + 1) as u64
    }
}

/// The number after another.
pub fn next_generation(current: u64) -> (r: u64)
    ensures
        r == generation_after(current),
        r >= 1,
        current < u64::MAX ==> r > current,
{
    current.saturating_add(1)
}

/// Whether writing is safe, and how far it has come.
#[derive(Clone, Copy, Debug, PartialEq, Eq, Structural)]
pub struct StorageGuard {
    /// A newer client wrote what is stored.
    pub schema_blocked: bool,
    /// What is stored cannot be read.
    pub repair_required: bool,
    /// The number of the last write.
    pub write_generation: u64,
    /// The number of the write that failed, or zero.
    pub error_generation: u64,
}

/// Whether nothing may be written.
pub open spec fn is_blocked(g: StorageGuard) -> bool {
    g.schema_blocked || g.repair_required
}

/// The status after a write came to its end: a write that another one has
/// followed says nothing.
pub open spec fn status_after_write(
    g: StorageGuard,
    saved: bool,
    generation: Option<u64>,
) -> Option<StorageStatus> {
    if generation matches Some(n) && n != g.write_generation {
        None
    } else if !saved {
        Some(StorageStatus::Error)
    } else if !(generation matches Some(n) && n == g.error_generation) && !is_blocked(g) {
        Some(StorageStatus::Saved)
    } else if is_blocked(g) {
        Some(StorageStatus::Error)
    } else {
        None
    }
}

/// The guard after a write came to its end: one that failed asks for repair.
pub open spec fn guard_after_write(
    g: StorageGuard,
    saved: bool,
    generation: Option<u64>,
) -> StorageGuard {
    if !saved && !(generation matches Some(n) && n != g.write_generation) {
        StorageGuard {
            repair_required: true,
            error_generation: match generation {
                Some(n) => n,
                None => g.error_generation,
            },
            ..g
        }
    } else {
        g
    }
}

/// What a save comes to.
#[derive(Debug, PartialEq)]
pub enum SaveDecision {
    /// Nothing may be written.
    Blocked,
    /// Write this workspace; the number names the write where its end is
    /// waited for.
    Write(WorkspaceData, Option<u64>),
}

impl StorageGuard {
    /// A guard that lets everything through.
    pub fn new() -> (r: Self)
        ensures
            r == (StorageGuard {
                schema_blocked: false,
                repair_required: false,
                write_generation: 0,
                error_generation: 0,
            }),
    {
        StorageGuard {
            schema_blocked: false,
            repair_required: false,
            write_generation: 0,
            error_generation: 0,
        }
    }

    /// Whether nothing may be written.
    pub fn storage_writes_blocked(&self) -> (r: bool)
        ensures
            r == is_blocked(*self),
    {
        self.schema_blocked || self.repair_required
    }

    /// Begins a numbered write.
    pub fn begin_storage_write(&mut self) -> (r: u64)
        ensures
            r == generation_after(old(self).write_generation),
            *final(self) == (StorageGuard {
                write_generation: r,
                error_generation: 0,
                ..*old(self)
            }),
    {
        let next: u64 = next_generation(self.write_generation);
        self.write_generation = next;
        self.error_generation = 0;
        next
    }

    /// Prepares a save of a workspace in canonical form. `reported` says
    /// whether the end of the write will be waited for.
    pub fn save_workspace(
        &mut self,
        env: &Surroundings,
        workspace: WorkspaceData,
        reported: bool,
    ) -> (r: SaveDecision)
        ensures
            match r {
                SaveDecision::Blocked => is_blocked(*old(self)) && *final(self) == *old(self),
                SaveDecision::Write(w, generation) => {
                    &&& !is_blocked(*old(self))
                    &&& w@ == normalized_workspace(env@, workspace@)
                    &&& if reported {
                        &&& generation == Some(generation_after(old(self).write_generation))
                        &&& *final(self) == (StorageGuard {
                            write_generation: generation_after(old(self).write_generation),
                            error_generation: 0,
                            ..*old(self)
                        })
                    } else {
                        &&& generation is None
                        &&& *final(self) == *old(self)
                    }
                },
            },
    {
        if self.storage_writes_blocked() {
            return SaveDecision::Blocked;
        }
        let generation: Option<u64> = if reported {
            Some(self.begin_storage_write())
        } else {
            None
        };
        SaveDecision::Write(normalize_workspace(env, workspace), generation)
    }

    /// A reported write came to its end. Says what to show, if anything.
    pub fn finish_write(&mut self, saved: bool, generation: Option<u64>) -> (r: Option<
        StorageStatus,
    >)
        ensures
            *final(self) == guard_after_write(*old(self), saved, generation),
            r == status_after_write(*old(self), saved, generation),
    {
        if let Some(n) = generation {
            if n != self.write_generation {
                return None;
            }
        }
        if !saved {
            self.repair_required = true;
            if let Some(n) = generation {
                self.error_generation = n;
            }
            return Some(StorageStatus::Error);
        }
        let failed = match generation {
            Some(n) => n == self.error_generation,
            None => false,
        };
        if !failed && !self.storage_writes_blocked() {
            Some(StorageStatus::Saved)
        } else if self.storage_writes_blocked() {
            Some(StorageStatus::Error)
        } else {
            None
        }
    }

    /// A change was put into the queue, or could not be. `begun` is the number
    /// of the last write when it was handed over, where its end is reported.
    pub fn finish_queueing(&mut self, queued: bool, begun: Option<u64>) -> (r: Option<
        StorageStatus,
    >)
        ensures
            *final(self) == (if queued {
                *old(self)
            } else {
                StorageGuard {
                    repair_required: true,
                    error_generation: if begun == Some(old(self).write_generation) {
                        old(self).write_generation
                    } else {
                        old(self).error_generation
                    },
                    ..*old(self)
                }
            }),
            r == (if begun != Some(old(self).write_generation) {
                None
            } else if !queued {
                Some(StorageStatus::Error)
            } else if old(self).error_generation == old(self).write_generation {
                None
            } else {
                Some(StorageStatus::Saved)
            }),
    {
        let current = match begun {
            Some(n) => n == self.write_generation,
            None => false,
        };
        if !queued {
            self.repair_required = true;
            if current {
                self.error_generation = self.write_generation;
                return Some(StorageStatus::Error);
            }
            return None;
        }
        if current && self.error_generation != self.write_generation {
            Some(StorageStatus::Saved)
        } else {
            None
        }
    }

    /// A valid workspace took the place of what was stored.
    pub fn clear(&mut self)
        ensures
            *final(self) == (StorageGuard {
                schema_blocked: false,
                repair_required: false,
                ..*old(self)
            }),
    {
        self.schema_blocked = false;
        self.repair_required = false;
    }
}

/// What the user is told when what is stored cannot be used.
pub fn repair_message() -> (r: &'static str)
    ensures
        r@
            == "local data needs repair — export a backup, then restore a valid workspace backup"@,
{
    "local data needs repair — export a backup, then restore a valid workspace backup"
}

/// While nothing may be written, no write is shown as saved.
pub proof fn blocked_storage_shows_an_error(g: StorageGuard, generation: Option<u64>)
    requires
        is_blocked(g),
    ensures
        status_after_write(g, true, generation) matches Some(status) ==> status
            == StorageStatus::Error,
{
}

/// A failed write asks for repair, and from then on nothing more is written.
pub proof fn failed_writes_stop_writing(g: StorageGuard, generation: Option<u64>)
    requires
        generation matches Some(n) ==> n == g.write_generation,
    ensures
        is_blocked(guard_after_write(g, false, generation)),
        status_after_write(g, false, generation) == Some(StorageStatus::Error),
{
}

/// How a board reaches its storage.
#[derive(Clone, Copy, Debug, PartialEq, Eq, Structural)]
pub enum BoardSave {
    /// With the whole workspace, on the device.
    Workspace,
    /// Not at all: nothing may be written.
    Blocked,
    /// With the request that follows.
    Request,
}

/// How a board reaches its storage: a guest's always on the device.
pub fn board_save(save_projection: bool, principal: &str, blocked: bool) -> (r: BoardSave)
    ensures
        r == (if save_projection || guest_principal_text(principal@) {
            BoardSave::Workspace
        } else if blocked {
            BoardSave::Blocked
        } else {
            BoardSave::Request
        }),
{
    if save_projection || is_guest_principal(principal) {
        BoardSave::Workspace
    } else if blocked {
        BoardSave::Blocked
    } else {
        BoardSave::Request
    }
}

/// What becomes of a changed board.
#[derive(Clone, Copy, Debug, PartialEq, Eq, Structural)]
pub enum CrdtPersist {
    /// Nothing may be written.
    Refused,
    /// It is on the device, and stays there.
    Local,
    /// It has to be sent.
    Send,
}

/// What becomes of a changed board: a guest's stays on the device, an
/// account's is sent.
pub fn persist_space_crdt(principal: &str, blocked: bool) -> (r: CrdtPersist)
    ensures
        r == (if blocked {
            CrdtPersist::Refused
        } else if guest_principal_text(principal@) {
            CrdtPersist::Local
        } else {
            CrdtPersist::Send
        }),
{
    if blocked {
        CrdtPersist::Refused
    } else if is_guest_principal(principal) {
        CrdtPersist::Local
    } else {
        CrdtPersist::Send
    }
}

/// The spaces after the server took a board: with its version.
pub fn board_accepted(spaces: &Vec<Space>, id: u64, version: u64, now: u64) -> (r: Vec<Space>)
    ensures
        views(r@) == with_space(
            views(spaces@),
            id,
            |s: SpaceView| SpaceView { metadata_version: version, updated_at: now, ..s },
        ),
{
    let i = position_of_space(spaces, id);
    if i < spaces.len() {
        let mut space = spaces[i].clone();
        space.metadata_version = version;
        space.updated_at = now;
        replace_space(spaces, i, space)
    } else {
        clone_spaces(spaces)
    }
}

/// The status after the server took a board, or did not.
pub fn status_after_board_request(accepted: bool) -> (r: StorageStatus)
    ensures
        r == (if accepted {
            StorageStatus::Saved
        } else {
            StorageStatus::Error
        }),
{
    if accepted {
        StorageStatus::Saved
    } else {
        StorageStatus::Error
    }
}

/// The principal to select: the shared guest where none is named.
pub open spec fn selected_principal(principal: Seq<char>) -> Seq<char> {
    if blank(principal) {
        "guest"@
    } else {
        principal
    }
}

/// The principal to select.
pub fn select_sync_principal(principal: &str) -> (r: String)
    ensures
        r@ == selected_principal(principal@),
{
    if is_blank(principal) {
        "guest".to_owned()
    } else {
        principal.to_owned()
    }
}

/// Where the view of a space is kept.
pub fn view_storage_key(principal: &str, space_id: u64) -> (r: String)
    ensures
        r@ == "task-space.view.v2."@ + principal@ + ":"@ + decimal(space_id as nat),
{
    concat(&concat(&concat("task-space.view.v2.", principal), ":"), &decimal_of(space_id))
}

/// Where the number of the last local change of a space is kept.
pub fn generation_storage_key(principal: &str, space_id: u64) -> (r: String)
    ensures
        r@ == "task-space:generation:"@ + principal@ + ":"@ + decimal(space_id as nat),
{
    concat(&concat(&concat("task-space:generation:", principal), ":"), &decimal_of(space_id))
}

/// A stored number; zero where there is none or it is none.
pub open spec fn stored_number(text: Option<Seq<char>>) -> u64 {
    match text {
        Some(t) => match unsigned_value(t, u64::MAX as nat) {
            Some(n) => n as u64,
            None => 0,
        },
        None => 0,
    }
}

/// Reads a stored number.
pub fn read_stored_number(text: &Option<String>) -> (r: u64)
    ensures
        r == stored_number(opt_view(*text)),
{
    match text {
        Some(t) => match parse_unsigned(t, u64::MAX) {
            Some(n) => n,
            None => 0,
        },
        None => 0,
    }
}

/// The number of the last local change of a space: what this tab remembers or
/// what is stored, whichever is larger.
pub open spec fn local_generation(remembered: Option<u64>, stored: u64) -> u64 {
    match remembered {
        Some(n) => if n > stored {
            n
        } else {
            stored
        },
        None => stored,
    }
}

/// The number of the last local change of a space.
pub fn current_local_generation(remembered: Option<u64>, stored: &Option<String>) -> (r: u64)
    ensures
        r == local_generation(remembered, stored_number(opt_view(*stored))),
{
    let number: u64 = read_stored_number(stored);
    match remembered {
        Some(n) => {
            if n > number {
                n
            } else {
                number
            }
        },
        None => number,
    }
}

/// The number of the next local change of a space.
pub fn next_local_generation(remembered: Option<u64>, stored: &Option<String>) -> (r: u64)
    ensures
        r == generation_after(local_generation(remembered, stored_number(opt_view(*stored)))),
{
    next_generation(current_local_generation(remembered, stored))
}

/// A number that was remembered or stored is never given to another change,
/// until the numbers run out.
pub proof fn generations_are_fresh(remembered: Option<u64>, stored: u64)
    requires
        local_generation(remembered, stored) < u64::MAX,
    ensures
        generation_after(local_generation(remembered, stored)) > stored,
        remembered matches Some(n) ==> generation_after(local_generation(remembered, stored)) > n,
        generation_after(local_generation(remembered, stored)) >= 1,
{
}

/// Numbers of writes go up by one and stop at the largest.
pub proof fn generations_count_up(current: u64)
    ensures
        current < u64::MAX ==> generation_after(current) == current + 1,
        current == u64::MAX ==> generation_after(current) == current,
{
}

/// A write that another one has overtaken changes nothing and says nothing.
pub proof fn overtaken_writes_say_nothing(g: StorageGuard, saved: bool, generation: u64)
    requires
        generation != g.write_generation,
    ensures
        guard_after_write(g, saved, Some(generation)) == g,
        status_after_write(g, saved, Some(generation)) is None,
{
}

/// A write that came through changes nothing in the guard. It is shown as saved
/// unless storage is blocked or the same write has failed before.
pub proof fn good_writes_are_shown(g: StorageGuard, generation: Option<u64>)
    requires
        generation matches Some(n) ==> n == g.write_generation,
    ensures
        guard_after_write(g, true, generation) == g,
        (status_after_write(g, true, generation) == Some(StorageStatus::Saved)) == (
        !g.schema_blocked && !g.repair_required && generation != Some(g.error_generation)),
        status_after_write(g, true, generation) is None ==> generation == Some(g.error_generation)
            && !g.schema_blocked && !g.repair_required,
{
}

/// A write that failed is remembered, asks for repair and touches nothing else.
pub proof fn failed_writes_are_remembered(g: StorageGuard, generation: Option<u64>)
    requires
        generation matches Some(n) ==> n == g.write_generation,
    ensures
        ({
            let after = guard_after_write(g, false, generation);
            &&& after.repair_required
            &&& after.schema_blocked == g.schema_blocked
            &&& after.write_generation == g.write_generation
            &&& generation is None ==> after.error_generation == g.error_generation
            &&& generation is Some ==> after.error_generation == g.write_generation
        }),
        status_after_write(guard_after_write(g, false, generation), true, generation)
            != Some(StorageStatus::Saved),
{
}

/// Storage is blocked by a newer client's data or by data that needs repair.
pub proof fn storage_is_blocked_by_either(g: StorageGuard)
    ensures
        is_blocked(g) == (g.schema_blocked || g.repair_required),
{
}

/// A principal is the one that is stored; a blank one is the guest.
pub proof fn stored_principals_count(principal: Seq<char>)
    ensures
        blank(principal) ==> selected_principal(principal) == "guest"@,
        !blank(principal) ==> selected_principal(principal) == principal,
{
}

/// A number that was stored is read back; where none can be read it is zero.
pub proof fn stored_numbers_read_back(n: u64, text: Seq<char>)
    ensures
        stored_number(Some(decimal(n as nat))) == n,
        stored_number(None) == 0,
        unsigned_value(text, u64::MAX as nat) is None ==> stored_number(Some(text)) == 0,
        unsigned_value(text, u64::MAX as nat) matches Some(m) ==> stored_number(Some(text)) == m,
{
    decimal_reads_back(n as nat, u64::MAX as nat);
}

/// The generation on the device is the larger of the remembered and the stored.
pub proof fn the_larger_generation_counts(remembered: Option<u64>, stored: u64)
    ensures
        local_generation(remembered, stored) >= stored,
        remembered matches Some(n) ==> local_generation(remembered, stored) >= n,
        local_generation(remembered, stored) == stored || remembered == Some(
            local_generation(remembered, stored),
        ),
{
}

} // verus!
