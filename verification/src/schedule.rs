//! When the queues are emptied, and how long is waited between attempts.
use vstd::prelude::*;
use vstd::string::*;

use crate::drain::space_sync_enabled;
use crate::drain::syncs;
use crate::drain::QueueDrainResult;
use crate::identity::guest_principal_text;
use crate::lists::filter_ends;
use crate::lists::filter_step;
use crate::lists::views;
use crate::model::Space;
use crate::model::SpaceView;
use crate::status::SyncStatus;
use crate::storage::generation_after;
use crate::storage::next_generation;
use crate::text::concat;
use crate::text::decimal;
use crate::text::decimal_of;
use crate::text::has_prefix;
use crate::text::starts_with;
use crate::text::text_eq;

verus! {

/// Whether an attempt is running, and whether another one is wanted after it.
#[derive(Clone, Copy, Debug, PartialEq, Eq, Structural)]
pub struct DrainSchedule {
    pub in_flight: bool,
    pub pending: bool,
}

/// The schedule once an attempt was asked for.
pub open spec fn asked(s: DrainSchedule, active: bool, has_runtime: bool) -> DrainSchedule {
    if !active {
        s
    } else if s.in_flight {
        DrainSchedule { pending: true, ..s }
    } else {
        DrainSchedule { in_flight: has_runtime, ..s }
    }
}

/// The schedule once the attempts are over.
pub open spec fn ended(s: DrainSchedule, current: bool) -> DrainSchedule {
    DrainSchedule { in_flight: false, pending: s.pending && !current }
}

impl DrainSchedule {
    /// Nothing is running and nothing is wanted.
    pub fn new() -> (r: Self)
        ensures
            r == (DrainSchedule { in_flight: false, pending: false }),
    {
        DrainSchedule { in_flight: false, pending: false }
    }

    /// Asks for an attempt. Says whether one has to be started: not while
    /// another is running, which then is followed by one more.
    pub fn request(&mut self, active: bool, has_runtime: bool) -> (r: bool)
        ensures
            r == (active && !old(self).in_flight && has_runtime),
            *final(self) == asked(*old(self), active, has_runtime),
    {
        if !active {
            return false;
        }
        if self.in_flight {
            self.pending = true;
            return false;
        }
        self.in_flight = has_runtime;
        has_runtime
    }

    /// Forgets that another attempt is wanted. Says whether one was.
    pub fn take_pending(&mut self) -> (r: bool)
        ensures
            r == old(self).pending,
            *final(self) == (DrainSchedule { pending: false, ..*old(self) }),
    {
        let wanted = self.pending;
        self.pending = false;
        wanted
    }

    /// The attempts are over. Says whether another has to be asked for.
    pub fn finish(&mut self, current: bool) -> (r: bool)
        ensures
            r == (current && old(self).pending),
            *final(self) == ended(*old(self), current),
    {
        self.in_flight = false;
        if current && self.pending {
            self.pending = false;
            true
        } else {
            false
        }
    }
}

/// An attempt that is asked for while another runs is not lost: once the
/// running one is over, it has to be asked for again and can start.
pub proof fn wanted_attempts_follow(s: DrainSchedule, has_runtime: bool)
    requires
        s.in_flight,
    ensures
        asked(s, true, has_runtime).in_flight,
        asked(s, true, has_runtime).pending,
        !ended(asked(s, true, has_runtime), true).in_flight,
        asked(ended(asked(s, true, has_runtime), true), true, true) == (DrainSchedule {
            in_flight: true,
            pending: false,
        }),
{
}

/// A run of syncing, and what it has come to.
#[derive(Clone, Copy, Debug, PartialEq, Eq, Structural)]
pub struct SyncRun {
    pub active: bool,
    /// The number of the run.
    pub generation: u64,
    /// The server was reached in this run.
    pub server_contact: bool,
    /// The number of the last count of what waits.
    pub refresh: u64,
}

/// The run that follows.
pub open spec fn begun(s: SyncRun) -> SyncRun {
    SyncRun { active: true, generation: generation_after(s.generation), ..s }
}

/// The run once it was ended.
pub open spec fn stopped(s: SyncRun) -> SyncRun {
    SyncRun {
        active: false,
        generation: generation_after(s.generation),
        server_contact: false,
        ..s
    }
}

/// Whether a run is still the one of the given number, for an account.
pub open spec fn is_running(s: SyncRun, generation: u64, principal: Seq<char>) -> bool {
    s.active && s.generation == generation && has_prefix(principal, "account:"@)
}

impl SyncRun {
    /// Nothing runs.
    pub fn new() -> (r: Self)
        ensures
            r == (SyncRun { active: false, generation: 0, server_contact: false, refresh: 0 }),
    {
        SyncRun { active: false, generation: 0, server_contact: false, refresh: 0 }
    }

    /// Begins a run of its own number.
    pub fn begin(&mut self) -> (r: u64)
        ensures
            r == generation_after(old(self).generation),
            *final(self) == begun(*old(self)),
    {
        let next: u64 = next_generation(self.generation);
        self.generation = next;
        self.active = true;
        next
    }

    /// Ends the run. What still belongs to it is no longer current.
    pub fn stop_authenticated_sync(&mut self)
        ensures
            *final(self) == stopped(*old(self)),
    {
        self.generation = next_generation(self.generation);
        self.active = false;
        self.server_contact = false;
    }

    /// Whether what was begun in a run may still go on for a principal.
    pub fn is_current(&self, generation: u64, principal: &str) -> (r: bool)
        ensures
            r == is_running(*self, generation, principal@),
    {
        self.active && self.generation == generation && starts_with(principal, "account:")
    }

    /// Begins a count of what waits.
    pub fn begin_refresh(&mut self) -> (r: u64)
        ensures
            r == generation_after(old(self).refresh),
            *final(self) == (SyncRun { refresh: r, ..*old(self) }),
    {
        let next: u64 = next_generation(self.refresh);
        self.refresh = next;
        next
    }

    /// Whether a count may be shown that was begun under the given numbers: no
    /// other was begun since, in the same run, for the same principal.
    pub fn may_publish(
        &self,
        generation: u64,
        refresh: u64,
        principal: &str,
        current_principal: &str,
    ) -> (r: bool)
        ensures
            r == (principal@ == current_principal@ && self.active && self.generation == generation
                && self.refresh == refresh),
    {
        text_eq(principal, current_principal) && self.active && self.generation == generation
            && self.refresh == refresh
    }

    /// The status once what waits was counted: everything is saved where
    /// nothing waits and the server was reached; otherwise nothing is said.
    pub fn status_after_count(&self, pending: usize) -> (r: Option<SyncStatus>)
        ensures
            r == (if pending == 0 && self.server_contact {
                Some(SyncStatus::Synced)
            } else {
                None
            }),
    {
        if pending == 0 && self.server_contact {
            Some(SyncStatus::Synced)
        } else {
            None
        }
    }
}

/// What was begun before a run ended is not current in any later run, as long
/// as the numbers last: `later` is a run that came after it.
pub proof fn ended_runs_stay_ended(run: SyncRun, later: SyncRun, principal: Seq<char>)
    requires
        run.generation < u64::MAX,
        later.generation >= stopped(run).generation,
    ensures
        !is_running(stopped(run), run.generation, principal),
        !is_running(begun(later), run.generation, principal),
        begun(later).generation >= stopped(run).generation,
        stopped(later).generation >= stopped(run).generation,
{
}

/// How many of the queued items belong to spaces that sync.
pub open spec fn waiting(spaces: Seq<SpaceView>, queued: Seq<u64>) -> nat {
    queued.filter(|id: u64| syncs(spaces, id)).len()
}

fn count_waiting(spaces: &Vec<Space>, queued: &Vec<u64>) -> (r: usize)
    ensures
        r == waiting(views(spaces@), queued@),
        r <= queued@.len(),
{
    let ghost pred = |id: u64| syncs(views(spaces@), id);
    let mut n: usize = 0;
    let mut i: usize = 0;
    let total: usize = queued.len();
    proof {
        filter_ends(queued@, pred);
    }
    while i < total
        invariant
            i <= total,
            total == queued@.len(),
            n <= i,
            pred == (|id: u64| syncs(views(spaces@), id)),
            n == queued@.take(i as int).filter(pred).len(),
        decreases total - i,
    {
        proof {
            filter_step(queued@, pred, i as int);
        }
        if space_sync_enabled(spaces, queued[i]) {
            n = n + 1;
        }
        i = i + 1;
    }
    proof {
        assert(queued@.take(total as int) =~= queued@);
    }
    n
}

/// What waits: the queued documents and the queued changes of spaces that
/// sync. Both are given by the spaces they belong to.
pub fn local_pending_count(spaces: &Vec<Space>, documents: &Vec<u64>, changes: &Vec<u64>) -> (r:
    usize)
    ensures
        r == (if waiting(views(spaces@), documents@) + waiting(views(spaces@), changes@)
            > usize::MAX {
            usize::MAX as nat
        } else {
            waiting(views(spaces@), documents@) + waiting(views(spaces@), changes@)
        }),
{
    count_waiting(spaces, documents).saturating_add(count_waiting(spaces, changes))
}

/// What is shown of an error that was stored with a space.
pub fn stored_error_text(space_id: u64, error: &str) -> (r: String)
    ensures
        r@ == "space "@ + decimal(space_id as nat) + ": "@ + error@,
{
    concat(&concat(&concat("space ", &decimal_of(space_id)), ": "), error)
}

/// The first delay between attempts.
pub const FIRST_DELAY: i32 = 1_000;

/// The longest delay between attempts.
pub const LONGEST_DELAY: i32 = 60_000;

/// The shortest wait between attempts.
pub const SHORTEST_WAIT: i32 = 250;

/// The wait of a tab that another tab sends for.
pub const FOLLOWER_WAIT: i32 = 2_000;

/// The attempts of one run.
#[derive(Clone, Copy, Debug, PartialEq, Eq, Structural)]
pub struct DrainLoop {
    pub retry_delay: i32,
    pub auth_retry_used: bool,
}

/// What to do next.
#[derive(Clone, Copy, Debug, PartialEq, Eq, Structural)]
pub enum LoopAction {
    /// Make an attempt.
    Drain,
    /// Look at the queues, wait some milliseconds and look again who sends.
    Follow(i32),
    /// Wait some milliseconds, then go on.
    Wait(i32),
    /// Look again at once who sends.
    Again,
    /// Stop. The stream of events is stopped too where the session ran out.
    Stop(bool),
}

/// The delays are within their bounds.
pub open spec fn loop_is_sound(l: DrainLoop) -> bool {
    FIRST_DELAY <= l.retry_delay <= LONGEST_DELAY
}

/// The status while an attempt waits.
pub open spec fn waiting_status(offline: bool) -> SyncStatus {
    if offline {
        SyncStatus::Offline
    } else {
        SyncStatus::Retrying
    }
}

/// What follows an attempt: the loop, the status to show (none where it stays)
/// and the action. A failed attempt doubles the delay, up to a minute.
pub open spec fn after_attempt(
    l: DrainLoop,
    result: QueueDrainResult,
    offline: bool,
    jitter: i32,
    wanted: bool,
) -> (DrainLoop, Option<SyncStatus>, LoopAction) {
    match result {
        QueueDrainResult::Complete => (
            DrainLoop { retry_delay: FIRST_DELAY, auth_retry_used: false },
            None,
            if wanted {
                LoopAction::Again
            } else {
                LoopAction::Stop(false)
            },
        ),
        QueueDrainResult::Retry => (
            DrainLoop {
                retry_delay: if l.retry_delay * 2 > LONGEST_DELAY {
                    LONGEST_DELAY
                } else {
                    (l.retry_delay * 2) as i32
                },
                ..l
            },
            Some(waiting_status(offline)),
            LoopAction::Wait(
                if l.retry_delay + jitter < SHORTEST_WAIT {
                    SHORTEST_WAIT
                } else {
                    (l.retry_delay + jitter) as i32
                },
            ),
        ),
        QueueDrainResult::RetryAfter(delay) => (
            DrainLoop { retry_delay: FIRST_DELAY, ..l },
            Some(waiting_status(offline)),
            LoopAction::Wait(delay),
        ),
        QueueDrainResult::CoordinatorLost => (
            l,
            Some(SyncStatus::Syncing),
            LoopAction::Wait(FOLLOWER_WAIT),
        ),
        QueueDrainResult::PausedAuth => (
            l,
            Some(SyncStatus::AuthPaused),
            LoopAction::Stop(true),
        ),
        QueueDrainResult::PausedBilling => (
            l,
            Some(SyncStatus::BillingPaused),
            LoopAction::Stop(false),
        ),
        QueueDrainResult::Paused => (l, Some(SyncStatus::Error), LoopAction::Stop(false)),
    }
}

impl DrainLoop {
    /// The first attempt is still to come.
    pub fn new() -> (r: Self)
        ensures
            r == (DrainLoop { retry_delay: FIRST_DELAY, auth_retry_used: false }),
            loop_is_sound(r),
    {
        DrainLoop { retry_delay: FIRST_DELAY, auth_retry_used: false }
    }

    /// Decides whether this tab sends, and what is shown meanwhile.
    /// `owns_lease` and `coordinates` say whether it took the lease of the tabs
    /// and still holds it.
    pub fn turn(&self, current: bool, owns_lease: bool, coordinates: bool) -> (r: (
        Option<SyncStatus>,
        LoopAction,
    ))
        ensures
            r == (if !current {
                (None, LoopAction::Stop(false))
            } else if !owns_lease || !coordinates {
                (Some(SyncStatus::Syncing), LoopAction::Follow(FOLLOWER_WAIT))
            } else {
                (Some(SyncStatus::Syncing), LoopAction::Drain)
            }),
    {
        if !current {
            (None, LoopAction::Stop(false))
        } else if !owns_lease || !coordinates {
            (Some(SyncStatus::Syncing), LoopAction::Follow(FOLLOWER_WAIT))
        } else {
            (Some(SyncStatus::Syncing), LoopAction::Drain)
        }
    }

    /// An attempt is over. `jitter` is a random part of at most a quarter of
    /// the delay, `wanted` whether another attempt was asked for meanwhile.
    pub fn attempted(
        &mut self,
        result: QueueDrainResult,
        offline: bool,
        jitter: i32,
        wanted: bool,
    ) -> (r: (Option<SyncStatus>, LoopAction))
        requires
            loop_is_sound(*old(self)),
            -LONGEST_DELAY <= jitter <= LONGEST_DELAY,
        ensures
            (*final(self), r.0, r.1) == after_attempt(
                *old(self),
                result,
                offline,
                jitter,
                wanted,
            ),
            loop_is_sound(*final(self)),
    {
        let waiting = if offline {
            SyncStatus::Offline
        } else {
            SyncStatus::Retrying
        };
        match result {
            QueueDrainResult::Complete => {
                self.retry_delay = FIRST_DELAY;
                self.auth_retry_used = false;
                (
                    None,
                    if wanted {
                        LoopAction::Again
                    } else {
                        LoopAction::Stop(false)
                    },
                )
            },
            QueueDrainResult::Retry => {
                let total: i32 = self.retry_delay + jitter;
                let wait: i32 = if total < SHORTEST_WAIT {
                    SHORTEST_WAIT
                } else {
                    total
                };
                self.retry_delay = if self.retry_delay * 2 > LONGEST_DELAY {
                    LONGEST_DELAY
                } else {
                    self.retry_delay * 2
                };
                (Some(waiting), LoopAction::Wait(wait))
            },
            QueueDrainResult::RetryAfter(delay) => {
                self.retry_delay = FIRST_DELAY;
                (Some(waiting), LoopAction::Wait(delay))
            },
            QueueDrainResult::CoordinatorLost => (
                Some(SyncStatus::Syncing),
                LoopAction::Wait(FOLLOWER_WAIT),
            ),
            QueueDrainResult::PausedAuth => (Some(SyncStatus::AuthPaused), LoopAction::Stop(true)),
            QueueDrainResult::PausedBilling => (
                Some(SyncStatus::BillingPaused),
                LoopAction::Stop(false),
            ),
            QueueDrainResult::Paused => (Some(SyncStatus::Error), LoopAction::Stop(false)),
        }
    }
}

/// The attempts after some failed ones in a row.
pub open spec fn loop_after(failures: nat) -> DrainLoop
    decreases failures,
{
    if failures == 0 {
        DrainLoop { retry_delay: FIRST_DELAY, auth_retry_used: false }
    } else {
        after_attempt(
            loop_after((failures - 1) as nat),
            QueueDrainResult::Retry,
            false,
            0,
            false,
        ).0
    }
}

/// The delay doubles with every failure until it has reached a minute, where
/// it stays.
pub proof fn delays_grow_to_a_minute(failures: nat)
    ensures
        loop_is_sound(loop_after(failures)),
        failures >= 6 ==> loop_after(failures).retry_delay == LONGEST_DELAY,
        loop_after(failures + 1).retry_delay == (if loop_after(failures).retry_delay * 2
            > LONGEST_DELAY {
            LONGEST_DELAY as int
        } else {
            loop_after(failures).retry_delay * 2
        }),
    decreases failures,
{
    reveal_with_fuel(loop_after, 8);
    if failures > 0 {
        delays_grow_to_a_minute((failures - 1) as nat);
    }
}

/// A failed attempt never stops the run: another one is made after at least
/// three quarters of a second and at most a minute and a quarter.
pub proof fn failures_are_retried(l: DrainLoop, offline: bool, jitter: i32, wanted: bool)
    requires
        loop_is_sound(l),
        -(l.retry_delay / 4) <= jitter <= l.retry_delay / 4,
    ensures
        ({
            let (next, status, action) = after_attempt(
                l,
                QueueDrainResult::Retry,
                offline,
                jitter,
                wanted,
            );
            &&& action matches LoopAction::Wait(ms) && 750 <= ms <= 75_000
            &&& status == Some(waiting_status(offline))
            &&& l.retry_delay <= next.retry_delay <= 2 * l.retry_delay
        }),
{
}

/// An attempt that is asked for while another one runs is remembered; else it
/// begins, where there is something to run it. A page that does not sync asks
/// for none.
pub proof fn attempts_run_one_at_a_time(s: DrainSchedule, has_runtime: bool, current: bool)
    ensures
        asked(s, false, has_runtime) == s,
        s.in_flight ==> asked(s, true, has_runtime).in_flight && asked(
            s,
            true,
            has_runtime,
        ).pending,
        !s.in_flight ==> asked(s, true, has_runtime).in_flight == has_runtime && asked(
            s,
            true,
            has_runtime,
        ).pending == s.pending,
        !ended(s, current).in_flight,
        !ended(s, true).pending,
        ended(s, false).pending == s.pending,
{
}

/// A run that begins is active under a new number; one that is stopped is not,
/// its number is gone, and the server counts as not reached.
pub proof fn runs_have_their_own_number(s: SyncRun, principal: Seq<char>, generation: u64)
    requires
        s.generation < u64::MAX,
    ensures
        begun(s).active,
        begun(s).generation == s.generation + 1,
        begun(s).server_contact == s.server_contact,
        begun(s).refresh == s.refresh,
        !stopped(s).active,
        stopped(s).generation == s.generation + 1,
        !stopped(s).server_contact,
        stopped(s).refresh == s.refresh,
        is_running(s, generation, principal) ==> s.active && generation == s.generation,
        is_running(begun(s), (s.generation + 1) as u64, "account:"@ + principal),
        guest_principal_text(principal) ==> !is_running(s, generation, principal),
{
    crate::text::prefixes_can_be_completed(principal, "account:"@, principal);
    if guest_principal_text(principal) {
        guests_are_no_accounts(principal);
    }
}

proof fn guests_are_no_accounts(principal: Seq<char>)
    requires
        guest_principal_text(principal),
    ensures
        !has_prefix(principal, "account:"@),
{
    reveal_strlit("guest");
    reveal_strlit("guest:");
    reveal_strlit("account:");
    if has_prefix(principal, "account:"@) {
        assert(principal.take(8)[0] == 'a');
        assert(principal[0] == 'a');
        if principal != "guest"@ {
            assert(principal.take(6)[0] == 'g');
        }
    }
}

/// Every queued change of a space that syncs waits, and no other.
pub proof fn changes_of_syncing_spaces_wait(spaces: Seq<SpaceView>, queued: Seq<u64>, id: u64)
    ensures
        waiting(spaces, Seq::empty()) == 0,
        syncs(spaces, id) ==> waiting(spaces, queued.push(id)) == waiting(spaces, queued) + 1,
        !syncs(spaces, id) ==> waiting(spaces, queued.push(id)) == waiting(spaces, queued),
{
    reveal(Seq::filter);
    assert(queued.push(id).drop_last() =~= queued);
}

/// What is shown and done after each attempt. Only a complete one ends quietly,
/// unless another is wanted; what failed for a while is tried again after a wait
/// that doubles up to a minute, or after as long as the server asked for; what
/// the user has to settle stops the loop and says why.
pub proof fn attempts_are_followed_up(
    l: DrainLoop,
    offline: bool,
    jitter: i32,
    wanted: bool,
    delay: i32,
)
    requires
        1_000 <= l.retry_delay <= 60_000,
        -60_000 <= jitter <= 60_000,
    ensures
        ({
            let (next, status, action) = after_attempt(
                l,
                QueueDrainResult::Complete,
                offline,
                jitter,
                wanted,
            );
            &&& next == (DrainLoop { retry_delay: 1_000, auth_retry_used: false })
            &&& status is None
            &&& wanted ==> action == LoopAction::Again
            &&& !wanted ==> action == LoopAction::Stop(false)
        }),
        ({
            let (next, status, action) = after_attempt(
                l,
                QueueDrainResult::Retry,
                offline,
                jitter,
                wanted,
            );
            &&& l.retry_delay <= 30_000 ==> next.retry_delay == l.retry_delay * 2
            &&& l.retry_delay > 30_000 ==> next.retry_delay == 60_000
            &&& next.auth_retry_used == l.auth_retry_used
            &&& l.retry_delay + jitter >= 250 ==> action == LoopAction::Wait(
                (l.retry_delay + jitter) as i32,
            )
            &&& l.retry_delay + jitter < 250 ==> action == LoopAction::Wait(250)
        }),
        ({
            let (next, status, action) = after_attempt(
                l,
                QueueDrainResult::RetryAfter(delay),
                offline,
                jitter,
                wanted,
            );
            &&& action == LoopAction::Wait(delay)
            &&& next.retry_delay == 1_000
            &&& status == (if offline {
                Some(SyncStatus::Offline)
            } else {
                Some(SyncStatus::Retrying)
            })
        }),
        ({
            let (next, status, action) = after_attempt(
                l,
                QueueDrainResult::CoordinatorLost,
                offline,
                jitter,
                wanted,
            );
            &&& next == l
            &&& action == LoopAction::Wait(2_000)
            &&& status == Some(SyncStatus::Syncing)
        }),
        ({
            let (next, status, action) = after_attempt(
                l,
                QueueDrainResult::PausedAuth,
                offline,
                jitter,
                wanted,
            );
            &&& action == LoopAction::Stop(true)
            &&& status == Some(SyncStatus::AuthPaused)
        }),
        ({
            let (next, status, action) = after_attempt(
                l,
                QueueDrainResult::PausedBilling,
                offline,
                jitter,
                wanted,
            );
            &&& action == LoopAction::Stop(false)
            &&& status == Some(SyncStatus::BillingPaused)
        }),
        ({
            let (next, status, action) = after_attempt(
                l,
                QueueDrainResult::Paused,
                offline,
                jitter,
                wanted,
            );
            &&& action == LoopAction::Stop(false)
            &&& status == Some(SyncStatus::Error)
        }),
        waiting_status(true) == SyncStatus::Offline,
        waiting_status(false) == SyncStatus::Retrying,
{
}

} // verus!
