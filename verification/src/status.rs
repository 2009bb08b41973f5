//! What the user is told about storage and sync.
use vstd::prelude::*;
use vstd::string::*;

use crate::text::concat;
use crate::text::decimal;
use crate::text::decimal_of;

verus! {

/// Where the board stands with respect to its account.
#[derive(Clone, Copy, Debug, PartialEq, Eq, Structural)]
pub enum SyncStatus {
    Disabled,
    Checking,
    Syncing,
    Synced,
    Retrying,
    Offline,
    AuthPaused,
    BillingPaused,
    Error,
}

/// Where the board stands with respect to this device.
#[derive(Clone, Copy, Debug, PartialEq, Eq, Structural)]
pub enum StorageStatus {
    Saved,
    Saving,
    Error,
}

/// The short word for a status.
pub open spec fn status_label(status: SyncStatus) -> Seq<char> {
    match status {
        SyncStatus::Disabled => "device only"@,
        SyncStatus::Checking => "checking account…"@,
        SyncStatus::Syncing => "saving…"@,
        SyncStatus::Synced => "saved"@,
        SyncStatus::Retrying => "retrying request…"@,
        SyncStatus::Offline => "offline — saved on device"@,
        SyncStatus::AuthPaused => "sign-in expired — device mode"@,
        SyncStatus::BillingPaused => "account storage unavailable"@,
        SyncStatus::Error => "save error — retry"@,
    }
}

impl SyncStatus {
    /// The short word for the status.
    pub fn label(self) -> (r: &'static str)
        ensures
            r@ == status_label(self),
    {
        match self {
            SyncStatus::Disabled => "device only",
            SyncStatus::Checking => "checking account…",
            SyncStatus::Syncing => "saving…",
            SyncStatus::Synced => "saved",
            SyncStatus::Retrying => "retrying request…",
            SyncStatus::Offline => "offline — saved on device",
            SyncStatus::AuthPaused => "sign-in expired — device mode",
            SyncStatus::BillingPaused => "account storage unavailable",
            SyncStatus::Error => "save error — retry",
        }
    }
}

/// The heading for a status.
pub open spec fn status_heading(status: SyncStatus, pending: usize, connected: bool) -> Seq<char> {
    match status {
        SyncStatus::Disabled => "device-only board"@,
        SyncStatus::Checking => "checking your account"@,
        SyncStatus::Syncing => if pending > 0 {
            "sending changes"@
        } else if !connected {
            "sending request"@
        } else {
            "account board"@
        },
        SyncStatus::Synced => "saved to account"@,
        SyncStatus::Retrying => "retrying request"@,
        SyncStatus::Offline => "saved on device"@,
        SyncStatus::AuthPaused => "sign-in required for account spaces"@,
        SyncStatus::BillingPaused => "Pro access required for account spaces"@,
        SyncStatus::Error => "needs attention"@,
    }
}

/// The heading for a status.
pub fn sync_status_heading(status: SyncStatus, pending: usize, connected: bool) -> (r: &'static str)
    ensures
        r@ == status_heading(status, pending, connected),
{
    match status {
        SyncStatus::Disabled => "device-only board",
        SyncStatus::Checking => "checking your account",
        SyncStatus::Syncing => {
            if pending > 0 {
                "sending changes"
            } else if !connected {
                "sending request"
            } else {
                "account board"
            }
        },
        SyncStatus::Synced => "saved to account",
        SyncStatus::Retrying => "retrying request",
        SyncStatus::Offline => "saved on device",
        SyncStatus::AuthPaused => "sign-in required for account spaces",
        SyncStatus::BillingPaused => "Pro access required for account spaces",
        SyncStatus::Error => "needs attention",
    }
}

/// The sentence that explains a status.
pub open spec fn status_explanation(
    status: SyncStatus,
    pending: usize,
    connected: bool,
) -> Seq<char> {
    match status {
        SyncStatus::Disabled => "This free board is saved only on this device."@,
        SyncStatus::Checking => "Checking whether account storage is available."@,
        SyncStatus::Syncing => if pending > 0 {
            "Your latest changes are on this device and are being sent now."@
        } else if !connected {
            "The account request is retrying; your current board remains on this device."@
        } else {
            "This board is connected to the account storage API."@
        },
        SyncStatus::Synced => "Everything saved here has reached the account API."@,
        SyncStatus::Retrying =>
            "A request did not complete. Changes remain safe on this device; retry when ready."@,
        SyncStatus::Offline =>
            "Changes are saved here and can be sent when you are back online."@,
        SyncStatus::AuthPaused => "Sign in to open account-backed spaces."@,
        SyncStatus::BillingPaused => "Upgrade to Pro to open account-backed spaces."@,
        SyncStatus::Error => "The last account request failed; retry to continue."@,
    }
}

/// The sentence that explains a status.
pub fn sync_status_explanation(status: SyncStatus, pending: usize, connected: bool) -> (r:
    &'static str)
    ensures
        r@ == status_explanation(status, pending, connected),
{
    match status {
        SyncStatus::Disabled => "This free board is saved only on this device.",
        SyncStatus::Checking => "Checking whether account storage is available.",
        SyncStatus::Syncing => {
            if pending > 0 {
                "Your latest changes are on this device and are being sent now."
            } else if !connected {
                "The account request is retrying; your current board remains on this device."
            } else {
                "This board is connected to the account storage API."
            }
        },
        SyncStatus::Synced => "Everything saved here has reached the account API.",
        SyncStatus::Retrying =>
            "A request did not complete. Changes remain safe on this device; retry when ready.",
        SyncStatus::Offline =>
            "Changes are saved here and can be sent when you are back online.",
        SyncStatus::AuthPaused => "Sign in to open account-backed spaces.",
        SyncStatus::BillingPaused => "Upgrade to Pro to open account-backed spaces.",
        SyncStatus::Error => "The last account request failed; retry to continue.",
    }
}

/// The colours for a status.
pub open spec fn status_tone(status: SyncStatus) -> Seq<char> {
    match status {
        SyncStatus::Synced => "bg-note-green text-note-ink-green"@,
        SyncStatus::Retrying => "bg-note-yellow text-note-ink-yellow"@,
        SyncStatus::Offline => "bg-note-yellow text-note-ink-yellow"@,
        SyncStatus::AuthPaused => "bg-note-yellow text-note-ink-yellow"@,
        SyncStatus::BillingPaused => "bg-note-yellow text-note-ink-yellow"@,
        SyncStatus::Error => "bg-note-pink text-note-ink-pink"@,
        _ => "bg-ink-soft/20 text-ink"@,
    }
}

/// The colours for a status.
pub fn sync_status_tone(status: SyncStatus) -> (r: &'static str)
    ensures
        r@ == status_tone(status),
{
    match status {
        SyncStatus::Synced => "bg-note-green text-note-ink-green",
        SyncStatus::Retrying
        | SyncStatus::Offline
        | SyncStatus::AuthPaused
        | SyncStatus::BillingPaused => "bg-note-yellow text-note-ink-yellow",
        SyncStatus::Error => "bg-note-pink text-note-ink-pink",
        _ => "bg-ink-soft/20 text-ink",
    }
}

/// The later of two times, of those that are there.
pub open spec fn latest_of(a: Option<u64>, b: Option<u64>) -> Option<u64> {
    match (a, b) {
        (Some(x), Some(y)) => if x > y {
            Some(x)
        } else {
            Some(y)
        },
        (Some(x), None) => Some(x),
        (None, y) => y,
    }
}

/// When the server was last heard of: the last acknowledgement or the last
/// event, whichever is later.
pub fn latest_sync_timestamp(last_server_ack_at: Option<u64>, last_event_at: Option<u64>) -> (r:
    Option<u64>)
    ensures
        r == latest_of(last_server_ack_at, last_event_at),
{
    match (last_server_ack_at, last_event_at) {
        (Some(x), Some(y)) => {
            if x > y {
                Some(x)
            } else {
                Some(y)
            }
        },
        (Some(x), None) => Some(x),
        (None, y) => y,
    }
}

/// How long ago a time was, in words; a time to come counts as now.
pub open spec fn sync_age(timestamp: Option<u64>, now: u64) -> Seq<char> {
    match timestamp {
        None => "not yet"@,
        Some(t) => {
            let elapsed: int = if now >= t {
                now - t
            } else {
                0
            };
            if elapsed < 2_000 {
                "just now"@
            } else if elapsed < 60_000 {
                decimal((elapsed / 1_000) as nat) + "s ago"@
            } else if elapsed < 3_600_000 {
                decimal((elapsed / 60_000) as nat) + "m ago"@
            } else {
                decimal((elapsed / 3_600_000) as nat) + "h ago"@
            }
        },
    }
}

/// How long ago a time was, in words.
pub fn format_sync_age(timestamp: Option<u64>, now: u64) -> (r: String)
    ensures
        r@ == sync_age(timestamp, now),
{
    let t: u64 = match timestamp {
        None => return "not yet".to_owned(),
        Some(t) => t,
    };
    let elapsed: u64 = now.saturating_sub(t);
    if elapsed < 2_000 {
        "just now".to_owned()
    } else if elapsed < 60_000 {
        concat(&decimal_of(elapsed / 1_000), "s ago")
    } else if elapsed < 3_600_000 {
        concat(&decimal_of(elapsed / 60_000), "m ago")
    } else {
        concat(&decimal_of(elapsed / 3_600_000), "h ago")
    }
}

/// What the foot of the page says about this device.
pub fn storage_message(status: StorageStatus, repair_required: bool) -> (r: &'static str)
    ensures
        r@ == (match status {
            StorageStatus::Saved => "saved on this device"@,
            StorageStatus::Saving => "saving locally…"@,
            StorageStatus::Error => if repair_required {
                "local data needs repair — export/restore"@
            } else {
                "couldn't save locally"@
            },
        }),
{
    match status {
        StorageStatus::Saved => "saved on this device",
        StorageStatus::Saving => "saving locally…",
        StorageStatus::Error => {
            if repair_required {
                "local data needs repair — export/restore"
            } else {
                "couldn't save locally"
            }
        },
    }
}

/// What the details say about the server.
pub open spec fn server_text(sync_enabled: bool, pending: usize) -> Seq<char> {
    if !sync_enabled {
        "not enabled"@
    } else if pending == 0 {
        "up to date"@
    } else {
        decimal(pending as nat) + " waiting"@
    }
}

/// What the details say about the server.
pub fn server_message(sync_enabled: bool, pending: usize) -> (r: String)
    ensures
        r@ == server_text(sync_enabled, pending),
{
    if !sync_enabled {
        "not enabled".to_owned()
    } else if pending == 0 {
        "up to date".to_owned()
    } else {
        concat(&decimal_of(pending as u64), " waiting")
    }
}

/// What the details say about the connection.
pub fn connection_message(connected: bool, status: SyncStatus) -> (r: &'static str)
    ensures
        r@ == (if connected {
            "connected"@
        } else if status == SyncStatus::Offline {
            "offline"@
        } else {
            "reconnecting"@
        }),
{
    if connected {
        "connected"
    } else if status == SyncStatus::Offline {
        "offline"
    } else {
        "reconnecting"
    }
}

/// Nothing but a lost connection is called offline: no other status has its
/// heading.
pub proof fn only_offline_is_called_offline(
    status: SyncStatus,
    pending: usize,
    connected: bool,
)
    requires
        status != SyncStatus::Offline,
    ensures
        status_heading(status, pending, connected) != status_heading(
            SyncStatus::Offline,
            pending,
            connected,
        ),
{
    reveal_strlit("saved on device");
    let offline = "saved on device"@;
    assert(offline.len() == 15 && offline[1] == 'a');
    match status {
        SyncStatus::Disabled => {
            reveal_strlit("device-only board");
            assert("device-only board"@.len() == 17);
        },
        SyncStatus::Checking => {
            reveal_strlit("checking your account");
            assert("checking your account"@.len() == 21);
        },
        SyncStatus::Syncing => {
            reveal_strlit("sending changes");
            reveal_strlit("sending request");
            reveal_strlit("account board");
            assert("sending changes"@[1] == 'e');
            assert("sending request"@[1] == 'e');
            assert("account board"@.len() == 13);
        },
        SyncStatus::Synced => {
            reveal_strlit("saved to account");
            assert("saved to account"@.len() == 16);
        },
        SyncStatus::Retrying => {
            reveal_strlit("retrying request");
            assert("retrying request"@.len() == 16);
        },
        SyncStatus::Offline => {},
        SyncStatus::AuthPaused => {
            reveal_strlit("sign-in required for account spaces");
            assert("sign-in required for account spaces"@.len() == 35);
        },
        SyncStatus::BillingPaused => {
            reveal_strlit("Pro access required for account spaces");
            assert("Pro access required for account spaces"@.len() == 38);
        },
        SyncStatus::Error => {
            reveal_strlit("needs attention");
            assert("needs attention"@[1] == 'e');
        },
    }
}

/// The latest of two times is the later one; where only one is known, that one.
pub proof fn the_later_time_counts(a: Option<u64>, b: Option<u64>)
    ensures
        latest_of(a, b) is Some == (a is Some || b is Some),
        latest_of(a, b) matches Some(t) ==> (a == Some(t) || b == Some(t)) && (a matches Some(x)
            ==> x <= t) && (b matches Some(y) ==> y <= t),
        latest_of(a, b) == latest_of(b, a),
{
}

/// How long ago something was is told in whole seconds, then minutes, then
/// hours; what was less than two seconds ago, or lies ahead, was just now.
pub proof fn ages_are_told_in_whole_units(t: u64, n: nat, rest: nat, now: u64)
    ensures
        sync_age(None, now) == "not yet"@,
        now < t + 2_000 ==> sync_age(Some(t), now) == "just now"@,
        2 <= n < 60 && rest < 1_000 && now == t + n * 1_000 + rest ==> sync_age(Some(t), now)
            == decimal(n) + "s ago"@,
        1 <= n < 60 && rest < 60_000 && now == t + n * 60_000 + rest ==> sync_age(Some(t), now)
            == decimal(n) + "m ago"@,
        1 <= n && rest < 3_600_000 && now == t + n * 3_600_000 + rest ==> sync_age(Some(t), now)
            == decimal(n) + "h ago"@,
{
}

/// What the server has is told by how much waits, for an account that syncs.
pub proof fn waiting_changes_are_told(pending: usize)
    ensures
        server_text(false, pending) == "not enabled"@,
        server_text(true, 0) == "up to date"@,
        pending > 0 ==> server_text(true, pending) == decimal(pending as nat) + " waiting"@,
{
}

/// Only while changes are sent does the heading depend on what waits and on the
/// connection; what waits comes first.
pub proof fn headings_follow_what_waits(
    status: SyncStatus,
    pending: usize,
    connected: bool,
    other: usize,
    reached: bool,
)
    ensures
        status != SyncStatus::Syncing ==> status_heading(status, pending, connected)
            == status_heading(status, other, reached) && status_explanation(
            status,
            pending,
            connected,
        ) == status_explanation(status, other, reached),
        pending > 0 ==> status_heading(SyncStatus::Syncing, pending, connected)
            == "sending changes"@,
        status_heading(SyncStatus::Syncing, 0, false) == "sending request"@,
        status_heading(SyncStatus::Syncing, 0, true) == "account board"@,
        pending > 0 ==> status_explanation(SyncStatus::Syncing, pending, connected)
            == "Your latest changes are on this device and are being sent now."@,
        status_explanation(SyncStatus::Syncing, 0, true)
            == "This board is connected to the account storage API."@,
{
}

/// Success, waiting and failure each have a tone of their own.
pub proof fn tones_tell_how_it_stands(status: SyncStatus)
    ensures
        status_tone(status) == "bg-note-green text-note-ink-green"@ <==> status
            == SyncStatus::Synced,
        status_tone(status) == "bg-note-pink text-note-ink-pink"@ <==> status == SyncStatus::Error,
        status_tone(status) == "bg-note-yellow text-note-ink-yellow"@ <==> (status
            == SyncStatus::Retrying || status == SyncStatus::Offline || status
            == SyncStatus::AuthPaused || status == SyncStatus::BillingPaused),
{
    reveal_strlit("bg-note-green text-note-ink-green");
    reveal_strlit("bg-note-yellow text-note-ink-yellow");
    reveal_strlit("bg-note-pink text-note-ink-pink");
    reveal_strlit("bg-ink-soft/20 text-ink");
    assert("bg-note-green text-note-ink-green"@[8] == 'g');
    assert("bg-note-yellow text-note-ink-yellow"@[8] == 'y');
    assert("bg-note-pink text-note-ink-pink"@[8] == 'p');
    assert("bg-ink-soft/20 text-ink"@[8] == 'o');
}

/// No two states have the same label.
pub proof fn labels_tell_states_apart(a: SyncStatus, b: SyncStatus)
    requires
        a != b,
    ensures
        status_label(a) != status_label(b),
{
    reveal_strlit("device only");
    reveal_strlit("checking account…");
    reveal_strlit("saving…");
    reveal_strlit("saved");
    reveal_strlit("retrying request…");
    reveal_strlit("offline — saved on device");
    reveal_strlit("sign-in expired — device mode");
    reveal_strlit("account storage unavailable");
    reveal_strlit("save error — retry");
    let (x, y) = (status_label(a), status_label(b));
    assert(x.len() != y.len() || x[0] != y[0]);
}

} // verus!
