//! The page and its account: when an account is opened, when syncing starts
//! and stops, and what the page shows meanwhile.
use vstd::prelude::*;
use vstd::string::*;

use crate::account::AccountState;
use crate::account::AccountStateView;
use crate::account::EntitlementView;
use crate::adoption::local_only;
use crate::adoption::local_only_workspace;
use crate::identity::account_principal;
use crate::identity::account_principal_text;
use crate::identity::guest_principal_text;
use crate::identity::is_guest_principal;
use crate::lists::opt_view;
use crate::model::WorkspaceData;
use crate::model::WorkspaceView;
use crate::persist::workspace_with_board;
use crate::persist::workspace_with_current_board;
use crate::spaces::Shelf;
use crate::spaces::ShelfView;
use crate::status::SyncStatus;
use crate::text::text_eq;
use crate::workspace::is_first_of;
use crate::workspace::normalize_workspace;
use crate::workspace::normalized_workspace;
use crate::workspace::Surroundings;
use crate::workspace::SurroundingsView;

verus! {

/// What the page knows about its account.
#[derive(Debug, PartialEq)]
pub struct Session {
    pub account: AccountState,
    /// What the device has stored was read.
    pub hydrated: bool,
    /// An account is being opened.
    pub loading: bool,
    /// The shelf is between two principals, and nothing of it is saved.
    pub transitioning: bool,
    /// The account that is open.
    pub prepared: Option<String>,
    pub sync_started: bool,
    pub sync_entitled: bool,
    pub sync_status: SyncStatus,
    pub pending: usize,
    pub last_server_ack_at: Option<u64>,
    pub last_request_id: Option<String>,
    pub last_error: Option<String>,
    pub connected: bool,
    /// Nothing is waited for before the spaces are shown.
    pub ready: bool,
}

/// What the page knows about its account, as a view.
pub struct SessionView {
    pub account: AccountStateView,
    pub hydrated: bool,
    pub loading: bool,
    pub transitioning: bool,
    pub prepared: Option<Seq<char>>,
    pub sync_started: bool,
    pub sync_entitled: bool,
    pub sync_status: SyncStatus,
    pub pending: usize,
    pub last_server_ack_at: Option<u64>,
    pub last_request_id: Option<Seq<char>>,
    pub last_error: Option<Seq<char>>,
    pub connected: bool,
    pub ready: bool,
}

impl View for Session {
    type V = SessionView;

    open spec fn view(&self) -> SessionView {
        SessionView {
            account: self.account@,
            hydrated: self.hydrated,
            loading: self.loading,
            transitioning: self.transitioning,
            prepared: opt_view(self.prepared),
            sync_started: self.sync_started,
            sync_entitled: self.sync_entitled,
            sync_status: self.sync_status,
            pending: self.pending,
            last_server_ack_at: self.last_server_ack_at,
            last_request_id: opt_view(self.last_request_id),
            last_error: opt_view(self.last_error),
            connected: self.connected,
            ready: self.ready,
        }
    }
}

/// The page before anything is known.
pub open spec fn new_session() -> SessionView {
    SessionView {
        account: AccountStateView::Checking,
        hydrated: false,
        loading: false,
        transitioning: false,
        prepared: None,
        sync_started: false,
        sync_entitled: false,
        sync_status: SyncStatus::Checking,
        pending: 0,
        last_server_ack_at: None,
        last_request_id: None,
        last_error: None,
        connected: false,
        ready: true,
    }
}

/// Whether the account that is signed in may keep its spaces on the server.
pub open spec fn is_entitled(account: AccountStateView) -> bool {
    account is SignedIn && account->SignedIn_0.sync_enabled
}

/// What has to be done for the account.
#[derive(Debug, PartialEq)]
pub enum AccountStep {
    Nothing,
    /// Leave the namespace of the account for that of a guest.
    ReturnToGuest,
    /// Open this account; where the flag is set, stop syncing first.
    Open(String, bool),
}

/// What has to be done for the account, as a view.
pub enum AccountStepView {
    Nothing,
    ReturnToGuest,
    Open(Seq<char>, bool),
}

impl View for AccountStep {
    type V = AccountStepView;

    open spec fn view(&self) -> AccountStepView {
        match self {
            AccountStep::Nothing => AccountStepView::Nothing,
            AccountStep::ReturnToGuest => AccountStepView::ReturnToGuest,
            AccountStep::Open(id, stop) => AccountStepView::Open(id@, *stop),
        }
    }
}

/// What has to be done for the account: one that may sync and is not open yet
/// is opened; one that may not leaves the page to a guest.
pub open spec fn account_step(s: SessionView) -> AccountStepView {
    if !s.hydrated || s.loading || !(s.account is SignedIn) {
        AccountStepView::Nothing
    } else if !is_entitled(s.account) {
        AccountStepView::ReturnToGuest
    } else if s.prepared == Some(s.account->SignedIn_0.account_id) {
        AccountStepView::Nothing
    } else {
        AccountStepView::Open(s.account->SignedIn_0.account_id, s.sync_started)
    }
}

/// The page once an account begins to be opened.
pub open spec fn opening(s: SessionView) -> SessionView {
    if account_step(s) is Open {
        SessionView { sync_started: false, loading: true, transitioning: true, ..s }
    } else {
        s
    }
}

/// What follows once an account was opened, or could not be.
#[derive(Clone, Copy, Debug, PartialEq, Eq, Structural)]
pub enum OpenedStep {
    /// Another principal has come meanwhile.
    Superseded,
    /// Nobody is signed in any more: the page starts again for a guest.
    RestartAsGuest,
    /// It is open.
    Opened,
    /// It could not be opened; what is stored needs repair.
    Failed,
}

/// What follows once an account was opened, or could not be.
pub open spec fn opened_step(
    s: SessionView,
    account_id: Seq<char>,
    prepared: bool,
    principal: Seq<char>,
) -> OpenedStep {
    if principal != account_principal_text(account_id) {
        OpenedStep::Superseded
    } else if !(s.account is SignedIn && s.account->SignedIn_0.account_id == account_id) {
        if s.account is Guest {
            OpenedStep::RestartAsGuest
        } else {
            OpenedStep::Superseded
        }
    } else if prepared {
        OpenedStep::Opened
    } else {
        OpenedStep::Failed
    }
}

/// The page once an account was opened, or could not be. `entitled` is what
/// the account was entitled to when it began to be opened.
pub open spec fn opened(
    s: SessionView,
    account_id: Seq<char>,
    prepared: bool,
    entitled: bool,
    principal: Seq<char>,
) -> SessionView {
    let idle = SessionView { loading: false, transitioning: false, ..s };
    match opened_step(s, account_id, prepared, principal) {
        OpenedStep::Superseded => idle,
        OpenedStep::RestartAsGuest => idle,
        OpenedStep::Opened => SessionView {
            prepared: Some(account_id),
            sync_entitled: entitled,
            ..idle
        },
        OpenedStep::Failed => SessionView {
            prepared: None,
            sync_entitled: false,
            sync_status: SyncStatus::Error,
            ..idle
        },
    }
}

/// Whether syncing has to be started.
pub open spec fn starts_sync(s: SessionView) -> bool {
    s.hydrated && s.sync_entitled && !s.sync_started
}

/// The page once syncing was started: the account is asked directly, and
/// nothing is waited for.
pub open spec fn sync_started(s: SessionView, now: u64) -> SessionView {
    if starts_sync(s) {
        SessionView {
            sync_started: true,
            sync_status: SyncStatus::Synced,
            last_server_ack_at: Some(now),
            connected: true,
            ready: true,
            ..s
        }
    } else {
        s
    }
}

/// What has to be done when the account has changed.
#[derive(Clone, Copy, Debug, PartialEq, Eq, Structural)]
pub struct AccountChange {
    /// Stop syncing.
    pub stop_sync: bool,
    /// Leave the namespace of the account, if the page is in one.
    pub return_to_guest: bool,
    /// Count again what waits.
    pub count_pending: bool,
}

/// The page after the account has changed.
pub open spec fn account_changed(s: SessionView) -> SessionView {
    if s.loading {
        SessionView { sync_status: SyncStatus::Checking, ..s }
    } else {
        match s.account {
            AccountStateView::Checking => SessionView {
                sync_status: SyncStatus::Checking,
                ..s
            },
            AccountStateView::Guest | AccountStateView::Unavailable => SessionView {
                sync_entitled: false,
                pending: 0,
                last_server_ack_at: None,
                last_request_id: None,
                last_error: None,
                sync_started: false,
                sync_status: if s.account is Guest {
                    SyncStatus::Disabled
                } else {
                    SyncStatus::Error
                },
                ..s
            },
            AccountStateView::Expired => SessionView {
                sync_entitled: false,
                sync_started: false,
                sync_status: SyncStatus::AuthPaused,
                ..s
            },
            AccountStateView::SignedIn(e) => if !e.sync_enabled {
                SessionView {
                    sync_entitled: false,
                    last_request_id: None,
                    sync_started: false,
                    sync_status: SyncStatus::BillingPaused,
                    ..s
                }
            } else if s.prepared == Some(e.account_id) {
                SessionView { sync_entitled: true, ..s }
            } else {
                s
            },
        }
    }
}

/// What has to be done when the account has changed. An account whose session
/// has run out stays on the page: only syncing stops.
pub open spec fn change_of(s: SessionView) -> AccountChange {
    let quiet = AccountChange { stop_sync: false, return_to_guest: false, count_pending: false };
    if s.loading {
        quiet
    } else {
        match s.account {
            AccountStateView::Checking => quiet,
            AccountStateView::Guest | AccountStateView::Unavailable => AccountChange {
                stop_sync: s.sync_started,
                return_to_guest: true,
                count_pending: false,
            },
            AccountStateView::Expired => AccountChange {
                stop_sync: s.sync_started,
                return_to_guest: false,
                count_pending: true,
            },
            AccountStateView::SignedIn(e) => if !e.sync_enabled {
                AccountChange {
                    stop_sync: s.sync_started,
                    return_to_guest: false,
                    count_pending: true,
                }
            } else {
                quiet
            },
        }
    }
}

impl Session {
    /// The page before anything is known.
    pub fn new() -> (r: Self)
        ensures
            r@ == new_session(),
    {
        Session {
            account: AccountState::Checking,
            hydrated: false,
            loading: false,
            transitioning: false,
            prepared: None,
            sync_started: false,
            sync_entitled: false,
            sync_status: SyncStatus::Checking,
            pending: 0,
            last_server_ack_at: None,
            last_request_id: None,
            last_error: None,
            connected: false,
            ready: true,
        }
    }

    /// Begins to open the account that is signed in, where that has to be
    /// done.
    pub fn open_account(&mut self) -> (r: AccountStep)
        ensures
            r@ == account_step(old(self)@),
            final(self)@ == opening(old(self)@),
    {
        if !self.hydrated || self.loading {
            return AccountStep::Nothing;
        }
        let (entitled, account_id) = match &self.account {
            AccountState::SignedIn(e) => (e.sync_enabled, e.account_id.clone()),
            _ => return AccountStep::Nothing,
        };
        if !entitled {
            return AccountStep::ReturnToGuest;
        }
        if let Some(prepared) = &self.prepared {
            if *prepared == account_id {
                return AccountStep::Nothing;
            }
        }
        let stop = self.sync_started;
        self.sync_started = false;
        self.loading = true;
        self.transitioning = true;
        AccountStep::Open(account_id, stop)
    }

    /// An account was opened, or could not be.
    pub fn account_opened(
        &mut self,
        account_id: &str,
        prepared: bool,
        entitled: bool,
        principal: &str,
    ) -> (r: OpenedStep)
        ensures
            r == opened_step(old(self)@, account_id@, prepared, principal@),
            final(self)@ == opened(old(self)@, account_id@, prepared, entitled, principal@),
    {
        self.loading = false;
        self.transitioning = false;
        if !text_eq(principal, &account_principal(account_id)) {
            return OpenedStep::Superseded;
        }
        match &self.account {
            AccountState::SignedIn(e) => {
                if !text_eq(&e.account_id, account_id) {
                    return OpenedStep::Superseded;
                }
            },
            AccountState::Guest => return OpenedStep::RestartAsGuest,
            _ => return OpenedStep::Superseded,
        }
        if prepared {
            self.prepared = Some(account_id.to_owned());
            self.sync_entitled = entitled;
            OpenedStep::Opened
        } else {
            self.prepared = None;
            self.sync_entitled = false;
            self.sync_status = SyncStatus::Error;
            OpenedStep::Failed
        }
    }

    /// Starts syncing, where that has to be done.
    pub fn start_authenticated_sync(&mut self, now: u64) -> (r: bool)
        ensures
            r == starts_sync(old(self)@),
            final(self)@ == sync_started(old(self)@, now),
    {
        if !self.hydrated || !self.sync_entitled || self.sync_started {
            return false;
        }
        self.sync_started = true;
        self.sync_status = SyncStatus::Synced;
        self.last_server_ack_at = Some(now);
        self.connected = true;
        self.ready = true;
        true
    }

    /// The account has changed.
    pub fn account_changed(&mut self) -> (r: AccountChange)
        ensures
            r == change_of(old(self)@),
            final(self)@ == account_changed(old(self)@),
    {
        if self.loading {
            self.sync_status = SyncStatus::Checking;
            return AccountChange {
                stop_sync: false,
                return_to_guest: false,
                count_pending: false,
            };
        }
        let stop = self.sync_started;
        let (entitled, account_id) = match &self.account {
            AccountState::Checking => {
                self.sync_status = SyncStatus::Checking;
                return AccountChange {
                    stop_sync: false,
                    return_to_guest: false,
                    count_pending: false,
                };
            },
            AccountState::Guest => {
                self.forget_server();
                self.sync_status = SyncStatus::Disabled;
                return AccountChange {
                    stop_sync: stop,
                    return_to_guest: true,
                    count_pending: false,
                };
            },
            AccountState::Unavailable => {
                self.forget_server();
                self.sync_status = SyncStatus::Error;
                return AccountChange {
                    stop_sync: stop,
                    return_to_guest: true,
                    count_pending: false,
                };
            },
            AccountState::Expired => {
                self.sync_entitled = false;
                self.sync_started = false;
                self.sync_status = SyncStatus::AuthPaused;
                return AccountChange {
                    stop_sync: stop,
                    return_to_guest: false,
                    count_pending: true,
                };
            },
            AccountState::SignedIn(e) => (e.sync_enabled, e.account_id.clone()),
        };
        if !entitled {
            self.sync_entitled = false;
            self.last_request_id = None;
            self.sync_started = false;
            self.sync_status = SyncStatus::BillingPaused;
            return AccountChange {
                stop_sync: stop,
                return_to_guest: false,
                count_pending: true,
            };
        }
        if let Some(prepared) = &self.prepared {
            if *prepared == account_id {
                self.sync_entitled = true;
            }
        }
        AccountChange { stop_sync: false, return_to_guest: false, count_pending: false }
    }

    fn forget_server(&mut self)
        ensures
            final(self)@ == (SessionView {
                sync_entitled: false,
                pending: 0,
                last_server_ack_at: None,
                last_request_id: None,
                last_error: None,
                sync_started: false,
                ..old(self)@
            }),
    {
        self.sync_entitled = false;
        self.pending = 0;
        self.last_server_ack_at = None;
        self.last_request_id = None;
        self.last_error = None;
        self.sync_started = false;
    }

    /// The state of the account was found out again in the background. It is
    /// taken only for the principal that was asked for, and an answer that
    /// could not be had does not sign anybody out.
    pub fn account_refreshed(
        &mut self,
        state: AccountState,
        asked: &str,
        principal: &str,
    ) -> (r: bool)
        ensures
            r == (asked@ == principal@ && !(state@ is Unavailable && old(self)@.account is
                SignedIn)),
            final(self)@ == (if r {
                SessionView { account: state@, ..old(self)@ }
            } else {
                old(self)@
            }),
    {
        if !text_eq(asked, principal) {
            return false;
        }
        let unavailable = match &state {
            AccountState::Unavailable => true,
            _ => false,
        };
        if unavailable && self.account.is_authenticated() {
            return false;
        }
        self.account = state;
        true
    }

    /// The state of the account was found out, at the beginning or because the
    /// user asked for it.
    pub fn account_found(&mut self, state: AccountState, asked: &str, principal: &str) -> (r: bool)
        ensures
            r == (asked@ == principal@),
            final(self)@ == (if r {
                SessionView { account: state@, ..old(self)@ }
            } else {
                old(self)@
            }),
    {
        if !text_eq(asked, principal) {
            return false;
        }
        self.account = state;
        true
    }

    /// Whether what is on the desk may be written: not before what is stored
    /// was read, and not between two principals.
    pub fn may_write_desk(&self) -> (r: bool)
        ensures
            r == (self@.hydrated && !self@.transitioning),
    {
        self.hydrated && !self.transitioning
    }

    /// Whether boards may be sent to the server: not after the session has run
    /// out, until somebody signs in again.
    pub fn may_send_boards(&self) -> (r: bool)
        ensures
            r == !(self@.account is Expired),
    {
        match &self.account {
            AccountState::Expired => false,
            _ => true,
        }
    }

    /// Whether the spaces of the account are still being opened.
    pub fn shows_opening(&self) -> (r: bool)
        ensures
            r == (!self@.ready && self@.account is SignedIn),
    {
        !self.ready && self.account.is_authenticated()
    }

    /// Whether the keyboard is kept from the board: while an account that is
    /// signed in may not sync.
    pub fn keyboard_is_off(&self) -> (r: bool)
        ensures
            r == (self@.account is SignedIn && !is_entitled(self@.account)),
    {
        match &self.account {
            AccountState::SignedIn(e) => !e.sync_enabled,
            _ => false,
        }
    }
}

/// Whether the page has to leave the namespace it is in: it does in that of an
/// account.
pub fn return_to_guest_namespace(principal: &str) -> (r: bool)
    ensures
        r == !guest_principal_text(principal@),
{
    !is_guest_principal(principal)
}

/// What an account that is about to be opened may take over from the shelf: a
/// guest's spaces with what is on the desk, and of another account only the
/// spaces that stay on the device.
pub open spec fn handed_over(s: ShelfView, env: SurroundingsView) -> WorkspaceView {
    let w = workspace_with_board(
        env,
        s.spaces,
        s.active_space_id,
        s.desk.notes,
        s.desk.groups,
        s.tombstones,
    );
    if guest_principal_text(s.principal) {
        normalized_workspace(env, w)
    } else {
        normalized_workspace(env, local_only(env, w))
    }
}

impl Shelf {
    /// What an account that is about to be opened may take over.
    pub fn hand_over(&self, env: &Surroundings) -> (r: WorkspaceData)
        ensures
            r@ == handed_over(self@, env@),
    {
        let w = workspace_with_current_board(
            env,
            &self.spaces,
            self.active_space_id,
            &self.desk.notes,
            &self.desk.groups,
            &self.tombstones,
        );
        if is_guest_principal(&self.principal) {
            normalize_workspace(env, w)
        } else {
            normalize_workspace(env, local_only_workspace(env, w))
        }
    }
}

/// Once the account is known and may not sync, nothing is synced, whatever
/// happened before.
pub proof fn only_entitled_accounts_sync(s: SessionView, now: u64)
    requires
        !s.loading,
        !is_entitled(s.account),
        !(s.account is Checking),
    ensures
        !account_changed(s).sync_entitled,
        !account_changed(s).sync_started,
        sync_started(account_changed(s), now) == account_changed(s),
{
}

/// When a session runs out, the page stays with the account and its spaces as
/// they are on the device, and syncing stops, until somebody signs in again:
/// then the account that was open goes on as it is.
pub proof fn expired_accounts_stay_on_the_page(s: SessionView, e: EntitlementView, now: u64)
    requires
        s.account is Expired,
        !s.loading,
    ensures
        !change_of(s).return_to_guest,
        change_of(s).stop_sync == s.sync_started,
        account_step(s) is Nothing,
        account_changed(s) == (SessionView {
            sync_entitled: false,
            sync_started: false,
            sync_status: SyncStatus::AuthPaused,
            ..s
        }),
        sync_started(account_changed(s), now) == account_changed(s),
        e.sync_enabled && s.hydrated && s.prepared == Some(e.account_id) ==> {
            let back = SessionView { account: AccountStateView::SignedIn(e), ..account_changed(s) };
            &&& account_step(back) is Nothing
            &&& starts_sync(account_changed(back))
        },
{
}

/// While an account is being opened nothing else is, and nothing is saved; once
/// it has been, or could not be, both are over.
pub proof fn openings_end(
    s: SessionView,
    account_id: Seq<char>,
    prepared: bool,
    entitled: bool,
    principal: Seq<char>,
)
    requires
        account_step(s) is Open,
    ensures
        opening(s).loading,
        opening(s).transitioning,
        account_step(opening(s)) is Nothing,
        !opened(opening(s), account_id, prepared, entitled, principal).loading,
        !opened(opening(s), account_id, prepared, entitled, principal).transitioning,
{
}

/// An account that was opened is not opened again.
pub proof fn opened_accounts_stay_open(s: SessionView, entitled: bool, principal: Seq<char>)
    requires
        account_step(s) is Open,
        principal == account_principal_text(s.account->SignedIn_0.account_id),
    ensures
        account_step(
            opened(opening(s), s.account->SignedIn_0.account_id, true, entitled, principal),
        ) is Nothing,
{
}

/// A page starts with nobody known, nothing read, nothing synced and no account
/// open.
pub proof fn sessions_start_empty()
    ensures
        ({
            let s = new_session();
            &&& s.account is Checking
            &&& !s.hydrated
            &&& !s.loading
            &&& !s.transitioning
            &&& s.prepared is None
            &&& !s.sync_started
            &&& !s.sync_entitled
            &&& s.pending == 0
            &&& account_step(s) is Nothing
            &&& !starts_sync(s)
        }),
{
}

/// An account is opened where it is signed in, may sync and is not open yet, once
/// what is stored was read and while no other one is being opened. One that may
/// not sync goes back to the guest.
pub proof fn accounts_are_opened_once(s: SessionView)
    ensures
        account_step(s) is Open == (s.hydrated && !s.loading && (
        s.account matches AccountStateView::SignedIn(e) && e.sync_enabled && s.prepared != Some(
            e.account_id,
        ))),
        account_step(s) matches AccountStepView::Open(id, stop) ==> (
        s.account matches AccountStateView::SignedIn(e) && e.account_id == id) && stop
            == s.sync_started,
        account_step(s) is ReturnToGuest == (s.hydrated && !s.loading && (
        s.account matches AccountStateView::SignedIn(e) && !e.sync_enabled)),
        !(account_step(s) is Open) ==> opening(s) == s,
        account_step(s) is Open ==> opening(s) == (SessionView {
            sync_started: false,
            loading: true,
            transitioning: true,
            ..s
        }),
{
}

/// An account that was loaded is open where it still is the one that is signed
/// in and the storage is its own; anything else leaves the open account as it
/// was.
pub proof fn loaded_accounts_are_open(
    s: SessionView,
    account_id: Seq<char>,
    prepared: bool,
    entitled: bool,
    principal: Seq<char>,
)
    ensures
        ({
            let r = opened(s, account_id, prepared, entitled, principal);
            let step = opened_step(s, account_id, prepared, principal);
            let still = principal == account_principal_text(account_id) && (
            s.account matches AccountStateView::SignedIn(e) && e.account_id == account_id);
            &&& step == OpenedStep::Opened <==> still && prepared
            &&& step == OpenedStep::Failed <==> still && !prepared
            &&& step == OpenedStep::RestartAsGuest <==> principal == account_principal_text(
                account_id,
            ) && s.account is Guest
            &&& still && prepared ==> r.prepared == Some(account_id) && r.sync_entitled == entitled
                && r.sync_status == s.sync_status
            &&& still && !prepared ==> r.prepared is None && !r.sync_entitled && r.sync_status
                == SyncStatus::Error
            &&& !still ==> r.prepared == s.prepared && r.sync_entitled == s.sync_entitled
                && r.sync_status == s.sync_status
            &&& r.account == s.account
            &&& !r.loading
            &&& !r.transitioning
            &&& r.hydrated == s.hydrated
            &&& r.sync_started == s.sync_started
            &&& r.pending == s.pending
        }),
{
}

/// Syncing starts once, for an account that may, when what is stored was read.
pub proof fn syncing_starts_once(s: SessionView, now: u64)
    ensures
        starts_sync(s) == (s.hydrated && s.sync_entitled && !s.sync_started),
        starts_sync(s) ==> sync_started(s, now) == (SessionView {
            sync_started: true,
            sync_status: SyncStatus::Synced,
            last_server_ack_at: Some(now),
            connected: true,
            ready: true,
            ..s
        }),
        !starts_sync(s) ==> sync_started(s, now) == s,
        !starts_sync(sync_started(s, now)),
{
}

/// What a change of the account does to the session: whoever may not sync stops
/// syncing and sees why; a guest has nothing waiting; an open account that may
/// sync goes on. While an account is loading only the status changes.
pub proof fn account_changes_are_followed(s: SessionView)
    ensures
        ({
            let r = account_changed(s);
            &&& r.account == s.account
            &&& r.hydrated == s.hydrated
            &&& r.loading == s.loading
            &&& r.transitioning == s.transitioning
            &&& r.prepared == s.prepared
            &&& r.connected == s.connected
            &&& r.ready == s.ready
            &&& s.loading || s.account is Checking ==> r == (SessionView {
                sync_status: SyncStatus::Checking,
                ..s
            })
            &&& !s.loading && (s.account is Guest || s.account is Unavailable) ==> r.pending == 0
                && r.last_server_ack_at is None && r.last_request_id is None && r.last_error
                is None && !r.sync_entitled && !r.sync_started
            &&& !s.loading && s.account is Guest ==> r.sync_status == SyncStatus::Disabled
            &&& !s.loading && s.account is Unavailable ==> r.sync_status == SyncStatus::Error
            &&& !s.loading && s.account is Expired ==> r.sync_status == SyncStatus::AuthPaused
                && r.pending == s.pending
            &&& !s.loading && (s.account matches AccountStateView::SignedIn(e) && !e.sync_enabled)
                ==> r.sync_status == SyncStatus::BillingPaused && r.pending == s.pending
                && r.last_error == s.last_error && r.last_server_ack_at == s.last_server_ack_at
                && r.last_request_id is None && !r.sync_entitled && !r.sync_started
            &&& !s.loading && (s.account matches AccountStateView::SignedIn(e) && e.sync_enabled
                && s.prepared == Some(e.account_id)) ==> r == (SessionView {
                sync_entitled: true,
                ..s
            })
            &&& !s.loading && (s.account matches AccountStateView::SignedIn(e) && e.sync_enabled
                && s.prepared != Some(e.account_id)) ==> r == s
        }),
{
}

/// What has to be done for a change of the account: syncing is stopped where it
/// runs and may not, only a guest's page or one that the server does not answer
/// leaves the namespace, and what waits is counted where it is kept.
pub proof fn account_changes_stop_what_runs(s: SessionView)
    ensures
        ({
            let c = change_of(s);
            let may = s.account matches AccountStateView::SignedIn(e) && e.sync_enabled;
            let quiet = s.loading || s.account is Checking || may;
            &&& c.stop_sync == (!quiet && s.sync_started)
            &&& c.return_to_guest == (!quiet && (s.account is Guest || s.account is Unavailable))
            &&& c.count_pending == (!quiet && (s.account is Expired || s.account is SignedIn))
        }),
{
}

/// A guest hands over every space, with what is on the desk in the one in front.
pub proof fn guests_hand_over_everything(s: ShelfView, env: SurroundingsView, k: int)
    requires
        guest_principal_text(s.principal),
        0 <= k < s.spaces.len(),
    ensures
        ({
            let r = handed_over(s, env);
            &&& r.spaces.len() == s.spaces.len()
            &&& r.spaces[k].id == s.spaces[k].id
            &&& r.spaces[k].name == s.spaces[k].name
            &&& !is_first_of(s.spaces, s.active_space_id, k) ==> r.spaces[k].board.notes.len()
                == s.spaces[k].board.notes.len()
            &&& is_first_of(s.spaces, s.active_space_id, k) ==> r.spaces[k].board.notes.len()
                == s.desk.notes.len() && r.spaces[k].board.groups.len() == s.desk.groups.len()
                && (forall|i: int|
                0 <= i < s.desk.notes.len() ==> (#[trigger] r.spaces[k].board.notes[i]).text
                    == s.desk.notes[i].text)
        }),
{
    let w = workspace_with_board(
        env,
        s.spaces,
        s.active_space_id,
        s.desk.notes,
        s.desk.groups,
        s.tombstones,
    );
    crate::persist::workspaces_hold_what_they_are_made_of(
        env,
        s.spaces,
        s.active_space_id,
        s.desk.notes,
        s.desk.groups,
        s.tombstones,
        k,
    );
    crate::workspace::normalizing_keeps_the_spaces(env, w, k);
    let r = handed_over(s, env);
    if is_first_of(s.spaces, s.active_space_id, k) {
        assert forall|i: int| 0 <= i < s.desk.notes.len() implies (
        #[trigger] r.spaces[k].board.notes[i]).text == s.desk.notes[i].text by {
            crate::workspace::normalizing_keeps_the_notes(env, w, k, i);
        }
    }
}

/// What an account leaves on the device is what never syncs: no space that syncs
/// is handed over, and every other one is.
pub proof fn accounts_hand_over_local_spaces(s: ShelfView, env: SurroundingsView, k: int)
    requires
        !guest_principal_text(s.principal),
    ensures
        0 <= k < handed_over(s, env).spaces.len() ==> !handed_over(s, env).spaces[k].sync_enabled,
        0 <= k < s.spaces.len() && !s.spaces[k].sync_enabled ==> exists|i: int|
            0 <= i < handed_over(s, env).spaces.len() && (
            #[trigger] handed_over(s, env).spaces[i]).id == s.spaces[k].id && handed_over(
                s,
                env,
            ).spaces[i].name == s.spaces[k].name,
{
    let w = workspace_with_board(
        env,
        s.spaces,
        s.active_space_id,
        s.desk.notes,
        s.desk.groups,
        s.tombstones,
    );
    let l = local_only(env, w);
    let r = handed_over(s, env);
    crate::adoption::local_spaces_stay_on_the_device(env, w, k);
    crate::workspace::normalizing_keeps_the_size(env, l);
    if 0 <= k < r.spaces.len() {
        crate::workspace::normalizing_keeps_the_spaces(env, l, k);
    }
    if 0 <= k < s.spaces.len() {
        crate::persist::workspaces_hold_what_they_are_made_of(
            env,
            s.spaces,
            s.active_space_id,
            s.desk.notes,
            s.desk.groups,
            s.tombstones,
            k,
        );
        if !s.spaces[k].sync_enabled {
            let i = choose|i: int|
                0 <= i < l.spaces.len() && (#[trigger] l.spaces[i]).id == w.spaces[k].id
                    && l.spaces[i].name == w.spaces[k].name;
            crate::workspace::normalizing_keeps_the_spaces(env, l, i);
            assert(r.spaces[i].id == s.spaces[k].id);
        }
    }
}

} // verus!
