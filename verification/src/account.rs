//! The account behind a browser: what it may do, what the browser remembers
//! of it, and how its state is found out.
use vstd::prelude::*;
use vstd::string::*;

use crate::identity::account_principal;
use crate::identity::account_principal_text;
use crate::lists::opt_view;
use crate::lists::views;
use crate::text::blank;
use crate::text::clone_opt;
use crate::text::is_blank;
use crate::text::lowered;
use crate::text::split;
use crate::text::split_at;
use crate::text::split_once;
use crate::text::split_once_at;
use crate::text::text_eq;
use crate::text::to_ascii_lowercase;
use crate::text::trim_start_matches;
use crate::text::without_leading;

verus! {

/// What an account is entitled to.
#[derive(Debug, PartialEq)]
pub struct Entitlement {
    pub account_id: String,
    pub plan: String,
    pub status: String,
    pub sync_enabled: bool,
    pub max_spaces: u32,
    pub provider: Option<String>,
    pub provider_customer_id: Option<String>,
}

/// What an account is entitled to, its texts as characters.
pub struct EntitlementView {
    pub account_id: Seq<char>,
    pub plan: Seq<char>,
    pub status: Seq<char>,
    pub sync_enabled: bool,
    pub max_spaces: u32,
    pub provider: Option<Seq<char>>,
    pub provider_customer_id: Option<Seq<char>>,
}

impl View for Entitlement {
    type V = EntitlementView;

    open spec fn view(&self) -> EntitlementView {
        EntitlementView {
            account_id: self.account_id@,
            plan: self.plan@,
            status: self.status@,
            sync_enabled: self.sync_enabled,
            max_spaces: self.max_spaces,
            provider: opt_view(self.provider),
            provider_customer_id: opt_view(self.provider_customer_id),
        }
    }
}

impl Clone for Entitlement {
    fn clone(&self) -> (r: Self)
        ensures
            r@ == self@,
    {
        Entitlement {
            account_id: self.account_id.clone(),
            plan: self.plan.clone(),
            status: self.status.clone(),
            sync_enabled: self.sync_enabled,
            max_spaces: self.max_spaces,
            provider: clone_opt(&self.provider),
            provider_customer_id: clone_opt(&self.provider_customer_id),
        }
    }
}

impl Default for Entitlement {
    fn default() -> (r: Self)
        ensures
            r@ == (EntitlementView {
                account_id: Seq::empty(),
                plan: Seq::empty(),
                status: Seq::empty(),
                sync_enabled: false,
                max_spaces: 0,
                provider: None,
                provider_customer_id: None,
            }),
    {
        Entitlement {
            account_id: String::new(),
            plan: String::new(),
            status: String::new(),
            sync_enabled: false,
            max_spaces: 0,
            provider: None,
            provider_customer_id: None,
        }
    }
}

impl Entitlement {
    /// Whether the account's spaces are kept on the server.
    pub fn can_sync(&self) -> (r: bool)
        ensures
            r == self@.sync_enabled,
    {
        self.sync_enabled
    }

    /// Whether the account's spaces are kept on the server at a given time:
    /// what an account may do does not run out.
    pub fn can_sync_at(&self, _now_secs: u64) -> (r: bool)
        ensures
            r == self@.sync_enabled,
    {
        self.sync_enabled
    }

    /// Whether the account has a customer record at a payment provider.
    pub fn has_billing_customer(&self) -> (r: bool)
        ensures
            r == (self@.provider is Some && self@.provider_customer_id is Some),
    {
        self.provider.is_some() && self.provider_customer_id.is_some()
    }
}

/// What a browser knows of its account.
#[derive(Debug, PartialEq)]
pub enum AccountState {
    /// It is being found out.
    Checking,
    /// Nobody is signed in.
    Guest,
    /// Somebody was signed in, and the session can no longer be renewed. What
    /// the device has of the account stays visible, and syncing pauses until
    /// somebody signs in again.
    Expired,
    /// Somebody is signed in.
    SignedIn(Entitlement),
    /// It could not be found out.
    Unavailable,
}

/// What a browser knows of its account, as a view.
pub enum AccountStateView {
    Checking,
    Guest,
    Expired,
    SignedIn(EntitlementView),
    Unavailable,
}

impl View for AccountState {
    type V = AccountStateView;

    open spec fn view(&self) -> AccountStateView {
        match self {
            AccountState::Checking => AccountStateView::Checking,
            AccountState::Guest => AccountStateView::Guest,
            AccountState::Expired => AccountStateView::Expired,
            AccountState::SignedIn(e) => AccountStateView::SignedIn(e@),
            AccountState::Unavailable => AccountStateView::Unavailable,
        }
    }
}

impl Clone for AccountState {
    fn clone(&self) -> (r: Self)
        ensures
            r@ == self@,
    {
        match self {
            AccountState::Checking => AccountState::Checking,
            AccountState::Guest => AccountState::Guest,
            AccountState::Expired => AccountState::Expired,
            AccountState::SignedIn(e) => AccountState::SignedIn(e.clone()),
            AccountState::Unavailable => AccountState::Unavailable,
        }
    }
}

impl AccountState {
    /// Whether somebody is signed in.
    pub fn is_authenticated(&self) -> (r: bool)
        ensures
            r == (self@ is SignedIn),
    {
        match self {
            AccountState::SignedIn(_) => true,
            _ => false,
        }
    }

    /// What the account is entitled to, where somebody is signed in.
    pub fn entitlement(&self) -> (r: Option<&Entitlement>)
        ensures
            match r {
                Some(e) => self@ == AccountStateView::SignedIn(e@),
                None => !(self@ is SignedIn),
            },
    {
        match self {
            AccountState::SignedIn(e) => Some(e),
            _ => None,
        }
    }
}

/// What the address says about a payment that the user comes back from.
#[derive(Clone, Copy, Debug, PartialEq, Eq, Structural)]
pub enum CheckoutReturnState {
    Nothing,
    Pending,
    Failed,
}

/// Where a store keeps that a session was opened.
pub const AUTHENTICATED_SESSION_STORAGE_KEY: &'static str = "mybox_authenticated_session";

/// Where a store keeps which account is active.
pub const ACTIVE_ACCOUNT_ID_STORAGE_KEY: &'static str = "mybox_active_account_id";

/// A change of one entry of a browser's store.
#[derive(Debug, PartialEq)]
pub enum StoreWrite {
    Put(String, String),
    Remove(String),
}

/// A change of one entry of a store, its texts as characters.
pub enum StoreWriteView {
    Put(Seq<char>, Seq<char>),
    Remove(Seq<char>),
}

impl View for StoreWrite {
    type V = StoreWriteView;

    open spec fn view(&self) -> StoreWriteView {
        match self {
            StoreWrite::Put(k, v) => StoreWriteView::Put(k@, v@),
            StoreWrite::Remove(k) => StoreWriteView::Remove(k@),
        }
    }
}

/// The writes that remember a session.
pub open spec fn session_writes() -> Seq<StoreWriteView> {
    seq![StoreWriteView::Put("mybox_authenticated_session"@, "true"@)]
}

/// The writes that forget a session and its account.
pub open spec fn forget_writes() -> Seq<StoreWriteView> {
    seq![
        StoreWriteView::Remove("mybox_authenticated_session"@),
        StoreWriteView::Remove("mybox_active_account_id"@),
    ]
}

/// The writes that remember an account: its session, and its id where it has
/// one.
pub open spec fn account_writes(account_id: Seq<char>) -> Seq<StoreWriteView> {
    if blank(account_id) {
        session_writes()
    } else {
        session_writes().push(StoreWriteView::Put("mybox_active_account_id"@, account_id))
    }
}

/// What to write into every store of the browser to remember a session.
pub fn remember_authenticated_session() -> (r: Vec<StoreWrite>)
    ensures
        views(r@) == session_writes(),
{
    let mut out: Vec<StoreWrite> = Vec::new();
    out.push(
        StoreWrite::Put("mybox_authenticated_session".to_owned(), "true".to_owned()),
    );
    assert(views(out@) =~= session_writes());
    out
}

/// What to write into every store of the browser to forget a session.
pub fn forget_authenticated_session() -> (r: Vec<StoreWrite>)
    ensures
        views(r@) == forget_writes(),
{
    let mut out: Vec<StoreWrite> = Vec::new();
    out.push(StoreWrite::Remove("mybox_authenticated_session".to_owned()));
    out.push(StoreWrite::Remove("mybox_active_account_id".to_owned()));
    assert(views(out@) =~= forget_writes());
    out
}

/// What to write into every store of the browser to remember an account.
pub fn remember_authenticated_account(account_id: &str) -> (r: Vec<StoreWrite>)
    ensures
        views(r@) == account_writes(account_id@),
{
    let mut out = remember_authenticated_session();
    if !is_blank(account_id) {
        out.push(
            StoreWrite::Put("mybox_active_account_id".to_owned(), account_id.to_owned()),
        );
    }
    assert(views(out@) =~= account_writes(account_id@));
    out
}

/// What one store of the browser holds of a session.
#[derive(Debug, PartialEq)]
pub struct RememberedSession {
    pub session: Option<String>,
    pub account_id: Option<String>,
}

/// What one store holds of a session, its texts as characters.
pub struct RememberedSessionView {
    pub session: Option<Seq<char>>,
    pub account_id: Option<Seq<char>>,
}

impl View for RememberedSession {
    type V = RememberedSessionView;

    open spec fn view(&self) -> RememberedSessionView {
        RememberedSessionView {
            session: opt_view(self.session),
            account_id: opt_view(self.account_id),
        }
    }
}

/// The principal that one store remembers: an open session with an account.
pub open spec fn store_principal(store: RememberedSessionView) -> Option<Seq<char>> {
    match (store.session, store.account_id) {
        (Some(session), Some(id)) => if session == "true"@ && !blank(id) {
            Some(account_principal_text(id))
        } else {
            None
        },
        _ => None,
    }
}

/// The principal of the first store that remembers one.
pub open spec fn first_principal(stores: Seq<RememberedSessionView>) -> Option<Seq<char>>
    decreases stores.len(),
{
    if stores.len() == 0 {
        None
    } else {
        match store_principal(stores[0]) {
            Some(principal) => Some(principal),
            None => first_principal(stores.skip(1)),
        }
    }
}

/// The account that the browser remembers, from what its stores hold.
pub fn remembered_account_principal(stores: &Vec<RememberedSession>) -> (r: Option<String>)
    ensures
        opt_view(r) == first_principal(views(stores@)),
{
    let ghost all = views(stores@);
    let mut i: usize = 0;
    assert(all.skip(0) =~= all);
    while i < stores.len()
        invariant
            all == views(stores@),
            i <= stores@.len(),
            first_principal(all) == first_principal(all.skip(i as int)),
        decreases stores@.len() - i,
    {
        assert(all.skip(i as int)[0] == stores@[i as int]@);
        assert(all.skip(i as int).skip(1) =~= all.skip(i + 1));
        let store = &stores[i];
        if let Some(session) = &store.session {
            if text_eq(session, "true") {
                if let Some(id) = &store.account_id {
                    if !is_blank(id) {
                        return Some(account_principal(id));
                    }
                }
            }
        }
        i = i + 1;
    }
    None
}

/// The state of a browser whose session cannot be renewed.
pub open spec fn expired_state(has_remembered_account: bool) -> AccountStateView {
    if has_remembered_account {
        AccountStateView::Expired
    } else {
        AccountStateView::Guest
    }
}

/// The state of a browser whose session cannot be renewed.
pub fn state_after_session_expiry_for(has_remembered_account: bool) -> (r: AccountState)
    ensures
        r@ == expired_state(has_remembered_account),
{
    if has_remembered_account {
        AccountState::Expired
    } else {
        AccountState::Guest
    }
}

/// The state of a browser whose session cannot be renewed, from what its
/// stores hold.
pub fn state_after_session_expiry(stores: &Vec<RememberedSession>) -> (r: AccountState)
    ensures
        r@ == expired_state(first_principal(views(stores@)) is Some),
{
    state_after_session_expiry_for(remembered_account_principal(stores).is_some())
}

/// Whether a response says that the request succeeded.
pub open spec fn is_success(status: u16) -> bool {
    200 <= status < 300
}

/// Where finding out the account state stands.
#[derive(Clone, Copy, Debug, PartialEq, Eq, Structural)]
pub enum LoadPhase {
    /// The session is asked for.
    Session,
    /// The session is renewed because it had run out.
    SessionRefresh,
    /// The entitlement is asked for.
    Entitlement,
    /// The session is renewed because the entitlement was refused.
    EntitlementRefresh,
    /// The entitlement is read.
    Body,
}

/// The state of finding out the account state.
#[derive(Clone, Copy, Debug, PartialEq, Eq, Structural)]
pub struct AccountLoad {
    pub phase: LoadPhase,
    pub refresh_attempted: bool,
}

/// What came back from outside.
#[derive(Debug, PartialEq)]
pub enum LoadEvent {
    /// The request could not be made.
    Failed,
    /// The status of the response.
    Status(u16),
    /// Whether the session was renewed.
    Refreshed(bool),
    /// The entitlement, where it could be read.
    Body(Option<Entitlement>),
}

/// What has to be done next.
#[derive(Debug, PartialEq)]
pub enum LoadAction {
    AskSession,
    Refresh,
    AskEntitlement,
    ReadBody,
    /// The state is found out, and this has to be written into every store of
    /// the browser.
    Done(AccountState, Vec<StoreWrite>),
}

/// What has to be done next, as a view.
pub enum LoadActionView {
    AskSession,
    Refresh,
    AskEntitlement,
    ReadBody,
    Done(AccountStateView, Seq<StoreWriteView>),
}

impl View for LoadAction {
    type V = LoadActionView;

    open spec fn view(&self) -> LoadActionView {
        match self {
            LoadAction::AskSession => LoadActionView::AskSession,
            LoadAction::Refresh => LoadActionView::Refresh,
            LoadAction::AskEntitlement => LoadActionView::AskEntitlement,
            LoadAction::ReadBody => LoadActionView::ReadBody,
            LoadAction::Done(s, writes) => LoadActionView::Done(s@, views(writes@)),
        }
    }
}

/// What came back, as a view.
pub enum LoadEventView {
    Failed,
    Status(u16),
    Refreshed(bool),
    Body(Option<EntitlementView>),
}

impl View for LoadEvent {
    type V = LoadEventView;

    open spec fn view(&self) -> LoadEventView {
        match self {
            LoadEvent::Failed => LoadEventView::Failed,
            LoadEvent::Status(s) => LoadEventView::Status(*s),
            LoadEvent::Refreshed(b) => LoadEventView::Refreshed(*b),
            LoadEvent::Body(e) => LoadEventView::Body(opt_view(*e)),
        }
    }
}

/// What has to be written into every store once the state is found out: an
/// account that is signed in is remembered.
pub open spec fn load_writes(state: AccountStateView) -> Seq<StoreWriteView> {
    match state {
        AccountStateView::SignedIn(e) => account_writes(e.account_id),
        _ => Seq::empty(),
    }
}

/// The state is found out.
pub open spec fn load_done(state: AccountStateView) -> LoadActionView {
    LoadActionView::Done(state, load_writes(state))
}

fn finish_load(state: AccountState) -> (r: LoadAction)
    ensures
        r@ == load_done(state@),
{
    let writes = match &state {
        AccountState::SignedIn(e) => remember_authenticated_account(&e.account_id),
        _ => Vec::new(),
    };
    assert(views(writes@) =~= load_writes(state@));
    LoadAction::Done(state, writes)
}

/// The next state and action. A session that has run out is renewed once; one
/// that cannot be renewed leaves a guest, or an account that has to sign in
/// again. Whatever else goes wrong leaves the state unknown.
pub open spec fn load_step(
    load: AccountLoad,
    event: LoadEventView,
    remembered: bool,
) -> (AccountLoad, LoadActionView) {
    let unavailable = load_done(AccountStateView::Unavailable);
    let expired = load_done(expired_state(remembered));
    match (load.phase, event) {
        (LoadPhase::Session, LoadEventView::Status(status)) => if status == 401 {
            if load.refresh_attempted {
                (load, expired)
            } else {
                (AccountLoad { phase: LoadPhase::SessionRefresh, ..load }, LoadActionView::Refresh)
            }
        } else if is_success(status) {
            (
                AccountLoad { phase: LoadPhase::Entitlement, ..load },
                LoadActionView::AskEntitlement,
            )
        } else {
            (load, unavailable)
        },
        (LoadPhase::SessionRefresh, LoadEventView::Refreshed(renewed)) => if renewed {
            (
                AccountLoad { phase: LoadPhase::Session, refresh_attempted: true },
                LoadActionView::AskSession,
            )
        } else {
            (load, expired)
        },
        (LoadPhase::Entitlement, LoadEventView::Status(status)) => if status == 401 {
            if load.refresh_attempted {
                (load, expired)
            } else {
                (
                    AccountLoad { phase: LoadPhase::EntitlementRefresh, ..load },
                    LoadActionView::Refresh,
                )
            }
        } else if is_success(status) {
            (AccountLoad { phase: LoadPhase::Body, ..load }, LoadActionView::ReadBody)
        } else {
            (load, unavailable)
        },
        (LoadPhase::EntitlementRefresh, LoadEventView::Refreshed(renewed)) => if renewed {
            (
                AccountLoad { phase: LoadPhase::Session, refresh_attempted: true },
                LoadActionView::AskSession,
            )
        } else {
            (load, expired)
        },
        (LoadPhase::Body, LoadEventView::Body(Some(e))) => (
            load,
            load_done(AccountStateView::SignedIn(e)),
        ),
        _ => (load, unavailable),
    }
}

impl AccountLoad {
    /// The state in which the session is asked for.
    pub fn start() -> (r: Self)
        ensures
            r == (AccountLoad { phase: LoadPhase::Session, refresh_attempted: false }),
    {
        AccountLoad { phase: LoadPhase::Session, refresh_attempted: false }
    }

    /// Decides what to do after something came back. `remembered` says whether
    /// the browser remembers an account.
    pub fn step(&mut self, event: LoadEvent, remembered: bool) -> (r: LoadAction)
        ensures
            (*final(self), r@) == load_step(*old(self), event@, remembered),
    {
        match (self.phase, event) {
            (LoadPhase::Session, LoadEvent::Status(status)) => {
                if status == 401 {
                    if self.refresh_attempted {
                        finish_load(state_after_session_expiry_for(remembered))
                    } else {
                        self.phase = LoadPhase::SessionRefresh;
                        LoadAction::Refresh
                    }
                } else if 200 <= status && status < 300 {
                    self.phase = LoadPhase::Entitlement;
                    LoadAction::AskEntitlement
                } else {
                    finish_load(AccountState::Unavailable)
                }
            },
            (LoadPhase::SessionRefresh, LoadEvent::Refreshed(renewed)) => {
                if renewed {
                    self.phase = LoadPhase::Session;
                    self.refresh_attempted = true;
                    LoadAction::AskSession
                } else {
                    finish_load(state_after_session_expiry_for(remembered))
                }
            },
            (LoadPhase::Entitlement, LoadEvent::Status(status)) => {
                if status == 401 {
                    if self.refresh_attempted {
                        finish_load(state_after_session_expiry_for(remembered))
                    } else {
                        self.phase = LoadPhase::EntitlementRefresh;
                        LoadAction::Refresh
                    }
                } else if 200 <= status && status < 300 {
                    self.phase = LoadPhase::Body;
                    LoadAction::ReadBody
                } else {
                    finish_load(AccountState::Unavailable)
                }
            },
            (LoadPhase::EntitlementRefresh, LoadEvent::Refreshed(renewed)) => {
                if renewed {
                    self.phase = LoadPhase::Session;
                    self.refresh_attempted = true;
                    LoadAction::AskSession
                } else {
                    finish_load(state_after_session_expiry_for(remembered))
                }
            },
            (LoadPhase::Body, LoadEvent::Body(Some(e))) => finish_load(AccountState::SignedIn(e)),
            _ => finish_load(AccountState::Unavailable),
        }
    }
}

/// How many steps finding out the account state can still take.
pub open spec fn steps_left(load: AccountLoad) -> int {
    let base = if load.refresh_attempted {
        0int
    } else {
        4int
    };
    match load.phase {
        LoadPhase::Session => base + 3,
        LoadPhase::SessionRefresh => base + 2,
        LoadPhase::Entitlement => base + 2,
        LoadPhase::EntitlementRefresh => base + 1,
        LoadPhase::Body => base + 1,
    }
}

/// A session that is being renewed has not been renewed before.
pub open spec fn load_is_sound(load: AccountLoad) -> bool {
    load.phase == LoadPhase::SessionRefresh || load.phase == LoadPhase::EntitlementRefresh
        ==> !load.refresh_attempted
}

/// Finding out the account state ends, and renews the session at most once.
pub proof fn account_load_ends(load: AccountLoad, event: LoadEventView, remembered: bool)
    requires
        load_is_sound(load),
    ensures
        ({
            let (next, action) = load_step(load, event, remembered);
            &&& load_is_sound(next)
            &&& action is Done || 0 < steps_left(next) < steps_left(load)
            &&& load.refresh_attempted ==> !(action is Refresh) && next.refresh_attempted
            &&& action is AskSession ==> next.refresh_attempted
        }),
{
}

/// Somebody is signed in exactly where the entitlement was read, and then the
/// account is remembered.
pub proof fn signed_in_means_entitled(load: AccountLoad, event: LoadEventView, remembered: bool)
    ensures
        load_step(load, event, remembered).1 matches LoadActionView::Done(
            AccountStateView::SignedIn(e),
            _,
        ) ==> load.phase == LoadPhase::Body && event == LoadEventView::Body(Some(e)),
        load.phase == LoadPhase::Body ==> (event matches LoadEventView::Body(Some(e)) ==> load_step(
            load,
            event,
            remembered,
        ).1 == LoadActionView::Done(
            AccountStateView::SignedIn(e),
            account_writes(e.account_id),
        )),
{
}

/// Where renewing a session stands.
#[derive(Clone, Copy, Debug, PartialEq, Eq, Structural)]
pub enum RefreshPhase {
    /// The lock that the tabs share is waited for.
    Lock,
    /// Whether another tab has renewed the session is checked.
    Check,
    /// The session is renewed.
    Rotate,
}

/// What has to be done next to renew a session.
#[derive(Clone, Copy, Debug, PartialEq, Eq, Structural)]
pub enum RefreshAction {
    AcquireLock,
    CheckSession,
    Rotate,
    /// The session is valid or not; the lock has to be given back where it was
    /// taken.
    Finish(bool, bool),
}

/// The next phase and action: without the lock nothing is done, and a session
/// that another tab renewed is not renewed again. `ok` says whether the lock
/// was taken, or whether the request succeeded.
pub open spec fn refresh_step(phase: RefreshPhase, ok: bool) -> (RefreshPhase, RefreshAction) {
    match phase {
        RefreshPhase::Lock => if ok {
            (RefreshPhase::Check, RefreshAction::CheckSession)
        } else {
            (phase, RefreshAction::Finish(false, false))
        },
        RefreshPhase::Check => if ok {
            (phase, RefreshAction::Finish(true, true))
        } else {
            (RefreshPhase::Rotate, RefreshAction::Rotate)
        },
        RefreshPhase::Rotate => (phase, RefreshAction::Finish(ok, true)),
    }
}

/// Decides what to do next to renew a session.
pub fn refresh_session_step(phase: RefreshPhase, ok: bool) -> (r: (RefreshPhase, RefreshAction))
    ensures
        r == refresh_step(phase, ok),
{
    match phase {
        RefreshPhase::Lock => {
            if ok {
                (RefreshPhase::Check, RefreshAction::CheckSession)
            } else {
                (phase, RefreshAction::Finish(false, false))
            }
        },
        RefreshPhase::Check => {
            if ok {
                (phase, RefreshAction::Finish(true, true))
            } else {
                (RefreshPhase::Rotate, RefreshAction::Rotate)
            }
        },
        RefreshPhase::Rotate => (phase, RefreshAction::Finish(ok, true)),
    }
}

/// A session is renewed only under the lock and only where it is not valid,
/// and the lock is given back exactly where it was taken.
pub proof fn refresh_is_fenced(phase: RefreshPhase, ok: bool)
    ensures
        ({
            let (_, action) = refresh_step(phase, ok);
            &&& action is Rotate ==> phase == RefreshPhase::Check && !ok
            &&& action matches RefreshAction::Finish(success, release) ==> release == (phase
                != RefreshPhase::Lock) && success == (ok && phase != RefreshPhase::Lock)
        }),
{
}

/// The renewals of the session that the callers in one tab ask for.
#[derive(Clone, Copy, Debug, PartialEq, Eq, Structural)]
pub struct Renewals {
    /// A renewal is running.
    pub running: bool,
}

/// How a caller comes to a renewed session.
#[derive(Clone, Copy, Debug, PartialEq, Eq, Structural)]
pub enum RenewalStep {
    /// By a renewal of its own.
    Start,
    /// By waiting for the renewal that is running.
    Join,
}

/// How a caller comes to a renewed session: one renewal is shared by all who
/// ask while it runs.
pub open spec fn renewal_step(r: Renewals) -> RenewalStep {
    if r.running {
        RenewalStep::Join
    } else {
        RenewalStep::Start
    }
}

/// The renewals after another caller has asked.
pub open spec fn renewal_asked(_r: Renewals) -> Renewals {
    Renewals { running: true }
}

/// The renewals after the running one is over.
pub open spec fn renewal_over(_r: Renewals) -> Renewals {
    Renewals { running: false }
}

impl Renewals {
    /// No renewal is running.
    pub fn new() -> (r: Self)
        ensures
            r == (Renewals { running: false }),
    {
        Renewals { running: false }
    }

    /// A caller asks for a renewed session.
    pub fn ask(&mut self) -> (r: RenewalStep)
        ensures
            r == renewal_step(*old(self)),
            *final(self) == renewal_asked(*old(self)),
    {
        if self.running {
            RenewalStep::Join
        } else {
            self.running = true;
            RenewalStep::Start
        }
    }

    /// The renewal that was running is over.
    pub fn finish(&mut self)
        ensures
            *final(self) == renewal_over(*old(self)),
    {
        self.running = false;
    }
}

/// The renewals after so many more callers have asked.
pub open spec fn renewals_asked(r: Renewals, callers: nat) -> Renewals
    decreases callers,
{
    if callers == 0 {
        r
    } else {
        renewal_asked(renewals_asked(r, (callers - 1) as nat))
    }
}

/// Of any number of callers who ask before a renewal is over, the first starts
/// it and all others join it; the first one after that starts another.
pub proof fn renewals_are_shared(r: Renewals, callers: nat)
    requires
        !r.running,
    ensures
        renewal_step(renewals_asked(r, callers)) == (if callers == 0 {
            RenewalStep::Start
        } else {
            RenewalStep::Join
        }),
        renewal_step(renewal_over(renewals_asked(r, callers))) == RenewalStep::Start,
{
}

/// Why no payment is taken.
pub open spec fn no_payment() -> Seq<char> {
    "paid sync was removed; every signed-in account syncs"@
}

/// Starts a payment: there is none to start.
pub fn start_checkout(_interval: &str) -> (r: Result<String, String>)
    ensures
        r matches Err(message) && message@ == no_payment(),
{
    Err("paid sync was removed; every signed-in account syncs".to_owned())
}

/// Opens the payment provider's pages: there are none to open.
pub fn start_billing_portal() -> (r: Result<String, String>)
    ensures
        r matches Err(message) && message@ == no_payment(),
{
    Err("paid sync was removed; every signed-in account syncs".to_owned())
}

/// Whether a parameter of an address belongs to a payment.
pub open spec fn is_checkout_name(name: Seq<char>) -> bool {
    name == "payment_id"@ || name == "subscription_id"@ || name == "status"@
}

/// Whether one of the parameters belongs to a payment.
pub open spec fn has_checkout(parameters: Seq<Seq<char>>) -> bool {
    exists|i: int|
        0 <= i < parameters.len() && (split_once_at(#[trigger] parameters[i], '=') matches Some(
            (name, _),
        ) && is_checkout_name(name))
}

/// The last status that the parameters give, in lower case.
pub open spec fn last_status(parameters: Seq<Seq<char>>) -> Option<Seq<char>>
    decreases parameters.len(),
{
    if parameters.len() == 0 {
        None
    } else {
        match split_once_at(parameters.last(), '=') {
            Some((name, value)) => if name == "status"@ {
                Some(lowered(value))
            } else {
                last_status(parameters.drop_last())
            },
            None => last_status(parameters.drop_last()),
        }
    }
}

/// Whether a status says that a payment was not made.
pub open spec fn is_failed_status(status: Seq<char>) -> bool {
    status == "failed"@ || status == "cancelled"@ || status == "canceled"@ || status == "expired"@
}

/// What the query of an address says about a payment.
pub open spec fn checkout_state(search: Seq<char>) -> CheckoutReturnState {
    let parameters = split_at(without_leading(search, '?'), '&');
    if last_status(parameters) matches Some(status) && is_failed_status(status) {
        CheckoutReturnState::Failed
    } else if has_checkout(parameters) {
        CheckoutReturnState::Pending
    } else {
        CheckoutReturnState::Nothing
    }
}

/// What the query of an address says about a payment.
pub fn checkout_return_state_from_search(search: &str) -> (r: CheckoutReturnState)
    ensures
        r == checkout_state(search@),
{
    let parameters = split(&trim_start_matches(search, '?'), '&');
    let ghost all = views(parameters@);
    let mut has_checkout_parameter = false;
    let mut returned_status: Option<String> = None;
    let mut i: usize = 0;
    while i < parameters.len()
        invariant
            all == views(parameters@),
            i <= parameters@.len(),
            has_checkout_parameter == has_checkout(all.take(i as int)),
            opt_view(returned_status) == last_status(all.take(i as int)),
        decreases parameters@.len() - i,
    {
        let ghost prefix = all.take(i as int);
        let ghost longer = all.take(i + 1);
        assert(longer.drop_last() =~= prefix);
        assert(longer.last() == parameters@[i as int]@);
        assert(forall|j: int| 0 <= j < i ==> longer[j] == prefix[j]);
        let piece = split_once(&parameters[i], '=');
        assert(has_checkout(longer) == (has_checkout(prefix) || (split_once_at(
            longer.last(),
            '=',
        ) matches Some((name, _)) && is_checkout_name(name)))) by {
            if has_checkout(prefix) {
                let j = choose|j: int|
                    0 <= j < prefix.len() && (split_once_at(#[trigger] prefix[j], '=')
                        matches Some((name, _)) && is_checkout_name(name));
                assert(longer[j] == prefix[j]);
            }
            if has_checkout(longer) {
                let j = choose|j: int|
                    0 <= j < longer.len() && (split_once_at(#[trigger] longer[j], '=')
                        matches Some((name, _)) && is_checkout_name(name));
                if j < i {
                    assert(longer[j] == prefix[j]);
                }
            }
            if split_once_at(longer.last(), '=') matches Some((name, _)) && is_checkout_name(
                name,
            ) {
                assert(longer[i as int] == longer.last());
            }
        }
        if let Some((name, value)) = piece {
            if text_eq(&name, "payment_id") || text_eq(&name, "subscription_id") || text_eq(
                &name,
                "status",
            ) {
                has_checkout_parameter = true;
            }
            if text_eq(&name, "status") {
                returned_status = Some(to_ascii_lowercase(&value));
            }
        }
        i = i + 1;
    }
    assert(all.take(i as int) =~= all);
    let failed = match &returned_status {
        Some(status) => text_eq(status, "failed") || text_eq(status, "cancelled") || text_eq(
            status,
            "canceled",
        ) || text_eq(status, "expired"),
        None => false,
    };
    if failed {
        CheckoutReturnState::Failed
    } else if has_checkout_parameter {
        CheckoutReturnState::Pending
    } else {
        CheckoutReturnState::Nothing
    }
}

/// What the page's address says about a payment; nothing where there is none.
pub fn checkout_return_state(search: Option<&str>) -> (r: CheckoutReturnState)
    ensures
        r == (match search {
            Some(text) => checkout_state(text@),
            None => CheckoutReturnState::Nothing,
        }),
{
    match search {
        Some(text) => checkout_return_state_from_search(text),
        None => CheckoutReturnState::Nothing,
    }
}

/// How often the account is asked for, at most, after a payment.
pub const CHECKOUT_CHECKS: u32 = 5;

/// The milliseconds between two of these.
pub const CHECKOUT_WAIT: i32 = 1_000;

/// Whether the account has to be asked for again after so many answers: where
/// the user comes back from a payment that the account does not show yet, for a
/// short while.
pub open spec fn waits_for_payment(
    state: AccountStateView,
    returned: CheckoutReturnState,
    answers: u32,
) -> bool {
    &&& returned == CheckoutReturnState::Pending
    &&& state is SignedIn
    &&& !state->SignedIn_0.sync_enabled
    &&& answers < CHECKOUT_CHECKS
}

/// Whether the account has to be asked for again after so many answers.
pub fn asks_again_after_checkout(
    state: &AccountState,
    returned: CheckoutReturnState,
    answers: u32,
) -> (r: bool)
    ensures
        r == waits_for_payment(state@, returned, answers),
{
    match state {
        AccountState::SignedIn(e) => {
            returned == CheckoutReturnState::Pending && !e.sync_enabled && answers
                < CHECKOUT_CHECKS
        },
        _ => false,
    }
}

/// A payment is waited for only briefly, and not at all once the account may
/// sync or where the user does not come back from one.
pub proof fn payments_are_waited_for_briefly(
    state: AccountStateView,
    returned: CheckoutReturnState,
    answers: u32,
)
    ensures
        answers >= CHECKOUT_CHECKS ==> !waits_for_payment(state, returned, answers),
        state is SignedIn && state->SignedIn_0.sync_enabled ==> !waits_for_payment(
            state,
            returned,
            answers,
        ),
        returned != CheckoutReturnState::Pending ==> !waits_for_payment(state, returned, answers),
{
}

/// What a store holds after some writes.
pub open spec fn after_writes(
    store: Map<Seq<char>, Seq<char>>,
    writes: Seq<StoreWriteView>,
) -> Map<Seq<char>, Seq<char>>
    decreases writes.len(),
{
    if writes.len() == 0 {
        store
    } else {
        let before = after_writes(store, writes.drop_last());
        match writes.last() {
            StoreWriteView::Put(k, v) => before.insert(k, v),
            StoreWriteView::Remove(k) => before.remove(k),
        }
    }
}

/// What a store holds of a session.
pub open spec fn session_in(store: Map<Seq<char>, Seq<char>>) -> RememberedSessionView {
    RememberedSessionView {
        session: if store.contains_key("mybox_authenticated_session"@) {
            Some(store["mybox_authenticated_session"@])
        } else {
            None
        },
        account_id: if store.contains_key("mybox_active_account_id"@) {
            Some(store["mybox_active_account_id"@])
        } else {
            None
        },
    }
}

/// What the stores of a browser hold of a session after each got some writes.
pub open spec fn sessions_after(
    stores: Seq<Map<Seq<char>, Seq<char>>>,
    writes: Seq<StoreWriteView>,
) -> Seq<RememberedSessionView> {
    stores.map_values(|store: Map<Seq<char>, Seq<char>>| session_in(after_writes(store, writes)))
}

/// An account that was remembered is the one that the browser knows, however
/// many stores it has and whatever they held.
pub proof fn remembered_accounts_are_found(
    stores: Seq<Map<Seq<char>, Seq<char>>>,
    account_id: Seq<char>,
)
    requires
        !blank(account_id),
        stores.len() > 0,
    ensures
        first_principal(sessions_after(stores, account_writes(account_id))) == Some(
            account_principal_text(account_id),
        ),
{
    reveal_strlit("mybox_authenticated_session");
    reveal_strlit("mybox_active_account_id");
    assert("mybox_authenticated_session"@.len() != "mybox_active_account_id"@.len());
    let writes = account_writes(account_id);
    reveal_with_fuel(after_writes, 3);
    assert(writes.drop_last() =~= session_writes());
    assert(session_writes().drop_last() =~= Seq::empty());
    let sessions = sessions_after(stores, writes);
    assert(sessions[0] == session_in(after_writes(stores[0], writes)));
    assert(sessions[0].session == Some("true"@));
    assert(sessions[0].account_id == Some(account_id));
}

/// A session that was forgotten is not found again in any store.
pub proof fn forgotten_accounts_are_gone(stores: Seq<Map<Seq<char>, Seq<char>>>)
    ensures
        first_principal(sessions_after(stores, forget_writes())) is None,
    decreases stores.len(),
{
    if stores.len() > 0 {
        reveal_strlit("mybox_authenticated_session");
        reveal_strlit("mybox_active_account_id");
        assert("mybox_authenticated_session"@.len() != "mybox_active_account_id"@.len());
        let writes = forget_writes();
        reveal_with_fuel(after_writes, 3);
        let first = seq![StoreWriteView::Remove("mybox_authenticated_session"@)];
        assert(writes.drop_last() =~= first);
        assert(first.drop_last() =~= Seq::empty());
        let sessions = sessions_after(stores, writes);
        assert(sessions[0] == session_in(after_writes(stores[0], writes)));
        assert(sessions[0].session is None);
        forgotten_accounts_are_gone(stores.skip(1));
        assert(sessions.skip(1) =~= sessions_after(stores.skip(1), writes));
    }
}

/// How an account is found out. A session that ran out is renewed once, and
/// after that counts as expired; a session that stands has its entitlement asked
/// for and read; any other answer leaves the account unavailable.
pub proof fn accounts_are_found_out(load: AccountLoad, status: u16, remembered: bool)
    ensures
        load.phase == LoadPhase::Session || load.phase == LoadPhase::Entitlement ==> {
            let action = load_step(load, LoadEventView::Status(status), remembered).1;
            &&& status == 401 && !load.refresh_attempted ==> action is Refresh
            &&& status == 401 && load.refresh_attempted ==> action == LoadActionView::Done(
                if remembered {
                    AccountStateView::Expired
                } else {
                    AccountStateView::Guest
                },
                Seq::empty(),
            )
            &&& 200 <= status < 300 && load.phase == LoadPhase::Session ==> action
                is AskEntitlement
            &&& 200 <= status < 300 && load.phase == LoadPhase::Entitlement ==> action is ReadBody
            &&& status != 401 && !(200 <= status < 300) ==> action == LoadActionView::Done(
                AccountStateView::Unavailable,
                Seq::empty(),
            )
        },
        load.phase == LoadPhase::SessionRefresh || load.phase == LoadPhase::EntitlementRefresh ==> {
            &&& load_step(load, LoadEventView::Refreshed(true), remembered).1 is AskSession
            &&& load_step(load, LoadEventView::Refreshed(false), remembered).1
                == LoadActionView::Done(
                if remembered {
                    AccountStateView::Expired
                } else {
                    AccountStateView::Guest
                },
                Seq::empty(),
            )
        },
        load_step(load, LoadEventView::Failed, remembered).1 == LoadActionView::Done(
            AccountStateView::Unavailable,
            Seq::empty(),
        ),
{
}

/// A store remembers an account where it says that somebody is signed in and who
/// it is; the first such store counts.
pub proof fn the_first_remembered_account_counts(stores: Seq<RememberedSessionView>, k: int)
    ensures
        0 <= k < stores.len() ==> store_principal(stores[k]) is Some == (stores[k].session == Some(
            "true"@,
        ) && stores[k].account_id is Some && !blank(stores[k].account_id->0)),
        0 <= k < stores.len() && store_principal(stores[k]) is Some ==> store_principal(stores[k])
            == Some(account_principal_text(stores[k].account_id->0)),
        0 <= k < stores.len() && store_principal(stores[k]) is Some && (forall|j: int|
            0 <= j < k ==> store_principal(#[trigger] stores[j]) is None) ==> first_principal(stores)
            == store_principal(stores[k]),
        (forall|j: int| 0 <= j < stores.len() ==> store_principal(#[trigger] stores[j]) is None)
            ==> first_principal(stores) is None,
    decreases stores.len(),
{
    if stores.len() > 0 && store_principal(stores[0]) is None {
        let rest = stores.skip(1);
        the_first_remembered_account_counts(rest, k - 1);
        if 0 <= k < stores.len() && store_principal(stores[k]) is Some && (forall|j: int|
            0 <= j < k ==> store_principal(#[trigger] stores[j]) is None) {
            assert(k > 0);
            assert(rest[k - 1] == stores[k]);
            assert forall|j: int| 0 <= j < k - 1 implies store_principal(
                #[trigger] rest[j],
            ) is None by {
                assert(rest[j] == stores[j + 1]);
            }
        }
        if forall|j: int| 0 <= j < stores.len() ==> store_principal(#[trigger] stores[j]) is None {
            assert forall|j: int| 0 <= j < rest.len() implies store_principal(
                #[trigger] rest[j],
            ) is None by {
                assert(rest[j] == stores[j + 1]);
            }
        }
    }
}

/// Where an account is remembered, a session that ran out has expired; else the
/// page is a guest's.
pub proof fn only_remembered_accounts_expire(remembered: bool)
    ensures
        expired_state(remembered) is Expired == remembered,
        expired_state(remembered) is Guest == !remembered,
{
}

/// The way of a renewal: with the lock the session is checked, and renewed only
/// where no other tab has done it.
pub proof fn renewals_go_their_way(ok: bool)
    ensures
        refresh_step(RefreshPhase::Lock, true) == (
            RefreshPhase::Check,
            RefreshAction::CheckSession,
        ),
        refresh_step(RefreshPhase::Lock, false).1 == RefreshAction::Finish(false, false),
        refresh_step(RefreshPhase::Check, true).1 == RefreshAction::Finish(true, true),
        refresh_step(RefreshPhase::Check, false) == (RefreshPhase::Rotate, RefreshAction::Rotate),
        refresh_step(RefreshPhase::Rotate, ok).1 == RefreshAction::Finish(ok, true),
{
}

/// The status of a return from the checkout is the last one that is given, in
/// small letters.
pub proof fn the_last_status_counts(parameters: Seq<Seq<char>>, k: int, value: Seq<char>)
    ensures
        0 <= k < parameters.len() && split_once_at(parameters[k], '=') == Some(("status"@, value))
            && (forall|j: int|
            k < j < parameters.len() ==> !(split_once_at(#[trigger] parameters[j], '=') matches Some(
                (name, _),
            ) && name == "status"@)) ==> last_status(parameters) == Some(lowered(value)),
        (forall|j: int|
            0 <= j < parameters.len() ==> !(split_once_at(
                #[trigger] parameters[j],
                '=',
            ) matches Some((name, _)) && name == "status"@)) ==> last_status(parameters) is None,
    decreases parameters.len(),
{
    if parameters.len() > 0 {
        let rest = parameters.drop_last();
        the_last_status_counts(rest, k, value);
        if forall|j: int|
            0 <= j < parameters.len() ==> !(split_once_at(
                #[trigger] parameters[j],
                '=',
            ) matches Some((name, _)) && name == "status"@) {
            assert(!(split_once_at(parameters[parameters.len() - 1], '=') matches Some((name, _))
                && name == "status"@));
            assert forall|j: int| 0 <= j < rest.len() implies !(split_once_at(
                #[trigger] rest[j],
                '=',
            ) matches Some((name, _)) && name == "status"@) by {
                assert(rest[j] == parameters[j]);
            }
        }
        if 0 <= k < parameters.len() - 1 && split_once_at(parameters[k], '=') == Some(
            ("status"@, value),
        ) && (forall|j: int|
            k < j < parameters.len() ==> !(split_once_at(#[trigger] parameters[j], '=') matches Some(
                (name, _),
            ) && name == "status"@)) {
            assert(!(split_once_at(parameters[parameters.len() - 1], '=') matches Some((name, _))
                && name == "status"@));
            assert(rest[k] == parameters[k]);
            assert forall|j: int| k < j < rest.len() implies !(split_once_at(
                #[trigger] rest[j],
                '=',
            ) matches Some((name, _)) && name == "status"@) by {
                assert(rest[j] == parameters[j]);
            }
        }
    }
}

/// A return from the checkout has failed where its status says so; else it is
/// pending where it names a payment, a subscription or a status, and without any
/// of them it is none.
pub proof fn checkouts_say_how_they_ended(search: Seq<char>, k: int)
    ensures
        ({
            let parameters = split_at(without_leading(search, '?'), '&');
            let state = checkout_state(search);
            let failed = last_status(parameters) matches Some(s) && (s == "failed"@ || s
                == "cancelled"@ || s == "canceled"@ || s == "expired"@);
            &&& state == CheckoutReturnState::Failed <==> failed
            &&& !failed && 0 <= k < parameters.len() && (split_once_at(
                parameters[k],
                '=',
            ) matches Some((name, _)) && (name == "payment_id"@ || name == "subscription_id"@
                || name == "status"@)) ==> state == CheckoutReturnState::Pending
            &&& state == CheckoutReturnState::Pending ==> has_checkout(parameters)
            &&& (forall|j: int|
                0 <= j < parameters.len() ==> split_once_at(#[trigger] parameters[j], '=') is None)
                ==> state == CheckoutReturnState::Nothing || failed
        }),
{
}

/// A payment is waited for while the account is signed in and may not sync yet,
/// up to five answers.
pub proof fn pending_payments_are_waited_for(
    e: EntitlementView,
    returned: CheckoutReturnState,
    answers: u32,
)
    ensures
        waits_for_payment(AccountStateView::SignedIn(e), returned, answers) == (returned
            == CheckoutReturnState::Pending && !e.sync_enabled && answers < 5),
        !waits_for_payment(AccountStateView::Guest, returned, answers),
        !waits_for_payment(AccountStateView::Unavailable, returned, answers),
        !waits_for_payment(AccountStateView::Expired, returned, answers),
        !waits_for_payment(AccountStateView::Checking, returned, answers),
{
}

/// An account whose identity is blank is remembered as a session without one;
/// any other change of what is stored is left as it is.
pub proof fn only_session_keys_are_written(
    store: Map<Seq<char>, Seq<char>>,
    account_id: Seq<char>,
    key: Seq<char>,
)
    requires
        key != "mybox_authenticated_session"@,
        key != "mybox_active_account_id"@,
    ensures
        after_writes(store, account_writes(account_id)).contains_key(key) == store.contains_key(
            key,
        ),
        store.contains_key(key) ==> after_writes(store, account_writes(account_id))[key]
            == store[key],
        after_writes(store, forget_writes()).contains_key(key) == store.contains_key(key),
        store.contains_key(key) ==> after_writes(store, forget_writes())[key] == store[key],
{
    reveal_with_fuel(after_writes, 3);
    let w = account_writes(account_id);
    if !blank(account_id) {
        assert(w.drop_last() =~= session_writes());
    }
    assert(session_writes().drop_last() =~= Seq::<StoreWriteView>::empty());
    assert(forget_writes().drop_last().drop_last() =~= Seq::<StoreWriteView>::empty());
}

} // verus!
