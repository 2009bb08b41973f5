use mybox::account::asks_again_after_checkout;
use mybox::account::checkout_return_state;
use mybox::account::checkout_return_state_from_search;
use mybox::account::forget_authenticated_session;
use mybox::account::refresh_session_step;
use mybox::account::remember_authenticated_account;
use mybox::account::remember_authenticated_session;
use mybox::account::remembered_account_principal;
use mybox::account::start_billing_portal;
use mybox::account::start_checkout;
use mybox::account::state_after_session_expiry;
use mybox::account::state_after_session_expiry_for;
use mybox::account::AccountLoad;
use mybox::account::AccountState;
use mybox::account::CheckoutReturnState;
use mybox::account::Entitlement;
use mybox::account::LoadAction;
use mybox::account::LoadEvent;
use mybox::account::RefreshAction;
use mybox::account::RefreshPhase;
use mybox::account::RememberedSession;
use mybox::account::RenewalStep;
use mybox::account::Renewals;
use mybox::account::StoreWrite;
use mybox::account::CHECKOUT_CHECKS;
use mybox::auth::post_auth;
use mybox::auth::AuthApiResponse;
use mybox::auth::AuthForm;
use mybox::auth::AuthReply;
use mybox::identity::account_principal;
use mybox::identity::browser_cookie;
use mybox::identity::cookie_assignment;
use mybox::identity::distinct_ids;
use mybox::identity::fresh_entity_id;
use mybox::identity::is_account_principal;
use mybox::identity::is_guest_principal;
use mybox::identity::is_safe_local_identifier;
use mybox::identity::load_device_id;
use mybox::identity::new_guest_principal;
use mybox::identity::next_guest_store;
use mybox::identity::stored_guest_principal;
use mybox::identity::DeviceId;
use mybox::identity::GuestStore;

fn entitled(account_id: &str) -> Entitlement {
    Entitlement {
        account_id: account_id.to_owned(),
        plan: "pro".to_owned(),
        status: "active".to_owned(),
        sync_enabled: true,
        max_spaces: 10,
        provider: Some("dodo".to_owned()),
        provider_customer_id: None,
    }
}

#[test]
fn recognizes_failed_checkout_returns() {
    assert_eq!(
        checkout_return_state_from_search("?subscription_id=sub_123&status=failed"),
        CheckoutReturnState::Failed
    );
    assert_eq!(
        checkout_return_state_from_search("?status=cancelled"),
        CheckoutReturnState::Failed
    );
}

#[test]
fn recognizes_checkout_returns_that_may_be_waiting_for_a_webhook() {
    assert_eq!(
        checkout_return_state_from_search("?payment_id=pay_123&status=succeeded"),
        CheckoutReturnState::Pending
    );
    assert_eq!(
        checkout_return_state_from_search("?subscription_id=sub_123"),
        CheckoutReturnState::Pending
    );
    assert_eq!(
        checkout_return_state_from_search("?unrelated=value"),
        CheckoutReturnState::Nothing
    );
}

#[test]
fn expired_sessions_keep_a_known_account_namespace_distinct_from_guests() {
    assert_eq!(state_after_session_expiry_for(true), AccountState::Expired);
    assert_eq!(state_after_session_expiry_for(false), AccountState::Guest);
}

#[test]
fn checkout_returns_without_an_address_say_nothing() {
    assert_eq!(checkout_return_state(None), CheckoutReturnState::Nothing);
    assert_eq!(
        checkout_return_state(Some("?status=FAILED")),
        CheckoutReturnState::Failed
    );
    assert_eq!(checkout_return_state(Some("")), CheckoutReturnState::Nothing);
}

#[test]
fn payments_cannot_be_started() {
    assert!(start_checkout("month").is_err());
    assert!(start_billing_portal().is_err());
    assert_eq!(start_checkout("year"), start_billing_portal());
}

#[test]
fn entitlements_decide_about_syncing() {
    let pro = entitled("a");
    assert!(pro.can_sync());
    assert!(pro.can_sync_at(0));
    assert!(pro.can_sync_at(u64::MAX));
    assert!(!pro.has_billing_customer());
    let free = Entitlement::default();
    assert!(!free.can_sync());
    let state = AccountState::SignedIn(entitled("a"));
    assert!(state.is_authenticated());
    assert_eq!(state.entitlement(), Some(&entitled("a")));
    assert!(!AccountState::Expired.is_authenticated());
    assert_eq!(AccountState::Guest.entitlement(), None);
}

#[test]
fn remembered_accounts_lead_to_their_principal() {
    assert_eq!(
        remember_authenticated_session(),
        vec![StoreWrite::Put("mybox_authenticated_session".to_owned(), "true".to_owned())]
    );
    assert_eq!(
        remember_authenticated_account("acc_1"),
        vec![
            StoreWrite::Put("mybox_authenticated_session".to_owned(), "true".to_owned()),
            StoreWrite::Put("mybox_active_account_id".to_owned(), "acc_1".to_owned()),
        ]
    );
    assert_eq!(remember_authenticated_account("  "), remember_authenticated_session());
    assert_eq!(
        forget_authenticated_session(),
        vec![
            StoreWrite::Remove("mybox_authenticated_session".to_owned()),
            StoreWrite::Remove("mybox_active_account_id".to_owned()),
        ]
    );
    let empty = RememberedSession { session: None, account_id: None };
    let known = RememberedSession {
        session: Some("true".to_owned()),
        account_id: Some("acc_1".to_owned()),
    };
    assert_eq!(
        remembered_account_principal(&vec![empty, known]),
        Some("account:acc_1".to_owned())
    );
    assert_eq!(remembered_account_principal(&vec![]), None);
    assert_eq!(state_after_session_expiry(&vec![]), AccountState::Guest);
}

#[test]
fn account_states_are_found_out_step_by_step() {
    let mut load = AccountLoad::start();
    assert_eq!(load.step(LoadEvent::Status(200), false), LoadAction::AskEntitlement);
    assert_eq!(load.step(LoadEvent::Status(200), false), LoadAction::ReadBody);
    assert_eq!(
        load.step(LoadEvent::Body(Some(entitled("a"))), false),
        LoadAction::Done(AccountState::SignedIn(entitled("a")), remember_authenticated_account("a"))
    );
}

#[test]
fn account_states_are_unknown_without_a_server() {
    let mut load = AccountLoad::start();
    assert_eq!(
        load.step(LoadEvent::Failed, true),
        LoadAction::Done(AccountState::Unavailable, Vec::new())
    );
}

#[test]
fn expired_sessions_are_renewed_once() {
    let mut load = AccountLoad::start();
    assert_eq!(load.step(LoadEvent::Status(401), true), LoadAction::Refresh);
    assert_eq!(
        load.step(LoadEvent::Refreshed(false), true),
        LoadAction::Done(AccountState::Expired, Vec::new())
    );
    let mut guest = AccountLoad::start();
    assert_eq!(guest.step(LoadEvent::Status(401), false), LoadAction::Refresh);
    assert_eq!(
        guest.step(LoadEvent::Refreshed(false), false),
        LoadAction::Done(AccountState::Guest, Vec::new())
    );
}

#[test]
fn renewals_are_shared_by_all_who_ask() {
    let mut renewals = Renewals::new();
    assert_eq!(renewals.ask(), RenewalStep::Start);
    assert_eq!(renewals.ask(), RenewalStep::Join);
    assert_eq!(renewals.ask(), RenewalStep::Join);
    renewals.finish();
    assert_eq!(renewals.ask(), RenewalStep::Start);
}

#[test]
fn accounts_are_asked_again_after_a_payment() {
    let unpaid = AccountState::SignedIn(Entitlement { sync_enabled: false, ..entitled("a") });
    let paid = AccountState::SignedIn(entitled("a"));
    assert!(asks_again_after_checkout(&unpaid, CheckoutReturnState::Pending, 1));
    assert!(asks_again_after_checkout(&unpaid, CheckoutReturnState::Pending, CHECKOUT_CHECKS - 1));
    assert!(!asks_again_after_checkout(&unpaid, CheckoutReturnState::Pending, CHECKOUT_CHECKS));
    assert!(!asks_again_after_checkout(&unpaid, CheckoutReturnState::Failed, 1));
    assert!(!asks_again_after_checkout(&unpaid, CheckoutReturnState::Nothing, 1));
    assert!(!asks_again_after_checkout(&paid, CheckoutReturnState::Pending, 1));
    assert!(!asks_again_after_checkout(&AccountState::Guest, CheckoutReturnState::Pending, 1));
}

#[test]
fn sessions_are_rotated_behind_a_lock() {
    let (phase, action) = refresh_session_step(RefreshPhase::Lock, true);
    assert_eq!(phase, RefreshPhase::Check);
    assert_eq!(action, RefreshAction::CheckSession);
    let (_, refused) = refresh_session_step(RefreshPhase::Lock, false);
    assert!(matches!(refused, RefreshAction::Finish(_, _)));
    let (_, rotate) = refresh_session_step(RefreshPhase::Check, false);
    assert_eq!(rotate, RefreshAction::Rotate);
}

#[test]
fn principals_are_told_apart() {
    assert!(is_guest_principal("guest"));
    assert!(is_guest_principal("guest:abc-1_Z"));
    assert!(!is_guest_principal("guest:"));
    assert!(!is_guest_principal("guest:a b"));
    assert!(!is_guest_principal("account:abc"));
    assert!(is_account_principal("account:abc"));
    assert!(!is_account_principal("guest:abc"));
    assert_eq!(account_principal("abc"), "account:abc");
    assert!(!is_guest_principal(&account_principal("guest")));
    assert_eq!(
        stored_guest_principal(Some("guest:kept".to_owned()), None, None),
        Some("guest:kept".to_owned())
    );
    assert_eq!(stored_guest_principal(Some("guest".to_owned()), None, None), None);
    assert_eq!(
        stored_guest_principal(None, None, Some("guest:cookie".to_owned())),
        Some("guest:cookie".to_owned())
    );
    assert_eq!(new_guest_principal(Some("u-1".to_owned()), 5, 6), "guest:u-1");
    assert_eq!(new_guest_principal(None, 5, 6), "guest:5-6");
}

#[test]
fn guests_are_kept_where_the_browser_allows_it() {
    assert_eq!(next_guest_store(None), Some(GuestStore::Local));
    assert_eq!(next_guest_store(Some(GuestStore::Local)), Some(GuestStore::Session));
    assert_eq!(next_guest_store(Some(GuestStore::Session)), Some(GuestStore::Cookie));
    assert_eq!(next_guest_store(Some(GuestStore::Cookie)), None);
    assert_eq!(browser_cookie("a=1; b= two ;c", "b"), Some("two".to_owned()));
    assert_eq!(browser_cookie("a=1; b=", "b"), None);
    assert_eq!(
        cookie_assignment("n", "v"),
        "n=v; Path=/; Max-Age=31536000; SameSite=Lax"
    );
}

#[test]
fn devices_keep_their_identifier() {
    assert!(is_safe_local_identifier("device-1_x"));
    assert!(!is_safe_local_identifier(""));
    assert!(!is_safe_local_identifier("no spaces"));
    assert_eq!(
        load_device_id(true, Some("device-1".to_owned()), None, 1, 2),
        DeviceId::Kept("device-1".to_owned())
    );
    assert_eq!(
        load_device_id(false, None, None, 1, 2),
        DeviceId::Unstored("device-local".to_owned())
    );
    assert_eq!(
        load_device_id(true, Some("?".to_owned()), Some("u".to_owned()), 1, 2),
        DeviceId::Fresh("device-u".to_owned())
    );
    assert_eq!(
        load_device_id(true, None, None, 1, 2),
        DeviceId::Fresh("device-1-2".to_owned())
    );
}

#[test]
fn new_ids_are_not_in_use() {
    assert_eq!(fresh_entity_id(&vec![3, 4], &vec![3, 4, 9]), Some(9));
    assert_eq!(fresh_entity_id(&vec![3], &vec![3]), None);
    let ids = distinct_ids(&vec![5, 5, 5]);
    assert_eq!(ids.len(), 3);
    assert_ne!(ids[0], ids[1]);
    assert_ne!(ids[1], ids[2]);
    assert_ne!(ids[0], ids[2]);
}

fn answer(status: &str, message: Option<&str>, account_id: Option<&str>) -> AuthApiResponse {
    AuthApiResponse {
        status: status.to_owned(),
        message: message.map(|m| m.to_owned()),
        account_id: account_id.map(|m| m.to_owned()),
        pending_authentication_token: None,
    }
}

#[test]
fn refused_forms_give_a_reason() {
    assert_eq!(post_auth(AuthReply::NotSent), Err("the form could not be sent".to_owned()));
    assert_eq!(
        post_auth(AuthReply::NoAnswer),
        Err("the server could not be reached".to_owned())
    );
    assert_eq!(
        post_auth(AuthReply::Unreadable),
        Err("the server returned an unexpected response".to_owned())
    );
    assert_eq!(
        post_auth(AuthReply::Answer(400, answer("error", None, None))),
        Err("something went wrong; please try again".to_owned())
    );
    assert_eq!(
        post_auth(AuthReply::Answer(422, answer("error", Some("too short"), None))),
        Err("too short".to_owned())
    );
    assert_eq!(
        post_auth(AuthReply::Answer(200, answer("ok", None, None))),
        Ok(answer("ok", None, None))
    );
}

#[test]
fn signing_in_remembers_the_account() {
    let mut form = AuthForm::new();
    let payload = form.sign_in("  me@example.com ", " secret ").unwrap();
    assert_eq!(payload.email, "me@example.com");
    assert_eq!(payload.password, " secret ");
    assert!(form.submitting);
    assert_eq!(form.sign_in("again", "again"), None);
    let writes = form
        .signed_in(AuthReply::Answer(200, answer("ok", None, Some("acc"))))
        .unwrap();
    assert_eq!(writes, remember_authenticated_account("acc"));
    assert!(!form.submitting);
    let mut other = AuthForm::new();
    other.sign_in("a", "b");
    assert_eq!(
        other.signed_in(AuthReply::Answer(200, answer("pending", Some("check your mail"), None))),
        None
    );
    assert_eq!(other.error, Some("check your mail".to_owned()));
}

#[test]
fn signing_up_needs_the_password_twice() {
    let mut form = AuthForm::new();
    assert_eq!(form.sign_up("a", "one", "two"), None);
    assert_eq!(form.error, Some("the passwords do not match".to_owned()));
    assert!(!form.submitting);
    assert!(form.sign_up(" a ", "one", "one").is_some());
    assert_eq!(form.error, None);
}

#[test]
fn passwords_are_reset_with_the_token_of_a_link() {
    let mut form = AuthForm::new();
    assert_eq!(form.forgot_password(" me "), Some("me".to_owned()));
    form.reset_requested(AuthReply::Answer(200, answer("ok", Some("sent"), None)));
    assert_eq!(form.message, Some("sent".to_owned()));
    let mut reset = AuthForm::new();
    assert_eq!(reset.reset_password("", "a", "a"), None);
    assert_eq!(reset.error, Some("this reset link is missing its token".to_owned()));
    assert_eq!(reset.reset_password("t", "a", "b"), None);
    assert_eq!(reset.error, Some("the passwords do not match".to_owned()));
    let payload = reset.reset_password("t", "a", "a").unwrap();
    assert_eq!(payload.token, "t");
    assert_eq!(payload.new_password, "a");
    assert!(!reset.password_reset(AuthReply::NoAnswer));
    assert!(!reset.submitting);
    assert!(reset.password_reset(AuthReply::Answer(200, answer("ok", None, None))));
}

#[test]
fn codes_confirm_an_address() {
    let mut form = AuthForm::new();
    let payload = form.verify_email(" 123456 ", &Some("token".to_owned())).unwrap();
    assert_eq!(payload.code, "123456");
    assert_eq!(payload.pending_authentication_token, Some("token".to_owned()));
    assert_eq!(form.email_verified(AuthReply::NotSent), None);
    assert_eq!(form.error, Some("the form could not be sent".to_owned()));
    assert_eq!(
        form.email_verified(AuthReply::Answer(200, answer("anything", None, None))),
        Some(remember_authenticated_session())
    );
}
