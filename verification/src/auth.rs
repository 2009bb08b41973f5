//! The forms for signing in and up, for a forgotten password and for a
//! confirmed address.
use vstd::prelude::*;
use vstd::string::*;

use crate::account::account_writes;
use crate::account::remember_authenticated_account;
use crate::account::remember_authenticated_session;
use crate::account::session_writes;
use crate::account::StoreWrite;
use crate::account::StoreWriteView;
use crate::lists::opt_view;
use crate::lists::views;
use crate::text::clone_opt;
use crate::text::text_eq;
use crate::text::trim;
use crate::text::trimmed;

verus! {

/// Where the token of an authentication that is not finished is kept.
pub const PENDING_AUTH_STORAGE_KEY: &'static str = "mybox_pending_auth";

/// What the server answers to a form.
#[derive(Debug, PartialEq)]
pub struct AuthApiResponse {
    pub status: String,
    pub message: Option<String>,
    pub account_id: Option<String>,
    pub pending_authentication_token: Option<String>,
}

/// What the server answers to a form, its texts as characters.
pub struct AuthResponseView {
    pub status: Seq<char>,
    pub message: Option<Seq<char>>,
    pub account_id: Option<Seq<char>>,
    pub pending_authentication_token: Option<Seq<char>>,
}

impl View for AuthApiResponse {
    type V = AuthResponseView;

    open spec fn view(&self) -> AuthResponseView {
        AuthResponseView {
            status: self.status@,
            message: opt_view(self.message),
            account_id: opt_view(self.account_id),
            pending_authentication_token: opt_view(self.pending_authentication_token),
        }
    }
}

/// What came of sending a form.
#[derive(Debug, PartialEq)]
pub enum AuthReply {
    /// It could not be written.
    NotSent,
    /// No answer came.
    NoAnswer,
    /// The answer could not be read.
    Unreadable,
    /// The server answered, with this status.
    Answer(u16, AuthApiResponse),
}

/// The answer that a reply holds, or why it holds none.
pub open spec fn auth_result(reply: AuthReply) -> Result<AuthResponseView, Seq<char>> {
    match reply {
        AuthReply::NotSent => Err("the form could not be sent"@),
        AuthReply::NoAnswer => Err("the server could not be reached"@),
        AuthReply::Unreadable => Err("the server returned an unexpected response"@),
        AuthReply::Answer(status, body) => if status >= 400 {
            Err(
                match body@.message {
                    Some(message) => message,
                    None => "something went wrong; please try again"@,
                },
            )
        } else {
            Ok(body@)
        },
    }
}

/// The answer that a reply holds, or why it holds none.
pub fn post_auth(reply: AuthReply) -> (r: Result<AuthApiResponse, String>)
    ensures
        match r {
            Ok(body) => auth_result(reply) == Ok::<AuthResponseView, Seq<char>>(body@),
            Err(message) => auth_result(reply) == Err::<AuthResponseView, Seq<char>>(message@),
        },
{
    match reply {
        AuthReply::NotSent => Err("the form could not be sent".to_owned()),
        AuthReply::NoAnswer => Err("the server could not be reached".to_owned()),
        AuthReply::Unreadable => Err("the server returned an unexpected response".to_owned()),
        AuthReply::Answer(status, body) => {
            if status >= 400 {
                match body.message {
                    Some(message) => Err(message),
                    None => Err("something went wrong; please try again".to_owned()),
                }
            } else {
                Ok(body)
            }
        },
    }
}

/// A form.
#[derive(Debug, PartialEq)]
pub struct AuthForm {
    pub error: Option<String>,
    pub message: Option<String>,
    pub submitting: bool,
}

/// A form, its texts as characters.
pub struct AuthFormView {
    pub error: Option<Seq<char>>,
    pub message: Option<Seq<char>>,
    pub submitting: bool,
}

impl View for AuthForm {
    type V = AuthFormView;

    open spec fn view(&self) -> AuthFormView {
        AuthFormView {
            error: opt_view(self.error),
            message: opt_view(self.message),
            submitting: self.submitting,
        }
    }
}

/// An address and a password.
#[derive(Debug, PartialEq)]
pub struct PasswordPayload {
    pub email: String,
    pub password: String,
}

/// The token of a reset link and a new password.
#[derive(Debug, PartialEq)]
pub struct ResetConfirmationPayload {
    pub token: String,
    pub new_password: String,
}

/// A code, and the token of the authentication that waits for it.
#[derive(Debug, PartialEq)]
pub struct VerificationPayload {
    pub code: String,
    pub pending_authentication_token: Option<String>,
}

/// The form while it is being sent.
pub open spec fn sending(f: AuthFormView) -> AuthFormView {
    AuthFormView { error: None, submitting: true, ..f }
}

/// Whether an answer means that the user is signed in.
pub open spec fn is_signed_in(status: Seq<char>) -> bool {
    status == "ok"@ || status == "authenticated"@
}

/// What is remembered of an answer: the account, or that somebody is signed
/// in.
pub open spec fn remembered_of(body: AuthResponseView) -> Seq<StoreWriteView> {
    match body.account_id {
        Some(id) => account_writes(id),
        None => session_writes(),
    }
}

fn remember(body: &AuthApiResponse) -> (r: Vec<StoreWrite>)
    ensures
        views(r@) == remembered_of(body@),
{
    match &body.account_id {
        Some(id) => remember_authenticated_account(id),
        None => remember_authenticated_session(),
    }
}

impl AuthForm {
    /// An empty form.
    pub fn new() -> (r: Self)
        ensures
            r@ == (AuthFormView { error: None, message: None, submitting: false }),
    {
        AuthForm { error: None, message: None, submitting: false }
    }

    /// Sends an address and a password to sign in. Nothing is sent twice.
    pub fn sign_in(&mut self, email: &str, password: &str) -> (r: Option<PasswordPayload>)
        ensures
            match r {
                None => old(self)@.submitting && final(self)@ == old(self)@,
                Some(payload) => {
                    &&& !old(self)@.submitting
                    &&& final(self)@ == sending(old(self)@)
                    &&& payload.email@ == trimmed(email@)
                    &&& payload.password@ == password@
                },
            },
    {
        if self.submitting {
            return None;
        }
        self.error = None;
        self.submitting = true;
        Some(PasswordPayload { email: trim(email), password: password.to_owned() })
    }

    /// Sends an address and a password to sign up, once the password was
    /// repeated.
    pub fn sign_up(&mut self, email: &str, password: &str, confirmation: &str) -> (r: Option<
        PasswordPayload,
    >)
        ensures
            match r {
                None => (old(self)@.submitting || password@ != confirmation@) && final(self)@
                    == (if old(self)@.submitting {
                    old(self)@
                } else {
                    AuthFormView {
                        error: Some("the passwords do not match"@),
                        ..old(self)@
                    }
                }),
                Some(payload) => {
                    &&& !old(self)@.submitting
                    &&& password@ == confirmation@
                    &&& final(self)@ == sending(old(self)@)
                    &&& payload.email@ == trimmed(email@)
                    &&& payload.password@ == password@
                },
            },
    {
        if self.submitting {
            return None;
        }
        if !text_eq(password, confirmation) {
            self.error = Some("the passwords do not match".to_owned());
            return None;
        }
        self.sign_in(email, password)
    }

    /// The answer to signing in or up. Where the user is signed in, says what
    /// is remembered of it; the page then goes to the board.
    pub fn signed_in(&mut self, reply: AuthReply) -> (r: Option<Vec<StoreWrite>>)
        ensures
            match auth_result(reply) {
                Ok(body) => if is_signed_in(body.status) {
                    &&& r matches Some(writes)
                    &&& views(writes@) == remembered_of(body)
                    &&& final(self)@ == (AuthFormView { submitting: false, ..old(self)@ })
                } else {
                    &&& r is None
                    &&& final(self)@ == (AuthFormView {
                        error: body.message,
                        submitting: false,
                        ..old(self)@
                    })
                },
                Err(message) => {
                    &&& r is None
                    &&& final(self)@ == (AuthFormView {
                        error: Some(message),
                        submitting: false,
                        ..old(self)@
                    })
                },
            },
    {
        self.submitting = false;
        match post_auth(reply) {
            Ok(body) => {
                if text_eq(&body.status, "ok") || text_eq(&body.status, "authenticated") {
                    Some(remember(&body))
                } else {
                    self.error = body.message;
                    None
                }
            },
            Err(message) => {
                self.error = Some(message);
                None
            },
        }
    }

    /// Sends an address to which a reset link has to go.
    pub fn forgot_password(&mut self, email: &str) -> (r: Option<String>)
        ensures
            match r {
                None => old(self)@.submitting && final(self)@ == old(self)@,
                Some(address) => {
                    &&& !old(self)@.submitting
                    &&& final(self)@ == (AuthFormView { message: None, ..sending(old(self)@) })
                    &&& address@ == trimmed(email@)
                },
            },
    {
        if self.submitting {
            return None;
        }
        self.error = None;
        self.message = None;
        self.submitting = true;
        Some(trim(email))
    }

    /// The answer to a forgotten password.
    pub fn reset_requested(&mut self, reply: AuthReply)
        ensures
            final(self)@ == (match auth_result(reply) {
                Ok(body) => AuthFormView {
                    message: body.message,
                    submitting: false,
                    ..old(self)@
                },
                Err(error) => AuthFormView {
                    error: Some(error),
                    submitting: false,
                    ..old(self)@
                },
            }),
    {
        self.submitting = false;
        match post_auth(reply) {
            Ok(body) => {
                self.message = body.message;
            },
            Err(error) => {
                self.error = Some(error);
            },
        }
    }

    /// Sends a new password, once it was repeated, with the token of the link.
    pub fn reset_password(&mut self, token: &str, password: &str, confirmation: &str) -> (r: Option<
        ResetConfirmationPayload,
    >)
        ensures
            match r {
                None => {
                    &&& old(self)@.submitting || token@.len() == 0 || password@ != confirmation@
                    &&& final(self)@ == (if old(self)@.submitting {
                        old(self)@
                    } else if token@.len() == 0 {
                        AuthFormView {
                            error: Some("this reset link is missing its token"@),
                            ..old(self)@
                        }
                    } else {
                        AuthFormView {
                            error: Some("the passwords do not match"@),
                            ..old(self)@
                        }
                    })
                },
                Some(payload) => {
                    &&& !old(self)@.submitting
                    &&& token@.len() > 0
                    &&& password@ == confirmation@
                    &&& final(self)@ == sending(old(self)@)
                    &&& payload.token@ == token@
                    &&& payload.new_password@ == password@
                },
            },
    {
        if self.submitting {
            return None;
        }
        proof {
            reveal_strlit("");
            if token@.len() == 0 {
                assert(token@ =~= ""@);
            }
        }
        if text_eq(token, "") {
            self.error = Some("this reset link is missing its token".to_owned());
            return None;
        }
        if !text_eq(password, confirmation) {
            self.error = Some("the passwords do not match".to_owned());
            return None;
        }
        self.error = None;
        self.submitting = true;
        Some(
            ResetConfirmationPayload {
                token: token.to_owned(),
                new_password: password.to_owned(),
            },
        )
    }

    /// The answer to a new password. Says whether the page goes on to signing
    /// in.
    pub fn password_reset(&mut self, reply: AuthReply) -> (r: bool)
        ensures
            r == (auth_result(reply) is Ok),
            final(self)@ == (match auth_result(reply) {
                Ok(_) => old(self)@,
                Err(error) => AuthFormView {
                    error: Some(error),
                    submitting: false,
                    ..old(self)@
                },
            }),
    {
        match post_auth(reply) {
            Ok(_) => true,
            Err(error) => {
                self.error = Some(error);
                self.submitting = false;
                false
            },
        }
    }

    /// Sends the code from a confirmation, with the token that waits for it.
    pub fn verify_email(&mut self, code: &str, pending_token: &Option<String>) -> (r: Option<
        VerificationPayload,
    >)
        ensures
            match r {
                None => old(self)@.submitting && final(self)@ == old(self)@,
                Some(payload) => {
                    &&& !old(self)@.submitting
                    &&& final(self)@ == sending(old(self)@)
                    &&& payload.code@ == trimmed(code@)
                    &&& opt_view(payload.pending_authentication_token) == opt_view(
                        *pending_token,
                    )
                },
            },
    {
        if self.submitting {
            return None;
        }
        self.error = None;
        self.submitting = true;
        Some(
            VerificationPayload {
                code: trim(code),
                pending_authentication_token: clone_opt(pending_token),
            },
        )
    }

    /// The answer to a code. Where it was right, says what is remembered; the
    /// page then goes to the board.
    pub fn email_verified(&mut self, reply: AuthReply) -> (r: Option<Vec<StoreWrite>>)
        ensures
            match auth_result(reply) {
                Ok(body) => {
                    &&& r matches Some(writes)
                    &&& views(writes@) == remembered_of(body)
                    &&& final(self)@ == old(self)@
                },
                Err(error) => {
                    &&& r is None
                    &&& final(self)@ == (AuthFormView {
                        error: Some(error),
                        submitting: false,
                        ..old(self)@
                    })
                },
            },
    {
        match post_auth(reply) {
            Ok(body) => Some(remember(&body)),
            Err(error) => {
                self.error = Some(error);
                self.submitting = false;
                None
            },
        }
    }
}

/// A refused form is answered with a reason: with the server's, where it gives
/// one.
pub proof fn refusals_have_a_reason(status: u16, body: AuthApiResponse)
    requires
        status >= 400,
    ensures
        auth_result(AuthReply::Answer(status, body)) is Err,
        body@.message is Some ==> auth_result(AuthReply::Answer(status, body)) == Err::<
            AuthResponseView,
            Seq<char>,
        >(body@.message->0),
{
}

/// An answer that is no refusal is taken as it is; what could not be sent, was
/// not answered or could not be read is an error.
pub proof fn answers_are_taken_as_they_are(status: u16, body: AuthApiResponse)
    ensures
        status < 400 ==> auth_result(AuthReply::Answer(status, body)) == Ok::<
            AuthResponseView,
            Seq<char>,
        >(body@),
        auth_result(AuthReply::NotSent) is Err,
        auth_result(AuthReply::NoAnswer) is Err,
        auth_result(AuthReply::Unreadable) is Err,
{
}

/// Somebody is signed in where the server says so in one of its two ways.
pub proof fn two_words_mean_signed_in(status: Seq<char>)
    ensures
        is_signed_in(status) <==> (status == "ok"@ || status == "authenticated"@),
{
}

/// A form that is sent shows no error and cannot be sent again; its message
/// stays.
pub proof fn forms_are_sent_once(f: AuthFormView)
    ensures
        sending(f).submitting,
        sending(f).error is None,
        sending(f).message == f.message,
{
}

/// After signing in the account is found again where the server named one.
pub proof fn signed_in_accounts_are_remembered(
    body: AuthResponseView,
    stores: Seq<Map<Seq<char>, Seq<char>>>,
)
    requires
        body.account_id is Some,
        !crate::text::blank(body.account_id->0),
        stores.len() > 0,
    ensures
        crate::account::first_principal(
            crate::account::sessions_after(stores, remembered_of(body)),
        ) == Some(crate::identity::account_principal_text(body.account_id->0)),
{
    crate::account::remembered_accounts_are_found(stores, body.account_id->0);
}

} // verus!
