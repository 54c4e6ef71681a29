//! Connecting a Gmail account: signing in with Google, and storing what was
//! granted.
//!
//! A setup does no input or output itself. It says what is to be done next, is
//! told what came of it, and goes on from there.
use vstd::prelude::*;
use vstd::string::*;

use crate::account::{
    gmail_summary, gmail_summary_of, required, required_input, secret_fields, AccountSummary,
    SummaryView,
};
use crate::gmail_api::{email_of, grant_of, granted_tokens, profile_email};
use crate::json::Json;
use crate::number::decimal;
use crate::oauth::{authorization_url, oauth_authorization_url, oauth_redirect_uri, redirect_target};
use crate::text::{blank, cat, copy, trim};

verus! {

// ---------------------------------------------------------------------------
// What is told and what is asked
// ---------------------------------------------------------------------------
/// What the setup of a Gmail account is told.
pub enum SignInEvent {
    /// What was to be done is done.
    Done,
    /// It could not be done.
    Failed(String),
    /// The browser can come back to this port; the request is known by `state`.
    Listening { port: u16, state: String },
    /// The browser came back with this code.
    Code(String),
    /// Google's reply.
    Reply(Json),
    /// The account that has the address, where one has.
    Holder(Option<i64>),
    /// A new account is stored, under this id.
    Inserted(i64),
}

/// The view of a [`SignInEvent`].
pub enum SignInEventView {
    Done,
    Failed(Seq<char>),
    Listening { port: u16, state: Seq<char> },
    Code(Seq<char>),
    Reply(Json),
    Holder(Option<i64>),
    Inserted(i64),
}

impl View for SignInEvent {
    type V = SignInEventView;

    open spec fn view(&self) -> SignInEventView {
        match *self {
            SignInEvent::Done => SignInEventView::Done,
            SignInEvent::Failed(e) => SignInEventView::Failed(e@),
            SignInEvent::Listening { port, state } => SignInEventView::Listening {
                port,
                state: state@,
            },
            SignInEvent::Code(code) => SignInEventView::Code(code@),
            SignInEvent::Reply(reply) => SignInEventView::Reply(reply),
            SignInEvent::Holder(holder) => SignInEventView::Holder(holder),
            SignInEvent::Inserted(id) => SignInEventView::Inserted(id),
        }
    }
}

/// What is to be done next.
pub enum SignInAction {
    /// Be ready for the browser to come back.
    Listen,
    /// Send the user to a page.
    OpenBrowser(String),
    /// Wait for the browser to come back with a request known by `state`.
    AwaitCallback { state: String },
    /// Ask Google for tokens.
    Exchange { code: String, client_id: String, client_secret: String, redirect_uri: String },
    /// Ask Google for the profile of the user.
    LoadProfile { access_token: String },
    /// Look for the Gmail account that has an address.
    FindHolder { email: String },
    /// Store when the token of an account expires.
    Renew { id: i64, expires_in: i64 },
    /// Store a new account.
    Insert { email: String, expires_in: i64 },
    /// Store a secret of an account.
    StoreSecret { id: i64, field: &'static str, value: String },
    /// Delete every secret of an account.
    DeleteSecrets { id: i64 },
    /// Delete an account.
    DeleteAccount { id: i64 },
    /// Nothing: the account is connected.
    Finished(AccountSummary),
    /// Nothing: the account is not connected.
    Stopped(String),
}

/// The view of a [`SignInAction`].
pub enum SignInActionView {
    Listen,
    OpenBrowser(Seq<char>),
    AwaitCallback { state: Seq<char> },
    Exchange {
        code: Seq<char>,
        client_id: Seq<char>,
        client_secret: Seq<char>,
        redirect_uri: Seq<char>,
    },
    LoadProfile { access_token: Seq<char> },
    FindHolder { email: Seq<char> },
    Renew { id: i64, expires_in: i64 },
    Insert { email: Seq<char>, expires_in: i64 },
    StoreSecret { id: i64, field: Seq<char>, value: Seq<char> },
    DeleteSecrets { id: i64 },
    DeleteAccount { id: i64 },
    Finished(SummaryView),
    Stopped(Seq<char>),
}

impl View for SignInAction {
    type V = SignInActionView;

    open spec fn view(&self) -> SignInActionView {
        match *self {
            SignInAction::Listen => SignInActionView::Listen,
            SignInAction::OpenBrowser(url) => SignInActionView::OpenBrowser(url@),
            SignInAction::AwaitCallback { state } => SignInActionView::AwaitCallback {
                state: state@,
            },
            SignInAction::Exchange { code, client_id, client_secret, redirect_uri } =>
                SignInActionView::Exchange {
                code: code@,
                client_id: client_id@,
                client_secret: client_secret@,
                redirect_uri: redirect_uri@,
            },
            SignInAction::LoadProfile { access_token } => SignInActionView::LoadProfile {
                access_token: access_token@,
            },
            SignInAction::FindHolder { email } => SignInActionView::FindHolder { email: email@ },
            SignInAction::Renew { id, expires_in } => SignInActionView::Renew { id, expires_in },
            SignInAction::Insert { email, expires_in } => SignInActionView::Insert {
                email: email@,
                expires_in,
            },
            SignInAction::StoreSecret { id, field, value } => SignInActionView::StoreSecret {
                id,
                field: field@,
                value: value@,
            },
            SignInAction::DeleteSecrets { id } => SignInActionView::DeleteSecrets { id },
            SignInAction::DeleteAccount { id } => SignInActionView::DeleteAccount { id },
            SignInAction::Finished(summary) => SignInActionView::Finished(summary@),
            SignInAction::Stopped(e) => SignInActionView::Stopped(e@),
        }
    }
}

// ---------------------------------------------------------------------------
// The state of a setup
// ---------------------------------------------------------------------------
/// What the setup of a Gmail account waits for.
#[derive(Clone, Copy, PartialEq, Eq, Structural)]
pub enum SignInWait {
    Listen,
    Browser,
    Callback,
    Tokens,
    Profile,
    Holder,
    /// The expiry of the token of an account to be stored.
    Row { id: i64 },
    /// A new account to be stored.
    Insert,
    /// A secret of an account, new or not, to be stored.
    Secret { id: i64, created: bool, at: usize },
    /// The secrets of an account, new or not, to be gone again.
    DropSecrets { id: i64, created: bool },
    /// A new account to be gone again.
    DropAccount,
    /// Nothing more.
    Over,
}

/// The setup of a Gmail account.
pub struct GmailSetup {
    client_id: String,
    client_secret: String,
    redirect_uri: String,
    state: String,
    access_token: String,
    refresh_token: String,
    expires_in: i64,
    email: String,
    failure: String,
    wait: SignInWait,
}

/// The view of a [`GmailSetup`].
pub struct SignInView {
    pub client_id: Seq<char>,
    pub client_secret: Seq<char>,
    /// Where the browser comes back to.
    pub redirect_uri: Seq<char>,
    /// What the request is known by.
    pub state: Seq<char>,
    pub access_token: Seq<char>,
    pub refresh_token: Seq<char>,
    /// How long the access token is good for, in seconds.
    pub expires_in: i64,
    pub email: Seq<char>,
    /// Why an account is taken back.
    pub failure: Seq<char>,
    pub wait: SignInWait,
}

impl View for GmailSetup {
    type V = SignInView;

    closed spec fn view(&self) -> SignInView {
        SignInView {
            client_id: self.client_id@,
            client_secret: self.client_secret@,
            redirect_uri: self.redirect_uri@,
            state: self.state@,
            access_token: self.access_token@,
            refresh_token: self.refresh_token@,
            expires_in: self.expires_in,
            email: self.email@,
            failure: self.failure@,
            wait: self.wait,
        }
    }
}

impl SignInView {
    /// The secrets of the account, each with its name, in the order in which they
    /// are stored.
    pub open spec fn secrets(self) -> Seq<(Seq<char>, Seq<char>)> {
        seq![
            ("access_token"@, self.access_token),
            ("refresh_token"@, self.refresh_token),
            ("client_id"@, self.client_id),
            ("client_secret"@, self.client_secret),
        ]
    }

    /// A state that a setup can be in.
    pub open spec fn wf(self) -> bool {
        self.wait matches SignInWait::Secret { at, .. } ==> at < self.secrets().len()
    }

    /// The end of the setup where it failed.
    pub open spec fn stop(self, e: Seq<char>) -> (SignInView, SignInActionView) {
        (SignInView { wait: SignInWait::Over, ..self }, SignInActionView::Stopped(e))
    }

    /// The secrets from a certain one on are stored; behind the last one the
    /// account is connected.
    pub open spec fn store_secret(self, id: i64, created: bool, at: int) -> (
        SignInView,
        SignInActionView,
    ) {
        if 0 <= at < self.secrets().len() {
            (
                SignInView {
                    wait: SignInWait::Secret { id, created, at: at as usize },
                    ..self
                },
                SignInActionView::StoreSecret {
                    id,
                    field: self.secrets()[at].0,
                    value: self.secrets()[at].1,
                },
            )
        } else {
            (
                SignInView { wait: SignInWait::Over, ..self },
                SignInActionView::Finished(gmail_summary_of(id, self.email)),
            )
        }
    }

    /// The event is one that the setup waits for.
    pub open spec fn expects(self, event: SignInEventView) -> bool {
        match (self.wait, event) {
            (SignInWait::Over, _) => false,
            (_, SignInEventView::Failed(_)) => true,
            (SignInWait::Listen, SignInEventView::Listening { .. }) => true,
            (SignInWait::Browser, SignInEventView::Done) => true,
            (SignInWait::Callback, SignInEventView::Code(_)) => true,
            (SignInWait::Tokens, SignInEventView::Reply(_)) => true,
            (SignInWait::Profile, SignInEventView::Reply(_)) => true,
            (SignInWait::Holder, SignInEventView::Holder(_)) => true,
            (SignInWait::Row { .. }, SignInEventView::Done) => true,
            (SignInWait::Insert, SignInEventView::Inserted(_)) => true,
            (SignInWait::Secret { .. }, SignInEventView::Done) => true,
            (SignInWait::DropSecrets { .. }, SignInEventView::Done) => true,
            (SignInWait::DropAccount, SignInEventView::Done) => true,
            _ => false,
        }
    }

    /// The state behind an event that the setup waits for, and what is to be done
    /// then.
    pub open spec fn after(self, event: SignInEventView) -> (SignInView, SignInActionView) {
        match (self.wait, event) {
            (SignInWait::Listen, SignInEventView::Listening { port, state }) => {
                let redirect_uri = redirect_target(port as nat);
                (
                    SignInView { redirect_uri, state, wait: SignInWait::Browser, ..self },
                    SignInActionView::OpenBrowser(
                        authorization_url(self.client_id, redirect_uri, state),
                    ),
                )
            },
            (SignInWait::Browser, SignInEventView::Done) => (
                SignInView { wait: SignInWait::Callback, ..self },
                SignInActionView::AwaitCallback { state: self.state },
            ),
            (SignInWait::Browser, SignInEventView::Failed(e)) => self.stop(
                "Could not open browser: "@ + e,
            ),
            (SignInWait::Callback, SignInEventView::Code(code)) => (
                SignInView { wait: SignInWait::Tokens, ..self },
                SignInActionView::Exchange {
                    code,
                    client_id: self.client_id,
                    client_secret: self.client_secret,
                    redirect_uri: self.redirect_uri,
                },
            ),
            (SignInWait::Tokens, SignInEventView::Reply(reply)) => match grant_of(reply) {
                Ok((access_token, refresh_token, expires_in)) => (
                    SignInView {
                        access_token,
                        refresh_token,
                        expires_in,
                        wait: SignInWait::Profile,
                        ..self
                    },
                    SignInActionView::LoadProfile { access_token },
                ),
                Err(e) => self.stop(e),
            },
            (SignInWait::Profile, SignInEventView::Reply(reply)) => (
                SignInView { email: email_of(reply), wait: SignInWait::Holder, ..self },
                SignInActionView::FindHolder { email: email_of(reply) },
            ),
            (SignInWait::Holder, SignInEventView::Holder(holder)) => match holder {
                // An account with the address is connected again.
                Some(id) => (
                    SignInView { wait: SignInWait::Row { id }, ..self },
                    SignInActionView::Renew { id, expires_in: self.expires_in },
                ),
                None => (
                    SignInView { wait: SignInWait::Insert, ..self },
                    SignInActionView::Insert { email: self.email, expires_in: self.expires_in },
                ),
            },
            (SignInWait::Row { id }, SignInEventView::Done) => self.store_secret(id, false, 0),
            (SignInWait::Insert, SignInEventView::Inserted(id)) => self.store_secret(id, true, 0),
            (SignInWait::Secret { id, created, at }, SignInEventView::Done) => self.store_secret(
                id,
                created,
                at + 1,
            ),
            // Some of the secrets are of no use without the others.
            (SignInWait::Secret { id, created, .. }, SignInEventView::Failed(e)) => (
                SignInView {
                    failure: e,
                    wait: SignInWait::DropSecrets { id, created },
                    ..self
                },
                SignInActionView::DeleteSecrets { id },
            ),
            (SignInWait::DropSecrets { id, created }, _) => if created {
                (
                    SignInView { wait: SignInWait::DropAccount, ..self },
                    SignInActionView::DeleteAccount { id },
                )
            } else {
                self.stop(self.failure)
            },
            (SignInWait::DropAccount, _) => self.stop(self.failure),
            (_, SignInEventView::Failed(e)) => self.stop(e),
            _ => (self, SignInActionView::Stopped(Seq::empty())),
        }
    }
}

/// The view of the start of a setup.
pub open spec fn sign_in_result(r: Result<(GmailSetup, SignInAction), String>) -> Result<
    (SignInView, SignInActionView),
    Seq<char>,
> {
    match r {
        Ok((setup, action)) => Ok((setup@, action@)),
        Err(e) => Err(e@),
    }
}

/// The start of the connection of a Gmail account, or the first thing that is
/// missing.
pub open spec fn fresh_sign_in(client_id: Seq<char>, client_secret: Seq<char>) -> Result<
    (SignInView, SignInActionView),
    Seq<char>,
> {
    match (
        required(client_id, "Google OAuth client ID"@),
        required(client_secret, "Google OAuth client secret"@),
    ) {
        (Err(e), _) => Err(e),
        (_, Err(e)) => Err(e),
        (Ok(client_id), Ok(client_secret)) => Ok(
            (
                SignInView {
                    client_id,
                    client_secret,
                    redirect_uri: Seq::empty(),
                    state: Seq::empty(),
                    access_token: Seq::empty(),
                    refresh_token: Seq::empty(),
                    expires_in: 0,
                    email: Seq::empty(),
                    failure: Seq::empty(),
                    wait: SignInWait::Listen,
                },
                SignInActionView::Listen,
            ),
        ),
    }
}

/// A text without characters.
fn no_text() -> (r: String)
    ensures
        r@ == Seq::<char>::empty(),
{
    let r = String::new();
    assert(r@ =~= Seq::<char>::empty());
    r
}

/// Starts the connection of a Gmail account with the credentials of an OAuth
/// client.
pub fn connect_gmail(client_id: &str, client_secret: &str) -> (r: Result<
    (GmailSetup, SignInAction),
    String,
>)
    ensures
        sign_in_result(r) == fresh_sign_in(client_id@, client_secret@),
        r is Ok ==> r->Ok_0.0@.wf(),
{
    let client_id = match required_input(client_id, "Google OAuth client ID") {
        Ok(client_id) => client_id,
        Err(e) => {
            return Err(e);
        },
    };
    let client_secret = match required_input(client_secret, "Google OAuth client secret") {
        Ok(client_secret) => client_secret,
        Err(e) => {
            return Err(e);
        },
    };
    let setup = GmailSetup {
        client_id,
        client_secret,
        redirect_uri: no_text(),
        state: no_text(),
        access_token: no_text(),
        refresh_token: no_text(),
        expires_in: 0,
        email: no_text(),
        failure: no_text(),
        wait: SignInWait::Listen,
    };
    Ok((setup, SignInAction::Listen))
}

impl GmailSetup {
    fn stop(&mut self, e: String) -> (r: SignInAction)
        ensures
            (final(self)@, r@) == old(self)@.stop(e@),
    {
        self.wait = SignInWait::Over;
        SignInAction::Stopped(e)
    }

    /// Computes [`SignInView::store_secret`].
    fn store_secret(&mut self, id: i64, created: bool, at: usize) -> (r: SignInAction)
        ensures
            (final(self)@, r@) == old(self)@.store_secret(id, created, at as int),
    {
        if at >= 4 {
            self.wait = SignInWait::Over;
            return SignInAction::Finished(gmail_summary(id, self.email.as_str()));
        }
        self.wait = SignInWait::Secret { id, created, at };
        if at == 0 {
            let value = copy(&self.access_token);
            SignInAction::StoreSecret { id, field: "access_token", value }
        } else if at == 1 {
            let value = copy(&self.refresh_token);
            SignInAction::StoreSecret { id, field: "refresh_token", value }
        } else if at == 2 {
            let value = copy(&self.client_id);
            SignInAction::StoreSecret { id, field: "client_id", value }
        } else {
            let value = copy(&self.client_secret);
            SignInAction::StoreSecret { id, field: "client_secret", value }
        }
    }

    /// Tells the setup what happened. It says what is to be done next; an event
    /// that it does not wait for it ignores.
    pub fn step(&mut self, event: SignInEvent) -> (r: Option<SignInAction>)
        requires
            old(self)@.wf(),
        ensures
            final(self)@.wf(),
            match r {
                Some(action) => old(self)@.expects(event@) && (final(self)@, action@) == old(
                    self,
                )@.after(event@),
                None => !old(self)@.expects(event@) && final(self)@ == old(self)@,
            },
    {
        let action = match (self.wait, event) {
            (SignInWait::Over, _) => {
                return None;
            },
            (SignInWait::Listen, SignInEvent::Listening { port, state }) => {
                self.redirect_uri = oauth_redirect_uri(port);
                let url = oauth_authorization_url(
                    self.client_id.as_str(),
                    self.redirect_uri.as_str(),
                    state.as_str(),
                );
                self.state = state;
                self.wait = SignInWait::Browser;
                SignInAction::OpenBrowser(url)
            },
            (SignInWait::Browser, SignInEvent::Done) => {
                self.wait = SignInWait::Callback;
                SignInAction::AwaitCallback { state: copy(&self.state) }
            },
            (SignInWait::Browser, SignInEvent::Failed(e)) => self.stop(
                cat("Could not open browser: ", e.as_str()),
            ),
            (SignInWait::Callback, SignInEvent::Code(code)) => {
                self.wait = SignInWait::Tokens;
                SignInAction::Exchange {
                    code,
                    client_id: copy(&self.client_id),
                    client_secret: copy(&self.client_secret),
                    redirect_uri: copy(&self.redirect_uri),
                }
            },
            (SignInWait::Tokens, SignInEvent::Reply(reply)) => match granted_tokens(&reply) {
                Ok(grant) => {
                    self.access_token = grant.access_token;
                    self.refresh_token = grant.refresh_token;
                    self.expires_in = grant.expires_in;
                    self.wait = SignInWait::Profile;
                    SignInAction::LoadProfile { access_token: copy(&self.access_token) }
                },
                Err(e) => self.stop(e),
            },
            (SignInWait::Profile, SignInEvent::Reply(reply)) => {
                self.email = profile_email(&reply);
                self.wait = SignInWait::Holder;
                SignInAction::FindHolder { email: copy(&self.email) }
            },
            (SignInWait::Holder, SignInEvent::Holder(holder)) => match holder {
                Some(id) => {
                    self.wait = SignInWait::Row { id };
                    SignInAction::Renew { id, expires_in: self.expires_in }
                },
                None => {
                    self.wait = SignInWait::Insert;
                    SignInAction::Insert { email: copy(&self.email), expires_in: self.expires_in }
                },
            },
            (SignInWait::Row { id }, SignInEvent::Done) => self.store_secret(id, false, 0),
            (SignInWait::Insert, SignInEvent::Inserted(id)) => self.store_secret(id, true, 0),
            (SignInWait::Secret { id, created, at }, SignInEvent::Done) => self.store_secret(
                id,
                created,
                at + 1,
            ),
            (SignInWait::Secret { id, created, .. }, SignInEvent::Failed(e)) => {
                self.failure = e;
                self.wait = SignInWait::DropSecrets { id, created };
                SignInAction::DeleteSecrets { id }
            },
            (SignInWait::DropSecrets { id, created }, SignInEvent::Done) => self.drop_account(
                id,
                created,
            ),
            (SignInWait::DropSecrets { id, created }, SignInEvent::Failed(_)) => self.drop_account(
                id,
                created,
            ),
            (SignInWait::DropAccount, SignInEvent::Done) => {
                let e = copy(&self.failure);
                self.stop(e)
            },
            (SignInWait::DropAccount, SignInEvent::Failed(_)) => {
                let e = copy(&self.failure);
                self.stop(e)
            },
            (_, SignInEvent::Failed(e)) => self.stop(e),
            _ => {
                return None;
            },
        };
        Some(action)
    }

    /// Goes on once the secrets of an account were deleted, or were not.
    fn drop_account(&mut self, id: i64, created: bool) -> (r: SignInAction)
        requires
            old(self)@.wait == (SignInWait::DropSecrets { id, created }),
        ensures
            (final(self)@, r@) == old(self)@.after(SignInEventView::Done),
    {
        if created {
            self.wait = SignInWait::DropAccount;
            SignInAction::DeleteAccount { id }
        } else {
            let e = copy(&self.failure);
            self.stop(e)
        }
    }
}

// ---------------------------------------------------------------------------
// Laws
// ---------------------------------------------------------------------------
/// How far a setup is from its end.
pub open spec fn sign_in_steps_left(s: SignInView) -> int {
    match s.wait {
        SignInWait::Listen => 20,
        SignInWait::Browser => 19,
        SignInWait::Callback => 18,
        SignInWait::Tokens => 17,
        SignInWait::Profile => 16,
        SignInWait::Holder => 15,
        SignInWait::Row { .. } => 14,
        SignInWait::Insert => 14,
        SignInWait::Secret { at, .. } => 13 - at,
        SignInWait::DropSecrets { .. } => 2,
        SignInWait::DropAccount => 1,
        SignInWait::Over => 0,
    }
}

/// Law: whatever happens, a setup comes to an end.
pub proof fn sign_in_comes_to_an_end(s: SignInView, event: SignInEventView)
    requires
        s.wf(),
        s.expects(event),
    ensures
        s.after(event).0.wf(),
        0 <= sign_in_steps_left(s.after(event).0) < sign_in_steps_left(s),
        s.after(event).0.wait == SignInWait::Over <==> (s.after(event).1 is Finished || s.after(
            event,
        ).1 is Stopped),
{
}

/// Law: an account is connected only once all its secrets are stored; each is
/// stored behind the one before it.
pub proof fn connected_account_has_its_secrets(s: SignInView, event: SignInEventView)
    requires
        s.wf(),
        s.expects(event),
    ensures
        ({
            let (next, action) = s.after(event);
            &&& action is Finished ==> s.wait is Secret && s.wait->at == s.secrets().len() - 1
                && event is Done
            &&& (next.wait matches SignInWait::Secret { at, .. } && at > 0) ==> (
            s.wait matches SignInWait::Secret { id, created, at: before } && next.wait == (
            SignInWait::Secret { id, created, at: (before + 1) as usize }) && event is Done)
            &&& next.wait is Secret ==> action == (SignInActionView::StoreSecret {
                id: next.wait->Secret_id,
                field: next.secrets()[next.wait->at as int].0,
                value: next.secrets()[next.wait->at as int].1,
            })
        }),
{
}

/// Law: a setup that cannot store a secret takes back what it stored: all secrets
/// of the account, and the account where the setup stored it, but no account that
/// was there before. It ends with the error that stopped it.
pub proof fn failed_sign_in_is_taken_back(s: SignInView, event: SignInEventView)
    requires
        s.wf(),
        s.expects(event),
    ensures
        ({
            let (next, action) = s.after(event);
            &&& s.wait is Secret && event is Failed ==> action == (SignInActionView::DeleteSecrets {
                id: s.wait->Secret_id,
            }) && next.failure == event->Failed_0 && next.wait == (SignInWait::DropSecrets {
                id: s.wait->Secret_id,
                created: s.wait->Secret_created,
            })
            &&& s.wait is DropSecrets ==> if s.wait->DropSecrets_created {
                action == (SignInActionView::DeleteAccount { id: s.wait->DropSecrets_id })
                    && next.wait == SignInWait::DropAccount && next.failure == s.failure
            } else {
                action == SignInActionView::Stopped(s.failure)
            }
            &&& s.wait == SignInWait::DropAccount ==> action == SignInActionView::Stopped(s.failure)
            &&& action is DeleteAccount ==> s.wait is DropSecrets && s.wait->DropSecrets_created
            &&& (next.wait is Secret && next.wait->Secret_created) ==> (s.wait is Secret
                && s.wait->Secret_created) || event == SignInEventView::Inserted(
                next.wait->Secret_id,
            )
        }),
{
}

/// Law: deleting the secrets of an account reaches every secret that a setup
/// stores.
pub proof fn stored_secrets_can_be_deleted(s: SignInView, i: int)
    requires
        0 <= i < s.secrets().len(),
    ensures
        secret_fields().contains(s.secrets()[i].0),
{
    let all = secret_fields();
    assert(all[0] == "access_token"@);
    assert(all[1] == "refresh_token"@);
    assert(all[2] == "client_secret"@);
    assert(all[4] == "client_id"@);
}

/// Law: the user is sent to Google with the client and a place to come back to, and
/// what comes back is exchanged under the same client and place, by the state that was
/// sent out.
pub proof fn a_sign_in_keeps_to_its_client(s: SignInView, event: SignInEventView)
    requires
        s.wf(),
        s.expects(event),
    ensures
        ({
            let (next, action) = s.after(event);
            &&& next.client_id == s.client_id && next.client_secret == s.client_secret
            &&& event matches SignInEventView::Listening { port, state } ==> {
                &&& next.state == state
                &&& next.redirect_uri == "http://127.0.0.1:"@ + decimal(port as nat) + "/callback"@
                &&& action == SignInActionView::OpenBrowser(
                    authorization_url(s.client_id, next.redirect_uri, state),
                )
            }
            &&& !(event is Listening) ==> next.state == s.state && next.redirect_uri
                == s.redirect_uri
            &&& s.wait == SignInWait::Browser && event is Done ==> action == (
            SignInActionView::AwaitCallback { state: s.state })
            &&& event matches SignInEventView::Code(code) ==> action == (
            SignInActionView::Exchange {
                code,
                client_id: s.client_id,
                client_secret: s.client_secret,
                redirect_uri: s.redirect_uri,
            })
        }),
{
}

/// Law: the tokens that Google granted are those that are used and stored, and the
/// address that it names is that of the account. An account that has the address is
/// renewed, and otherwise a new one is stored; its secrets go under its id.
pub proof fn a_sign_in_stores_what_google_granted(s: SignInView, event: SignInEventView)
    requires
        s.wf(),
        s.expects(event),
    ensures
        ({
            let (next, action) = s.after(event);
            &&& s.wait == SignInWait::Tokens && event is Reply ==> match grant_of(event->Reply_0) {
                Ok((access_token, refresh_token, expires_in)) => {
                    &&& next.access_token == access_token
                    &&& next.refresh_token == refresh_token
                    &&& next.expires_in == expires_in
                    &&& action == (SignInActionView::LoadProfile { access_token })
                },
                Err(e) => action == SignInActionView::Stopped(e),
            }
            &&& s.wait == SignInWait::Profile && event is Reply ==> next.email == email_of(
                event->Reply_0,
            ) && action == (SignInActionView::FindHolder { email: email_of(event->Reply_0) })
            &&& s.wait != SignInWait::Tokens ==> next.access_token == s.access_token
                && next.refresh_token == s.refresh_token && next.expires_in == s.expires_in
            &&& s.wait != SignInWait::Profile ==> next.email == s.email
            &&& event matches SignInEventView::Holder(Some(id)) ==> action == (
            SignInActionView::Renew { id, expires_in: s.expires_in })
            &&& event == SignInEventView::Holder(None) ==> action == (SignInActionView::Insert {
                email: s.email,
                expires_in: s.expires_in,
            })
            &&& s.wait is Row && event is Done ==> action is StoreSecret && action->StoreSecret_id
                == s.wait->Row_id && action->field == "access_token"@ && action->value
                == s.access_token
            &&& event matches SignInEventView::Inserted(id) ==> action is StoreSecret
                && action->StoreSecret_id == id && action->field == "access_token"@
                && action->value == s.access_token && next.wait->Secret_created
            &&& s.wait is Row && event is Done ==> !next.wait->Secret_created
            &&& s.wait is Secret && next.wait is Secret ==> next.wait->Secret_created
                == s.wait->Secret_created
            &&& action matches SignInActionView::Finished(shown) ==> shown.id == s.wait->Secret_id
                && shown.email == s.email && shown.provider == "gmail"@
        }),
{
}

/// Law: each secret is stored under its own name: the two tokens and the two
/// credentials of the client, and nothing else.
pub proof fn secrets_are_stored_under_their_names(s: SignInView)
    ensures
        s.secrets().len() == 4,
        s.secrets().contains(("access_token"@, s.access_token)),
        s.secrets().contains(("refresh_token"@, s.refresh_token)),
        s.secrets().contains(("client_id"@, s.client_id)),
        s.secrets().contains(("client_secret"@, s.client_secret)),
{
    let all = s.secrets();
    assert(all[0] == ("access_token"@, s.access_token));
    assert(all[1] == ("refresh_token"@, s.refresh_token));
    assert(all[2] == ("client_id"@, s.client_id));
    assert(all[3] == ("client_secret"@, s.client_secret));
}

/// Law: a sign-in starts with the credentials that were entered, trimmed, exactly
/// where neither is blank.
pub proof fn sign_ins_start_with_what_was_entered(client_id: Seq<char>, client_secret: Seq<char>)
    ensures
        fresh_sign_in(client_id, client_secret) is Ok <==> !blank(client_id) && !blank(
            client_secret,
        ),
        fresh_sign_in(client_id, client_secret) matches Ok(started) ==> started.0.client_id == trim(
            client_id,
        ) && started.0.client_secret == trim(client_secret) && started.0.wait == SignInWait::Listen
            && started.1 is Listen,
        blank(client_id) ==> fresh_sign_in(client_id, client_secret)->Err_0
            == "Google OAuth client ID is required"@,
        !blank(client_id) && blank(client_secret) ==> fresh_sign_in(
            client_id,
            client_secret,
        )->Err_0 == "Google OAuth client secret is required"@,
{
    reveal_strlit(" is required");
    reveal_strlit("Google OAuth client ID");
    reveal_strlit("Google OAuth client ID is required");
    reveal_strlit("Google OAuth client secret");
    reveal_strlit("Google OAuth client secret is required");
    assert("Google OAuth client ID"@ + " is required"@ =~= "Google OAuth client ID is required"@);
    assert("Google OAuth client secret"@ + " is required"@
        =~= "Google OAuth client secret is required"@);
}

/// Law: a sign-in waits for what it asked for, for a failure as for success, and for
/// nothing once it is over.
pub proof fn a_sign_in_waits_for_what_it_asked_for(s: SignInView, event: SignInEventView)
    requires
        s.wf(),
        s.expects(event),
    ensures
        ({
            let (next, action) = s.after(event);
            let over = action is Finished || action is Stopped;
            &&& !over ==> forall|e: Seq<char>| #[trigger] next.expects(SignInEventView::Failed(e))
            &&& action is OpenBrowser || action is Renew || action is StoreSecret || action
                is DeleteSecrets || action is DeleteAccount ==> next.expects(SignInEventView::Done)
            &&& action is AwaitCallback ==> forall|code: Seq<char>| #[trigger]
                next.expects(SignInEventView::Code(code))
            &&& action is FindHolder ==> forall|holder: Option<i64>| #[trigger]
                next.expects(SignInEventView::Holder(holder))
            &&& action is Insert ==> forall|id: i64| #[trigger]
                next.expects(SignInEventView::Inserted(id))
            &&& over ==> forall|e: SignInEventView| !(#[trigger] next.expects(e))
        }),
{
}

} // verus!
