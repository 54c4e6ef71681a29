//! Setting up IMAP accounts: connecting new ones, and changing those that are
//! there.
//!
//! A setup does no input or output itself. It says what is to be done next, is
//! told what came of it, and goes on from there.
use vstd::prelude::*;
use vstd::string::*;

use crate::account::{
    check_address_free, check_imap_connect, check_imap_settings, checked_settings, imap_summary,
    imap_summary_of, password_for_settings, password_was_entered, settings_are_what_was_entered,
    settings_password, taken_error,
    AccountSummary, AccountView, ImapConnectInput, ImapSettings, SettingsView, StoredAccount,
    SummaryView, UpdateImapSettingsInput,
};
use crate::number::{decimal, decimal_text};
use crate::text::{blank, cat, cat3, copy, copy_opt, lower, opt_text, starts, trim};

verus! {

// ---------------------------------------------------------------------------
// What is told and what is asked
// ---------------------------------------------------------------------------
/// What the setup of an IMAP account is told.
pub enum SetupEvent {
    /// What was to be done is done.
    Done,
    /// It could not be done.
    Failed(String),
    /// The server refused the login.
    Refused(String),
    /// The server did not accept the connection.
    NotAccepted,
    /// The account that is to be changed.
    Account(StoredAccount),
    /// The account that has the address, where one has.
    Holder(Option<i64>),
    /// A new account is stored, under this id.
    Inserted(i64),
}

/// The view of a [`SetupEvent`].
pub enum SetupEventView {
    Done,
    Failed(Seq<char>),
    Refused(Seq<char>),
    NotAccepted,
    Account(AccountView),
    Holder(Option<i64>),
    Inserted(i64),
}

impl View for SetupEvent {
    type V = SetupEventView;

    open spec fn view(&self) -> SetupEventView {
        match *self {
            SetupEvent::Done => SetupEventView::Done,
            SetupEvent::Failed(e) => SetupEventView::Failed(e@),
            SetupEvent::Refused(e) => SetupEventView::Refused(e@),
            SetupEvent::NotAccepted => SetupEventView::NotAccepted,
            SetupEvent::Account(account) => SetupEventView::Account(account@),
            SetupEvent::Holder(holder) => SetupEventView::Holder(holder),
            SetupEvent::Inserted(id) => SetupEventView::Inserted(id),
        }
    }
}

/// What is to be done next.
pub enum SetupAction {
    /// Load the account that is to be changed.
    LoadAccount { id: i64 },
    /// Look for the IMAP account that has an address.
    FindHolder { email: String },
    /// Log in at the IMAP server, and out again.
    LogInImap { host: String, port: u16, username: String, password: String },
    /// Log in at the SMTP server.
    LogInSmtp { host: String, port: u16, username: String, password: String },
    /// Store a new account.
    Insert(ImapSettings),
    /// Store the settings of an account.
    Update { id: i64, settings: ImapSettings },
    /// Store a secret of an account.
    StoreSecret { id: i64, field: &'static str, value: String },
    /// Delete an account.
    DeleteAccount { id: i64 },
    /// Nothing: the account is set up.
    Finished(AccountSummary),
    /// Nothing: the account is not set up.
    Stopped(String),
}

/// The view of a [`SetupAction`].
pub enum SetupActionView {
    LoadAccount { id: i64 },
    FindHolder { email: Seq<char> },
    LogInImap { host: Seq<char>, port: int, username: Seq<char>, password: Seq<char> },
    LogInSmtp { host: Seq<char>, port: int, username: Seq<char>, password: Seq<char> },
    Insert(SettingsView),
    Update { id: i64, settings: SettingsView },
    StoreSecret { id: i64, field: Seq<char>, value: Seq<char> },
    DeleteAccount { id: i64 },
    Finished(SummaryView),
    Stopped(Seq<char>),
}

impl View for SetupAction {
    type V = SetupActionView;

    open spec fn view(&self) -> SetupActionView {
        match *self {
            SetupAction::LoadAccount { id } => SetupActionView::LoadAccount { id },
            SetupAction::FindHolder { email } => SetupActionView::FindHolder { email: email@ },
            SetupAction::LogInImap { host, port, username, password } => SetupActionView::LogInImap {
                host: host@,
                port: port as int,
                username: username@,
                password: password@,
            },
            SetupAction::LogInSmtp { host, port, username, password } => SetupActionView::LogInSmtp {
                host: host@,
                port: port as int,
                username: username@,
                password: password@,
            },
            SetupAction::Insert(settings) => SetupActionView::Insert(settings@),
            SetupAction::Update { id, settings } => SetupActionView::Update {
                id,
                settings: settings@,
            },
            SetupAction::StoreSecret { id, field, value } => SetupActionView::StoreSecret {
                id,
                field: field@,
                value: value@,
            },
            SetupAction::DeleteAccount { id } => SetupActionView::DeleteAccount { id },
            SetupAction::Finished(summary) => SetupActionView::Finished(summary@),
            SetupAction::Stopped(e) => SetupActionView::Stopped(e@),
        }
    }
}

// ---------------------------------------------------------------------------
// The state of a setup
// ---------------------------------------------------------------------------
/// What the setup of an IMAP account waits for.
#[derive(Clone, Copy, PartialEq, Eq, Structural)]
pub enum SetupWait {
    /// The account that is to be changed.
    Account,
    /// The account that has the address.
    Holder,
    /// The login at the IMAP server.
    Imap,
    /// The login at the SMTP server.
    Smtp,
    /// A new account to be stored.
    Insert,
    /// The password of an account, new or not, to be stored.
    Secret { id: i64, created: bool },
    /// The settings of an account to be stored.
    Row { id: i64 },
    /// A new account to be gone again.
    TakeBack,
    /// Nothing more.
    Over,
}

/// The setup of an IMAP account.
pub struct ImapSetup {
    settings: ImapSettings,
    account: Option<i64>,
    entered: Option<String>,
    password: String,
    failure: String,
    wait: SetupWait,
}

/// The view of an [`ImapSetup`].
pub struct SetupView {
    pub settings: SettingsView,
    /// The account that is changed; none where one is connected.
    pub account: Option<i64>,
    /// The password that was entered for an account that is changed.
    pub entered: Option<Seq<char>>,
    /// The password to log in with.
    pub password: Seq<char>,
    /// Why a new account is taken back.
    pub failure: Seq<char>,
    pub wait: SetupWait,
}

impl View for ImapSetup {
    type V = SetupView;

    closed spec fn view(&self) -> SetupView {
        SetupView {
            settings: self.settings@,
            account: self.account,
            entered: opt_text(self.entered),
            password: self.password@,
            failure: self.failure@,
            wait: self.wait,
        }
    }
}

/// What is said of a refused IMAP login, in front of what the server said.
pub open spec fn refusal_hint(connecting: bool) -> Seq<char> {
    if connecting {
        "IMAP login failed or timed out after 15s. Check that IMAP is enabled and the password is valid for IMAP/app-password login. Server error: "@
    } else {
        "IMAP login failed or timed out after 15s: "@
    }
}

impl SetupView {
    /// A state that a setup can be in: an account is loaded to be changed and
    /// stored to be connected, and a password that was entered for an account
    /// that is changed is the one to log in with.
    pub open spec fn wf(self) -> bool {
        &&& self.wait == SetupWait::Account ==> self.account is Some
        &&& self.wait == SetupWait::Insert ==> self.account is None
        &&& self.account is Some && (self.wait == SetupWait::Holder || self.wait == SetupWait::Imap
            || self.wait == SetupWait::Smtp) ==> (self.entered matches Some(p) ==> p.len() > 0
            ==> self.password == p)
    }

    /// The end of the setup.
    pub open spec fn finish(self, id: i64) -> (SetupView, SetupActionView) {
        (
            SetupView { wait: SetupWait::Over, ..self },
            SetupActionView::Finished(imap_summary_of(id, self.settings)),
        )
    }

    /// The end of the setup where it failed.
    pub open spec fn stop(self, e: Seq<char>) -> (SetupView, SetupActionView) {
        (SetupView { wait: SetupWait::Over, ..self }, SetupActionView::Stopped(e))
    }

    pub open spec fn find_holder(self) -> (SetupView, SetupActionView) {
        (
            SetupView { wait: SetupWait::Holder, ..self },
            SetupActionView::FindHolder { email: self.settings.email },
        )
    }

    pub open spec fn log_in_imap(self) -> (SetupView, SetupActionView) {
        (
            SetupView { wait: SetupWait::Imap, ..self },
            SetupActionView::LogInImap {
                host: self.settings.imap_host,
                port: self.settings.imap_port,
                username: self.settings.username,
                password: self.password,
            },
        )
    }

    pub open spec fn log_in_smtp(self) -> (SetupView, SetupActionView) {
        (
            SetupView { wait: SetupWait::Smtp, ..self },
            SetupActionView::LogInSmtp {
                host: self.settings.smtp_host,
                port: self.settings.smtp_port,
                username: self.settings.username,
                password: self.password,
            },
        )
    }

    pub open spec fn insert(self) -> (SetupView, SetupActionView) {
        (SetupView { wait: SetupWait::Insert, ..self }, SetupActionView::Insert(self.settings))
    }

    pub open spec fn update_row(self, id: i64) -> (SetupView, SetupActionView) {
        (
            SetupView { wait: SetupWait::Row { id }, ..self },
            SetupActionView::Update { id, settings: self.settings },
        )
    }

    pub open spec fn store_password(self, id: i64, created: bool) -> (SetupView, SetupActionView) {
        (
            SetupView { wait: SetupWait::Secret { id, created }, ..self },
            SetupActionView::StoreSecret { id, field: "password"@, value: self.password },
        )
    }

    /// What the SMTP server is called in an error.
    pub open spec fn smtp_place(self) -> Seq<char> {
        self.settings.smtp_host + ":"@ + decimal(self.settings.smtp_port as nat) + ": "@
    }

    /// The event is one that the setup waits for.
    pub open spec fn expects(self, event: SetupEventView) -> bool {
        match (self.wait, event) {
            (SetupWait::Over, _) => false,
            (SetupWait::TakeBack, SetupEventView::Done) => true,
            (SetupWait::TakeBack, SetupEventView::Failed(_)) => true,
            (SetupWait::TakeBack, _) => false,
            (_, SetupEventView::Failed(_)) => true,
            (SetupWait::Account, SetupEventView::Account(_)) => true,
            (SetupWait::Holder, SetupEventView::Holder(_)) => true,
            (SetupWait::Imap, SetupEventView::Done) => true,
            (SetupWait::Imap, SetupEventView::Refused(_)) => true,
            (SetupWait::Smtp, SetupEventView::Done) => true,
            (SetupWait::Smtp, SetupEventView::Refused(_)) => true,
            (SetupWait::Smtp, SetupEventView::NotAccepted) => true,
            (SetupWait::Insert, SetupEventView::Inserted(_)) => true,
            (SetupWait::Secret { .. }, SetupEventView::Done) => true,
            (SetupWait::Row { .. }, SetupEventView::Done) => true,
            _ => false,
        }
    }

    /// The state behind an event that the setup waits for, and what is to be done
    /// then.
    pub open spec fn after(self, event: SetupEventView) -> (SetupView, SetupActionView) {
        match (self.wait, event) {
            (SetupWait::Account, SetupEventView::Account(account)) => match settings_password(
                account.provider,
                self.entered,
                account.password,
            ) {
                Ok(password) => SetupView { password, ..self }.find_holder(),
                Err(e) => self.stop(e),
            },
            (SetupWait::Holder, SetupEventView::Holder(holder)) => match (self.account, holder) {
                // An address that another account has cannot be taken over.
                (Some(own), Some(id)) => if id == own {
                    self.log_in_imap()
                } else {
                    self.stop(taken_error(self.settings.email))
                },
                (Some(_), None) => self.log_in_imap(),
                // An account with the address is connected again.
                (None, Some(id)) => self.store_password(id, false),
                (None, None) => self.insert(),
            },
            (SetupWait::Imap, SetupEventView::Done) => self.log_in_smtp(),
            (SetupWait::Imap, SetupEventView::Refused(e)) => self.stop(
                refusal_hint(self.account is None) + e,
            ),
            (SetupWait::Smtp, SetupEventView::Done) => match self.account {
                Some(id) => if self.entered matches Some(p) && p.len() > 0 {
                    self.store_password(id, false)
                } else {
                    self.update_row(id)
                },
                None => self.find_holder(),
            },
            (SetupWait::Smtp, SetupEventView::Refused(e)) => self.stop(
                "SMTP login failed for "@ + self.smtp_place() + e,
            ),
            (SetupWait::Smtp, SetupEventView::NotAccepted) => self.stop(
                "SMTP server did not accept the connection"@,
            ),
            (SetupWait::Smtp, SetupEventView::Failed(e)) => self.stop(
                "SMTP setup failed for "@ + self.smtp_place() + e,
            ),
            (SetupWait::Insert, SetupEventView::Inserted(id)) => self.store_password(id, true),
            (SetupWait::Secret { id, created }, SetupEventView::Done) => if created {
                self.finish(id)
            } else {
                self.update_row(id)
            },
            // A new account without its password is of no use.
            (SetupWait::Secret { id, created }, SetupEventView::Failed(e)) => if created {
                (
                    SetupView { failure: e, wait: SetupWait::TakeBack, ..self },
                    SetupActionView::DeleteAccount { id },
                )
            } else {
                self.stop(e)
            },
            (SetupWait::TakeBack, _) => self.stop(self.failure),
            (SetupWait::Row { id }, SetupEventView::Done) => self.finish(id),
            (_, SetupEventView::Failed(e)) => self.stop(e),
            _ => (self, SetupActionView::Stopped(Seq::empty())),
        }
    }
}

/// The view of the start of a setup.
pub open spec fn setup_result(r: Result<(ImapSetup, SetupAction), String>) -> Result<
    (SetupView, SetupActionView),
    Seq<char>,
> {
    match r {
        Ok((setup, action)) => Ok((setup@, action@)),
        Err(e) => Err(e@),
    }
}

/// The start of the connection of an account, or the first thing that is wrong
/// with what was entered.
pub open spec fn fresh_connection(input: ImapConnectInput) -> Result<
    (SetupView, SetupActionView),
    Seq<char>,
> {
    match checked_settings(
        input.email@,
        opt_text(input.display_name),
        input.imap_host@,
        input.imap_port as int,
        input.smtp_host@,
        input.smtp_port as int,
        input.username@,
        Some(input.password@),
    ) {
        Ok(settings) => Ok(
            SetupView {
                settings,
                account: None,
                entered: None,
                password: input.password@,
                failure: Seq::empty(),
                wait: SetupWait::Over,
            }.log_in_imap(),
        ),
        Err(e) => Err(e),
    }
}

/// The start of the change of an account, or the first thing that is wrong with
/// what was entered.
pub open spec fn fresh_change(input: UpdateImapSettingsInput) -> Result<
    (SetupView, SetupActionView),
    Seq<char>,
> {
    match checked_settings(
        input.email@,
        opt_text(input.display_name),
        input.imap_host@,
        input.imap_port as int,
        input.smtp_host@,
        input.smtp_port as int,
        input.username@,
        None,
    ) {
        Ok(settings) => Ok(
            (
                SetupView {
                    settings,
                    account: Some(input.account_id),
                    entered: opt_text(input.password),
                    password: Seq::empty(),
                    failure: Seq::empty(),
                    wait: SetupWait::Account,
                },
                SetupActionView::LoadAccount { id: input.account_id },
            ),
        ),
        Err(e) => Err(e),
    }
}

/// A copy of some settings.
fn copy_settings(s: &ImapSettings) -> (r: ImapSettings)
    ensures
        r@ == s@,
{
    ImapSettings {
        email: copy(&s.email),
        display_name: copy_opt(&s.display_name),
        imap_host: copy(&s.imap_host),
        imap_port: s.imap_port,
        smtp_host: copy(&s.smtp_host),
        smtp_port: s.smtp_port,
        username: copy(&s.username),
    }
}

/// Starts the connection of an IMAP account.
pub fn connect_imap(input: &ImapConnectInput) -> (r: Result<(ImapSetup, SetupAction), String>)
    ensures
        setup_result(r) == fresh_connection(*input),
        r is Ok ==> r->Ok_0.0@.wf(),
{
    match check_imap_connect(input) {
        Ok(settings) => {
            let mut setup = ImapSetup {
                settings,
                account: None,
                entered: None,
                password: copy(&input.password),
                failure: String::new(),
                wait: SetupWait::Over,
            };
            assert(setup@.failure =~= Seq::<char>::empty());
            let action = setup.log_in_imap();
            Ok((setup, action))
        },
        Err(e) => Err(e),
    }
}

/// Starts the change of an IMAP account.
pub fn update_imap_settings(input: &UpdateImapSettingsInput) -> (r: Result<
    (ImapSetup, SetupAction),
    String,
>)
    ensures
        setup_result(r) == fresh_change(*input),
        r is Ok ==> r->Ok_0.0@.wf(),
{
    match check_imap_settings(input) {
        Ok(settings) => {
            let setup = ImapSetup {
                settings,
                account: Some(input.account_id),
                entered: copy_opt(&input.password),
                password: String::new(),
                failure: String::new(),
                wait: SetupWait::Account,
            };
            assert(setup@.failure =~= Seq::<char>::empty());
            assert(setup@.password =~= Seq::<char>::empty());
            Ok((setup, SetupAction::LoadAccount { id: input.account_id }))
        },
        Err(e) => Err(e),
    }
}

impl ImapSetup {
    fn finish(&mut self, id: i64) -> (r: SetupAction)
        ensures
            (final(self)@, r@) == old(self)@.finish(id),
    {
        self.wait = SetupWait::Over;
        SetupAction::Finished(imap_summary(id, copy_settings(&self.settings)))
    }

    fn stop(&mut self, e: String) -> (r: SetupAction)
        ensures
            (final(self)@, r@) == old(self)@.stop(e@),
    {
        self.wait = SetupWait::Over;
        SetupAction::Stopped(e)
    }

    fn find_holder(&mut self) -> (r: SetupAction)
        ensures
            (final(self)@, r@) == old(self)@.find_holder(),
    {
        self.wait = SetupWait::Holder;
        SetupAction::FindHolder { email: copy(&self.settings.email) }
    }

    fn log_in_imap(&mut self) -> (r: SetupAction)
        ensures
            (final(self)@, r@) == old(self)@.log_in_imap(),
    {
        self.wait = SetupWait::Imap;
        SetupAction::LogInImap {
            host: copy(&self.settings.imap_host),
            port: self.settings.imap_port,
            username: copy(&self.settings.username),
            password: copy(&self.password),
        }
    }

    fn log_in_smtp(&mut self) -> (r: SetupAction)
        ensures
            (final(self)@, r@) == old(self)@.log_in_smtp(),
    {
        self.wait = SetupWait::Smtp;
        SetupAction::LogInSmtp {
            host: copy(&self.settings.smtp_host),
            port: self.settings.smtp_port,
            username: copy(&self.settings.username),
            password: copy(&self.password),
        }
    }

    fn insert(&mut self) -> (r: SetupAction)
        ensures
            (final(self)@, r@) == old(self)@.insert(),
    {
        self.wait = SetupWait::Insert;
        SetupAction::Insert(copy_settings(&self.settings))
    }

    fn update_row(&mut self, id: i64) -> (r: SetupAction)
        ensures
            (final(self)@, r@) == old(self)@.update_row(id),
    {
        self.wait = SetupWait::Row { id };
        SetupAction::Update { id, settings: copy_settings(&self.settings) }
    }

    fn store_password(&mut self, id: i64, created: bool) -> (r: SetupAction)
        ensures
            (final(self)@, r@) == old(self)@.store_password(id, created),
    {
        self.wait = SetupWait::Secret { id, created };
        SetupAction::StoreSecret { id, field: "password", value: copy(&self.password) }
    }

    /// Computes [`SetupView::smtp_place`].
    fn smtp_place(&self) -> (r: String)
        ensures
            r@ == self@.smtp_place(),
    {
        let port = decimal_text(self.settings.smtp_port as u64);
        let mut r = cat3(self.settings.smtp_host.as_str(), ":", port.as_str());
        r.append(": ");
        r
    }

    /// Goes on with an account that was loaded.
    fn with_account(&mut self, account: StoredAccount) -> (r: SetupAction)
        requires
            old(self)@.wait == SetupWait::Account,
        ensures
            (final(self)@, r@) == old(self)@.after(SetupEventView::Account(account@)),
    {
        match password_for_settings(&account, &self.entered) {
            Ok(password) => {
                self.password = password;
                self.find_holder()
            },
            Err(e) => self.stop(e),
        }
    }

    /// Goes on with the account that has the address.
    fn with_holder(&mut self, holder: Option<i64>) -> (r: SetupAction)
        requires
            old(self)@.wait == SetupWait::Holder,
        ensures
            (final(self)@, r@) == old(self)@.after(SetupEventView::Holder(holder)),
    {
        match self.account {
            Some(own) => match check_address_free(self.settings.email.as_str(), own, holder) {
                Ok(()) => self.log_in_imap(),
                Err(e) => self.stop(e),
            },
            None => match holder {
                Some(id) => self.store_password(id, false),
                None => self.insert(),
            },
        }
    }

    /// Tells the setup what happened. It says what is to be done next; an event
    /// that it does not wait for it ignores.
    pub fn step(&mut self, event: SetupEvent) -> (r: Option<SetupAction>)
        requires
            old(self)@.wf(),
        ensures
            final(self)@.wf(),
            match r {
                Some(action) => old(self)@.expects(event@) && (final(self)@, action@) == old(
                    self,
                )@.after(event@),
                None => !old(self)@.expects(event@) && final(self)@ == old(self)@,
            },
    {
        let action = match (self.wait, event) {
            (SetupWait::Over, _) => {
                return None;
            },
            (SetupWait::Account, SetupEvent::Account(account)) => self.with_account(account),
            (SetupWait::Holder, SetupEvent::Holder(holder)) => self.with_holder(holder),
            (SetupWait::Imap, SetupEvent::Done) => self.log_in_smtp(),
            (SetupWait::Imap, SetupEvent::Refused(e)) => {
                let hint = if self.account.is_none() {
                    "IMAP login failed or timed out after 15s. Check that IMAP is enabled and the password is valid for IMAP/app-password login. Server error: "
                } else {
                    "IMAP login failed or timed out after 15s: "
                };
                self.stop(cat(hint, e.as_str()))
            },
            (SetupWait::Smtp, SetupEvent::Done) => match self.account {
                Some(id) => if password_was_entered(&self.entered) {
                    self.store_password(id, false)
                } else {
                    self.update_row(id)
                },
                None => self.find_holder(),
            },
            (SetupWait::Smtp, SetupEvent::Refused(e)) => {
                let place = self.smtp_place();
                self.stop(cat3("SMTP login failed for ", place.as_str(), e.as_str()))
            },
            (SetupWait::Smtp, SetupEvent::NotAccepted) => self.stop(
                "SMTP server did not accept the connection".to_owned(),
            ),
            (SetupWait::Smtp, SetupEvent::Failed(e)) => {
                let place = self.smtp_place();
                self.stop(cat3("SMTP setup failed for ", place.as_str(), e.as_str()))
            },
            (SetupWait::Insert, SetupEvent::Inserted(id)) => self.store_password(id, true),
            (SetupWait::Secret { id, created }, SetupEvent::Done) => if created {
                self.finish(id)
            } else {
                self.update_row(id)
            },
            (SetupWait::Secret { id, created }, SetupEvent::Failed(e)) => if created {
                self.failure = e;
                self.wait = SetupWait::TakeBack;
                SetupAction::DeleteAccount { id }
            } else {
                self.stop(e)
            },
            (SetupWait::TakeBack, SetupEvent::Done) => {
                let e = copy(&self.failure);
                self.stop(e)
            },
            (SetupWait::TakeBack, SetupEvent::Failed(_)) => {
                let e = copy(&self.failure);
                self.stop(e)
            },
            (SetupWait::Row { id }, SetupEvent::Done) => self.finish(id),
            (_, SetupEvent::Failed(e)) => self.stop(e),
            _ => {
                return None;
            },
        };
        Some(action)
    }
}

// ---------------------------------------------------------------------------
// Laws
// ---------------------------------------------------------------------------
/// How far a setup is from its end.
pub open spec fn setup_steps_left(s: SetupView) -> int {
    match s.wait {
        SetupWait::Account => 9,
        SetupWait::Holder => if s.account is Some {
            8
        } else {
            5
        },
        SetupWait::Imap => 7,
        SetupWait::Smtp => 6,
        SetupWait::Insert => 4,
        SetupWait::Secret { .. } => 3,
        SetupWait::Row { .. } => 2,
        SetupWait::TakeBack => 1,
        SetupWait::Over => 0,
    }
}

/// Law: whatever happens, a setup comes to an end.
pub proof fn setup_comes_to_an_end(s: SetupView, event: SetupEventView)
    requires
        s.wf(),
        s.expects(event),
    ensures
        s.after(event).0.wf(),
        0 <= setup_steps_left(s.after(event).0) < setup_steps_left(s),
        s.after(event).0.wait == SetupWait::Over <==> (s.after(event).1 is Finished || s.after(
            event,
        ).1 is Stopped),
{
}

/// A setup is past its logins: it waits for something that only comes behind
/// them.
pub open spec fn past_logins(s: SetupView) -> bool {
    match s.wait {
        SetupWait::Holder => s.account is None,
        SetupWait::Insert => true,
        SetupWait::Secret { .. } => true,
        SetupWait::Row { .. } => true,
        _ => false,
    }
}

/// Law: nothing is stored before both servers let the user in. What is stored is
/// stored behind the logins, and a setup gets there only through a login at the
/// SMTP server, to which it comes only through one at the IMAP server.
pub proof fn nothing_is_stored_before_the_logins(s: SetupView, event: SetupEventView)
    requires
        s.wf(),
        s.expects(event),
    ensures
        ({
            let (next, action) = s.after(event);
            &&& (action is Insert || action is Update || action is StoreSecret) ==> past_logins(next)
            &&& past_logins(next) ==> past_logins(s) || (s.wait == SetupWait::Smtp && event is Done)
            &&& next.wait == SetupWait::Smtp ==> s.wait == SetupWait::Imap && event is Done
            &&& next.account == s.account
        }),
{
}

/// Law: a setup that fails leaves no new account behind, and deletes no account
/// that was there before: an account is deleted exactly where the setup stored it
/// and could not store its password, and the setup then ends with that error.
pub proof fn failed_setup_leaves_no_new_account(s: SetupView, event: SetupEventView)
    requires
        s.wf(),
        s.expects(event),
    ensures
        ({
            let (next, action) = s.after(event);
            &&& (s.wait matches SetupWait::Secret { id, created } && created && event
                matches SetupEventView::Failed(e)) ==> action == (SetupActionView::DeleteAccount {
                id: s.wait->Secret_id,
            }) && next.wait == SetupWait::TakeBack && next.failure == event->Failed_0
            &&& action is DeleteAccount ==> (s.wait matches SetupWait::Secret { created, .. }
                && created && event is Failed)
            &&& (next.wait matches SetupWait::Secret { created, .. } && created) ==> event
                == SetupEventView::Inserted(next.wait->Secret_id)
            &&& s.wait == SetupWait::TakeBack ==> action == SetupActionView::Stopped(s.failure)
        }),
{
}

/// Law: a change of settings stores a password only where one was entered, and
/// then that one.
pub proof fn change_keeps_the_password(s: SetupView, event: SetupEventView)
    requires
        s.wf(),
        s.expects(event),
        s.account is Some,
        s.after(event).1 is StoreSecret,
    ensures
        s.entered matches Some(p) && p.len() > 0 && s.after(event).1 == (
        SetupActionView::StoreSecret { id: s.account->Some_0, field: "password"@, value: p }),
{
}

/// Law: whatever a setup does, it does with the settings that were entered, each
/// server under its own name and port, and with the password to log in with; and it
/// shows in the end what was set.
pub proof fn a_setup_uses_what_was_entered(s: SetupView, event: SetupEventView)
    requires
        s.wf(),
        s.expects(event),
    ensures
        ({
            let (next, action) = s.after(event);
            &&& next.settings == s.settings && next.entered == s.entered
            &&& !(event is Account) ==> next.password == s.password
            &&& action matches SetupActionView::FindHolder { email } ==> email == s.settings.email
            &&& action matches SetupActionView::LogInImap { host, port, username, password } ==> host
                == s.settings.imap_host && port == s.settings.imap_port && username
                == s.settings.username && password == next.password
            &&& action matches SetupActionView::LogInSmtp { host, port, username, password } ==> host
                == s.settings.smtp_host && port == s.settings.smtp_port && username
                == s.settings.username && password == next.password
            &&& action matches SetupActionView::Insert(settings) ==> settings == s.settings
            &&& action matches SetupActionView::Update { settings, .. } ==> settings == s.settings
            &&& action matches SetupActionView::StoreSecret { field, value, .. } ==> field
                == "password"@ && value == next.password
            &&& action matches SetupActionView::Finished(shown) ==> shown.email == s.settings.email
                && shown.imap_host == Some(s.settings.imap_host) && shown.smtp_host == Some(
                s.settings.smtp_host,
            ) && shown.username == Some(s.settings.username)
        }),
{
}

/// Law: an account is connected by logging in at both servers and then storing it:
/// under the id of the account that has the address already, or as a new one. Its
/// password is stored under that id, and that account is shown in the end.
pub proof fn connecting_stores_the_account(s: SetupView, event: SetupEventView)
    requires
        s.wf(),
        s.expects(event),
        s.account is None,
    ensures
        ({
            let (next, action) = s.after(event);
            &&& s.wait == SetupWait::Imap && event is Done ==> action is LogInSmtp
            &&& s.wait == SetupWait::Smtp && event is Done ==> action is FindHolder
            &&& event == SetupEventView::Holder(None) ==> action is Insert
            &&& event matches SetupEventView::Holder(Some(id)) ==> action is StoreSecret
                && action->StoreSecret_id == id
            &&& event matches SetupEventView::Inserted(id) ==> action is StoreSecret
                && action->StoreSecret_id == id
            &&& s.wait is Secret && event is Done && s.wait->created ==> action is Finished
                && action->Finished_0.id == s.wait->Secret_id
            &&& s.wait is Secret && event is Done && !s.wait->created ==> action is Update
                && action->Update_id == s.wait->Secret_id
            &&& s.wait is Row && event is Done ==> action is Finished && action->Finished_0.id
                == s.wait->Row_id
        }),
{
}

/// Law: an account is changed once both servers let the user in, unless another
/// account has the address: then nothing changes. Only the row of that account
/// changes, and that account is shown in the end.
pub proof fn changing_keeps_to_the_account(s: SetupView, event: SetupEventView)
    requires
        s.wf(),
        s.expects(event),
        s.account is Some,
    ensures
        ({
            let (next, action) = s.after(event);
            let own = s.account->Some_0;
            &&& event matches SetupEventView::Holder(Some(id)) ==> (id != own ==> action
                is Stopped) && (id == own ==> action is LogInImap)
            &&& event == SetupEventView::Holder(None) ==> action is LogInImap
            &&& s.wait == SetupWait::Imap && event is Done ==> action is LogInSmtp
            &&& s.wait == SetupWait::Smtp && event is Done ==> {
                &&& action is StoreSecret || action is Update
                &&& action is StoreSecret ==> action->StoreSecret_id == own
                &&& action is Update ==> action->Update_id == own
                &&& action is Update <==> s.entered is None || s.entered->Some_0.len() == 0
            }
            &&& s.wait is Secret && event is Done && !s.wait->created ==> action is Update
                && action->Update_id == s.wait->Secret_id
            &&& s.wait is Row && event is Done ==> action is Finished && action->Finished_0.id
                == s.wait->Row_id
        }),
{
}

/// Law: a setup that fails ends with what the server or the store said, at the end of
/// the error, and a refused login names the service.
pub proof fn errors_say_what_happened(s: SetupView, event: SetupEventView)
    requires
        s.wf(),
        s.expects(event),
        event is Failed || event is Refused,
        !(s.wait is Secret),
        s.wait != SetupWait::TakeBack,
    ensures
        ({
            let action = s.after(event).1;
            let said = if event is Failed {
                event->Failed_0
            } else {
                event->Refused_0
            };
            let e = action->Stopped_0;
            &&& action is Stopped
            &&& e.len() >= said.len()
            &&& e.skip(e.len() - said.len()) == said
            &&& s.wait == SetupWait::Imap && event is Refused ==> starts(
                e,
                "IMAP login failed or timed out after 15s"@,
            )
            &&& s.wait == SetupWait::Smtp && event is Refused ==> starts(
                e,
                "SMTP login failed for "@ + s.settings.smtp_host + ":"@ + decimal(
                    s.settings.smtp_port as nat,
                ),
            )
            &&& s.wait == SetupWait::Smtp && event is Failed ==> starts(
                e,
                "SMTP setup failed for "@ + s.settings.smtp_host + ":"@ + decimal(
                    s.settings.smtp_port as nat,
                ),
            )
        }),
{
    let e = s.after(event).1->Stopped_0;
    let said = if event is Failed {
        event->Failed_0
    } else {
        event->Refused_0
    };
    assert(e.skip(e.len() - said.len()) =~= said);
    if s.wait == SetupWait::Imap && event is Refused {
        reveal_strlit("IMAP login failed or timed out after 15s");
        reveal_strlit("IMAP login failed or timed out after 15s: ");
        reveal_strlit(
            "IMAP login failed or timed out after 15s. Check that IMAP is enabled and the password is valid for IMAP/app-password login. Server error: ",
        );
        assert(e.take("IMAP login failed or timed out after 15s"@.len() as int)
            =~= "IMAP login failed or timed out after 15s"@);
    }
    if s.wait == SetupWait::Smtp && event is Refused {
        let front = "SMTP login failed for "@ + s.settings.smtp_host + ":"@ + decimal(
            s.settings.smtp_port as nat,
        );
        assert(e =~= front + (": "@ + said));
        assert(e.take(front.len() as int) =~= front);
    }
    if s.wait == SetupWait::Smtp && event is Failed {
        let front = "SMTP setup failed for "@ + s.settings.smtp_host + ":"@ + decimal(
            s.settings.smtp_port as nat,
        );
        assert(e =~= front + (": "@ + said));
        assert(e.take(front.len() as int) =~= front);
    }
}

/// Law: a connection starts by logging in with what was entered, trimmed but for the
/// password; a change starts with the account that is to be changed, and keeps the
/// password that was entered.
pub proof fn setups_start_with_what_was_entered(
    input: ImapConnectInput,
    change: UpdateImapSettingsInput,
)
    ensures
        fresh_connection(input) matches Ok(started) ==> started.1 == (SetupActionView::LogInImap {
            host: trim(input.imap_host@),
            port: input.imap_port as int,
            username: trim(input.username@),
            password: input.password@,
        }) && started.0.account is None && started.0.password == input.password@
            && started.0.wait == SetupWait::Imap && started.0.settings.smtp_host == trim(
            input.smtp_host@,
        ) && started.0.settings.smtp_port == input.smtp_port && started.0.settings.email == lower(
            trim(input.email@),
        ),
        fresh_connection(input) is Ok <==> !blank(input.email@) && !blank(input.imap_host@)
            && !blank(input.smtp_host@) && !blank(input.username@) && input.password@.len() > 0
            && 1 <= input.imap_port <= 65535 && 1 <= input.smtp_port <= 65535,
        fresh_change(change) matches Ok(started) ==> started.1 == (SetupActionView::LoadAccount {
            id: change.account_id,
        }) && started.0.account == Some(change.account_id) && started.0.entered == opt_text(
            change.password,
        ) && started.0.wait == SetupWait::Account && started.0.settings.imap_host == trim(
            change.imap_host@,
        ) && started.0.settings.imap_port == change.imap_port && started.0.settings.smtp_host
            == trim(change.smtp_host@) && started.0.settings.smtp_port == change.smtp_port
            && started.0.settings.username == trim(change.username@) && started.0.settings.email
            == lower(trim(change.email@)),
        fresh_change(change) is Ok <==> !blank(change.email@) && !blank(change.imap_host@)
            && !blank(change.smtp_host@) && !blank(change.username@) && 1 <= change.imap_port
            <= 65535 && 1 <= change.smtp_port <= 65535,
{
    settings_are_what_was_entered(
        input.email@,
        opt_text(input.display_name),
        input.imap_host@,
        input.imap_port as int,
        input.smtp_host@,
        input.smtp_port as int,
        input.username@,
        Some(input.password@),
    );
    settings_are_what_was_entered(
        change.email@,
        opt_text(change.display_name),
        change.imap_host@,
        change.imap_port as int,
        change.smtp_host@,
        change.smtp_port as int,
        change.username@,
        None,
    );
}

/// Law: a setup waits for what it asked for, for a failure as for success, and for
/// nothing once it is over.
pub proof fn a_setup_waits_for_what_it_asked_for(s: SetupView, event: SetupEventView)
    requires
        s.wf(),
        s.expects(event),
    ensures
        ({
            let (next, action) = s.after(event);
            let over = action is Finished || action is Stopped;
            &&& !over ==> forall|e: Seq<char>| #[trigger] next.expects(SetupEventView::Failed(e))
            &&& action is LogInImap || action is LogInSmtp || action is Update || action
                is StoreSecret || action is DeleteAccount ==> next.expects(SetupEventView::Done)
            &&& action is LogInImap || action is LogInSmtp ==> forall|e: Seq<char>| #[trigger]
                next.expects(SetupEventView::Refused(e))
            &&& action is FindHolder ==> forall|holder: Option<i64>| #[trigger]
                next.expects(SetupEventView::Holder(holder))
            &&& action is Insert ==> forall|id: i64| #[trigger]
                next.expects(SetupEventView::Inserted(id))
            &&& over ==> forall|e: SetupEventView| !(#[trigger] next.expects(e))
        }),
{
}

} // verus!
