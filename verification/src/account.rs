//! Accounts: what a user enters for them, and the secrets that are kept apart
//! from them.
use vstd::prelude::*;
use vstd::string::*;

use crate::number::{
    decimal_int, decimal_int_text, lemma_decimal, lemma_decimal_int_injective, decimal, is_digit,
};
use crate::text::{
    blank, cat, cat3, copy, lower, opt_text, same, same_opt, starts, to_lower, trim, trimmed,
};

verus! {

// ---------------------------------------------------------------------------
// Types
// ---------------------------------------------------------------------------
/// An account as it is stored, with its secrets where they have been looked up.
pub struct StoredAccount {
    pub id: i64,
    pub provider: String,
    pub email: String,
    pub access_token: Option<String>,
    pub refresh_token: Option<String>,
    pub token_expires_at: Option<i64>,
    pub client_id: Option<String>,
    pub client_secret: Option<String>,
    pub imap_host: Option<String>,
    pub imap_port: Option<i64>,
    pub smtp_host: Option<String>,
    pub smtp_port: Option<i64>,
    pub username: Option<String>,
    pub password: Option<String>,
}

/// The view of a [`StoredAccount`].
pub struct AccountView {
    pub id: i64,
    pub provider: Seq<char>,
    pub email: Seq<char>,
    pub access_token: Option<Seq<char>>,
    pub refresh_token: Option<Seq<char>>,
    pub token_expires_at: Option<i64>,
    pub client_id: Option<Seq<char>>,
    pub client_secret: Option<Seq<char>>,
    pub imap_host: Option<Seq<char>>,
    pub imap_port: Option<i64>,
    pub smtp_host: Option<Seq<char>>,
    pub smtp_port: Option<i64>,
    pub username: Option<Seq<char>>,
    pub password: Option<Seq<char>>,
}

impl View for StoredAccount {
    type V = AccountView;

    open spec fn view(&self) -> AccountView {
        AccountView {
            id: self.id,
            provider: self.provider@,
            email: self.email@,
            access_token: opt_text(self.access_token),
            refresh_token: opt_text(self.refresh_token),
            token_expires_at: self.token_expires_at,
            client_id: opt_text(self.client_id),
            client_secret: opt_text(self.client_secret),
            imap_host: opt_text(self.imap_host),
            imap_port: self.imap_port,
            smtp_host: opt_text(self.smtp_host),
            smtp_port: self.smtp_port,
            username: opt_text(self.username),
            password: opt_text(self.password),
        }
    }
}

/// What is shown of an account.
pub struct AccountSummary {
    pub id: i64,
    pub provider: String,
    pub email: String,
    pub display_name: Option<String>,
    pub imap_host: Option<String>,
    pub imap_port: Option<i64>,
    pub smtp_host: Option<String>,
    pub smtp_port: Option<i64>,
    pub username: Option<String>,
}

/// The view of an [`AccountSummary`].
pub struct SummaryView {
    pub id: i64,
    pub provider: Seq<char>,
    pub email: Seq<char>,
    pub display_name: Option<Seq<char>>,
    pub imap_host: Option<Seq<char>>,
    pub imap_port: Option<i64>,
    pub smtp_host: Option<Seq<char>>,
    pub smtp_port: Option<i64>,
    pub username: Option<Seq<char>>,
}

impl View for AccountSummary {
    type V = SummaryView;

    open spec fn view(&self) -> SummaryView {
        SummaryView {
            id: self.id,
            provider: self.provider@,
            email: self.email@,
            display_name: opt_text(self.display_name),
            imap_host: opt_text(self.imap_host),
            imap_port: self.imap_port,
            smtp_host: opt_text(self.smtp_host),
            smtp_port: self.smtp_port,
            username: opt_text(self.username),
        }
    }
}

// ---------------------------------------------------------------------------
// Input
// ---------------------------------------------------------------------------
/// The views of the outcome of reading a text.
pub open spec fn text_result(r: Result<String, String>) -> Result<Seq<char>, Seq<char>> {
    match r {
        Ok(s) => Ok(s@),
        Err(e) => Err(e@),
    }
}

/// An input that must not be blank, trimmed.
pub open spec fn required(value: Seq<char>, label: Seq<char>) -> Result<Seq<char>, Seq<char>> {
    if blank(value) {
        Err(label + " is required"@)
    } else {
        Ok(trim(value))
    }
}

/// Computes [`required`].
pub fn required_input(value: &str, label: &str) -> (r: Result<String, String>)
    ensures
        text_result(r) == required(value@, label@),
{
    let t = trimmed(value);
    if t.as_str().is_empty() {
        Err(cat(label, " is required"))
    } else {
        Ok(t)
    }
}

/// An address that must not be blank, trimmed and in lower case.
pub open spec fn required_email(value: Seq<char>, label: Seq<char>) -> Result<Seq<char>, Seq<char>> {
    match required(value, label) {
        Ok(t) => Ok(lower(t)),
        Err(e) => Err(e),
    }
}

/// Computes [`required_email`].
pub fn normalize_email_input(value: &str, label: &str) -> (r: Result<String, String>)
    ensures
        text_result(r) == required_email(value@, label@),
{
    match required_input(value, label) {
        Ok(t) => Ok(to_lower(t.as_str())),
        Err(e) => Err(e),
    }
}

/// The error for a port out of range.
pub open spec fn port_error(label: Seq<char>) -> Seq<char> {
    label + " must be between 1 and 65535"@
}

/// A port number, or an error for one out of range.
pub fn validate_port(value: i64, label: &str) -> (r: Result<u16, String>)
    ensures
        match r {
            Ok(port) => 1 <= value <= 65535 && port == value,
            Err(e) => !(1 <= value <= 65535) && e@ == port_error(label@),
        },
{
    if 1 <= value && value <= 65535 {
        Ok(value as u16)
    } else {
        Err(cat(label, " must be between 1 and 65535"))
    }
}

/// A name that is shown, trimmed; nothing where it is blank.
pub open spec fn shown_name(name: Option<Seq<char>>) -> Option<Seq<char>> {
    match name {
        Some(n) => if blank(n) {
            None
        } else {
            Some(trim(n))
        },
        None => None,
    }
}

/// Computes [`shown_name`].
pub fn normalize_display_name(name: &Option<String>) -> (r: Option<String>)
    ensures
        opt_text(r) == shown_name(opt_text(*name)),
{
    match name {
        Some(n) => {
            let t = trimmed(n.as_str());
            if t.as_str().is_empty() {
                None
            } else {
                Some(t)
            }
        },
        None => None,
    }
}

/// What a user enters to connect an IMAP account.
pub struct ImapConnectInput {
    pub email: String,
    pub display_name: Option<String>,
    pub imap_host: String,
    pub imap_port: i64,
    pub smtp_host: String,
    pub smtp_port: i64,
    pub username: String,
    pub password: String,
}

/// What a user enters to change an IMAP account.
pub struct UpdateImapSettingsInput {
    pub account_id: i64,
    pub email: String,
    pub display_name: Option<String>,
    pub imap_host: String,
    pub imap_port: i64,
    pub smtp_host: String,
    pub smtp_port: i64,
    pub username: String,
    pub password: Option<String>,
}

/// Settings of an IMAP account that passed every test on their own.
pub struct ImapSettings {
    pub email: String,
    pub display_name: Option<String>,
    pub imap_host: String,
    pub imap_port: u16,
    pub smtp_host: String,
    pub smtp_port: u16,
    pub username: String,
}

/// The view of [`ImapSettings`].
pub struct SettingsView {
    pub email: Seq<char>,
    pub display_name: Option<Seq<char>>,
    pub imap_host: Seq<char>,
    pub imap_port: int,
    pub smtp_host: Seq<char>,
    pub smtp_port: int,
    pub username: Seq<char>,
}

impl View for ImapSettings {
    type V = SettingsView;

    open spec fn view(&self) -> SettingsView {
        SettingsView {
            email: self.email@,
            display_name: opt_text(self.display_name),
            imap_host: self.imap_host@,
            imap_port: self.imap_port as int,
            smtp_host: self.smtp_host@,
            smtp_port: self.smtp_port as int,
            username: self.username@,
        }
    }
}

/// The settings that a user entered, or the first thing that is wrong with them.
/// The password counts where one is given: it must not be empty.
pub open spec fn checked_settings(
    email: Seq<char>,
    display_name: Option<Seq<char>>,
    imap_host: Seq<char>,
    imap_port: int,
    smtp_host: Seq<char>,
    smtp_port: int,
    username: Seq<char>,
    password: Option<Seq<char>>,
) -> Result<SettingsView, Seq<char>> {
    match (
        required_email(email, "Email"@),
        required(imap_host, "IMAP host"@),
        required(smtp_host, "SMTP host"@),
        required(username, "Username"@),
    ) {
        (Err(e), _, _, _) => Err(e),
        (_, Err(e), _, _) => Err(e),
        (_, _, Err(e), _) => Err(e),
        (_, _, _, Err(e)) => Err(e),
        (Ok(email), Ok(imap_host), Ok(smtp_host), Ok(username)) => if password == Some(
            Seq::<char>::empty(),
        ) {
            Err("Password is required"@)
        } else if !(1 <= imap_port <= 65535) {
            Err(port_error("IMAP port"@))
        } else if !(1 <= smtp_port <= 65535) {
            Err(port_error("SMTP port"@))
        } else {
            Ok(
                SettingsView {
                    email,
                    display_name: shown_name(display_name),
                    imap_host,
                    imap_port,
                    smtp_host,
                    smtp_port,
                    username,
                },
            )
        },
    }
}

/// The views of checked settings.
pub open spec fn settings_result(r: Result<ImapSettings, String>) -> Result<SettingsView, Seq<char>> {
    match r {
        Ok(s) => Ok(s@),
        Err(e) => Err(e@),
    }
}

/// Computes [`checked_settings`].
fn check_settings(
    email: &str,
    display_name: &Option<String>,
    imap_host: &str,
    imap_port: i64,
    smtp_host: &str,
    smtp_port: i64,
    username: &str,
    password: Option<&str>,
) -> (r: Result<ImapSettings, String>)
    ensures
        settings_result(r) == checked_settings(
            email@,
            opt_text(*display_name),
            imap_host@,
            imap_port as int,
            smtp_host@,
            smtp_port as int,
            username@,
            crate::text::opt_str(password),
        ),
{
    let email = normalize_email_input(email, "Email")?;
    let imap_host = required_input(imap_host, "IMAP host")?;
    let smtp_host = required_input(smtp_host, "SMTP host")?;
    let username = required_input(username, "Username")?;
    if let Some(password) = password {
        if password.is_empty() {
            assert(password@ =~= Seq::<char>::empty());
            return Err("Password is required".to_owned());
        }
    }
    let imap_port = validate_port(imap_port, "IMAP port")?;
    let smtp_port = validate_port(smtp_port, "SMTP port")?;
    let display_name = normalize_display_name(display_name);
    Ok(ImapSettings { email, display_name, imap_host, imap_port, smtp_host, smtp_port, username })
}

/// Tests what a user entered to connect an IMAP account.
pub fn check_imap_connect(input: &ImapConnectInput) -> (r: Result<ImapSettings, String>)
    ensures
        settings_result(r) == checked_settings(
            input.email@,
            opt_text(input.display_name),
            input.imap_host@,
            input.imap_port as int,
            input.smtp_host@,
            input.smtp_port as int,
            input.username@,
            Some(input.password@),
        ),
{
    check_settings(
        input.email.as_str(),
        &input.display_name,
        input.imap_host.as_str(),
        input.imap_port,
        input.smtp_host.as_str(),
        input.smtp_port,
        input.username.as_str(),
        Some(input.password.as_str()),
    )
}

/// Tests what a user entered to change an IMAP account.
pub fn check_imap_settings(input: &UpdateImapSettingsInput) -> (r: Result<ImapSettings, String>)
    ensures
        settings_result(r) == checked_settings(
            input.email@,
            opt_text(input.display_name),
            input.imap_host@,
            input.imap_port as int,
            input.smtp_host@,
            input.smtp_port as int,
            input.username@,
            None,
        ),
{
    check_settings(
        input.email.as_str(),
        &input.display_name,
        input.imap_host.as_str(),
        input.imap_port,
        input.smtp_host.as_str(),
        input.smtp_port,
        input.username.as_str(),
        None,
    )
}

/// What is shown of an IMAP account with given settings.
pub open spec fn imap_summary_of(id: i64, settings: SettingsView) -> SummaryView {
    SummaryView {
        id,
        provider: "imap"@,
        email: settings.email,
        display_name: settings.display_name,
        imap_host: Some(settings.imap_host),
        imap_port: Some(settings.imap_port as i64),
        smtp_host: Some(settings.smtp_host),
        smtp_port: Some(settings.smtp_port as i64),
        username: Some(settings.username),
    }
}

/// Computes [`imap_summary_of`].
pub fn imap_summary(id: i64, settings: ImapSettings) -> (r: AccountSummary)
    ensures
        r@ == imap_summary_of(id, settings@),
{
    AccountSummary {
        id,
        provider: "imap".to_owned(),
        email: settings.email,
        display_name: settings.display_name,
        imap_host: Some(settings.imap_host),
        imap_port: Some(settings.imap_port as i64),
        smtp_host: Some(settings.smtp_host),
        smtp_port: Some(settings.smtp_port as i64),
        username: Some(settings.username),
    }
}

/// What is shown of a Gmail account.
pub open spec fn gmail_summary_of(id: i64, email: Seq<char>) -> SummaryView {
    SummaryView {
        id,
        provider: "gmail"@,
        email,
        display_name: None,
        imap_host: None,
        imap_port: None,
        smtp_host: None,
        smtp_port: None,
        username: None,
    }
}

/// Computes [`gmail_summary_of`].
pub fn gmail_summary(id: i64, email: &str) -> (r: AccountSummary)
    ensures
        r@ == gmail_summary_of(id, email@),
{
    AccountSummary {
        id,
        provider: "gmail".to_owned(),
        email: email.to_owned(),
        display_name: None,
        imap_host: None,
        imap_port: None,
        smtp_host: None,
        smtp_port: None,
        username: None,
    }
}

/// The password that goes with changed settings: the one that was entered, or
/// else the one that is stored.
pub open spec fn settings_password(
    provider: Seq<char>,
    entered: Option<Seq<char>>,
    stored: Option<Seq<char>>,
) -> Result<Seq<char>, Seq<char>> {
    let kept = match stored {
        Some(p) => p,
        None => Seq::empty(),
    };
    let password = match entered {
        Some(p) => if p.len() > 0 {
            p
        } else {
            kept
        },
        None => kept,
    };
    if provider != "imap"@ {
        Err("Only IMAP/SMTP accounts can be edited here"@)
    } else if password.len() == 0 {
        Err("Password is required because no existing password is stored"@)
    } else {
        Ok(password)
    }
}

/// Computes [`settings_password`] for an account.
pub fn password_for_settings(account: &StoredAccount, entered: &Option<String>) -> (r: Result<
    String,
    String,
>)
    ensures
        text_result(r) == settings_password(
            account.provider@,
            opt_text(*entered),
            opt_text(account.password),
        ),
{
    if !same(account.provider.as_str(), "imap") {
        return Err("Only IMAP/SMTP accounts can be edited here".to_owned());
    }
    if let Some(password) = entered {
        if !password.as_str().is_empty() {
            return Ok(copy(password));
        }
    }
    match &account.password {
        Some(password) => if password.as_str().is_empty() {
            Err("Password is required because no existing password is stored".to_owned())
        } else {
            Ok(copy(password))
        },
        None => Err("Password is required because no existing password is stored".to_owned()),
    }
}

/// Whether a password was entered that is to be stored.
pub fn password_was_entered(entered: &Option<String>) -> (r: bool)
    ensures
        r == (opt_text(*entered) matches Some(p) && p.len() > 0),
{
    match entered {
        Some(password) => !password.as_str().is_empty(),
        None => false,
    }
}

/// The error for an address that another account has.
pub open spec fn taken_error(email: Seq<char>) -> Seq<char> {
    "An IMAP account for "@ + email + " already exists"@
}

/// An address is free for an account unless another account has it already.
pub fn check_address_free(email: &str, account_id: i64, holder: Option<i64>) -> (r: Result<
    (),
    String,
>)
    ensures
        match r {
            Ok(()) => holder is None || holder == Some(account_id),
            Err(e) => holder is Some && holder != Some(account_id) && e@ == taken_error(email@),
        },
{
    if let Some(id) = holder {
        if id != account_id {
            return Err(cat3("An IMAP account for ", email, " already exists"));
        }
    }
    Ok(())
}

/// How an account is reached over IMAP.
pub struct Login {
    pub host: String,
    pub port: u16,
    pub username: String,
    pub password: String,
}

/// The login to the IMAP server of an account, or the first thing that is
/// missing or wrong.
pub open spec fn imap_login_of(account: AccountView) -> Result<
    (Seq<char>, int, Seq<char>, Seq<char>),
    Seq<char>,
> {
    let port = port_or(account.imap_port, 993);
    match account.imap_host {
        None => Err("Missing IMAP host"@),
        Some(host) => if !(1 <= port <= 65535) {
            Err(port_error("IMAP port"@))
        } else {
            match (account.username, account.password) {
                (None, _) => Err("Missing IMAP username"@),
                (_, None) => Err("Missing IMAP password"@),
                (Some(username), Some(password)) => Ok((host, port, username, password)),
            }
        },
    }
}

/// Tells whether an account is one of Gmail. Any other is reached over IMAP and
/// SMTP.
pub fn uses_gmail(account: &StoredAccount) -> (r: bool)
    ensures
        r == (account@.provider == "gmail"@),
{
    same(account.provider.as_str(), "gmail")
}

/// The views of a login.
pub open spec fn login_result(r: Result<Login, String>) -> Result<
    (Seq<char>, int, Seq<char>, Seq<char>),
    Seq<char>,
> {
    match r {
        Ok(l) => Ok((l.host@, l.port as int, l.username@, l.password@)),
        Err(e) => Err(e@),
    }
}

/// A port, or the usual one.
pub open spec fn port_or(port: Option<i64>, usual: int) -> int {
    match port {
        Some(p) => p as int,
        None => usual,
    }
}

/// How to reach the IMAP server of an account.
pub fn imap_login(account: &StoredAccount) -> (r: Result<Login, String>)
    ensures
        login_result(r) == imap_login_of(account@),
{
    let host = match &account.imap_host {
        Some(host) => host,
        None => {
            return Err("Missing IMAP host".to_owned());
        },
    };
    let port: i64 = match account.imap_port {
        Some(port) => port,
        None => 993,
    };
    let port = validate_port(port, "IMAP port")?;
    let username = match &account.username {
        Some(username) => username,
        None => {
            return Err("Missing IMAP username".to_owned());
        },
    };
    let password = match &account.password {
        Some(password) => password,
        None => {
            return Err("Missing IMAP password".to_owned());
        },
    };
    Ok(Login { host: copy(host), port, username: copy(username), password: copy(password) })
}

/// Who logs in to the SMTP server of an account, and where, or the first thing
/// that is missing.
pub fn smtp_credentials(account: &StoredAccount) -> (r: Result<(String, String, String), String>)
    ensures
        match r {
            Ok(c) => opt_text(account.smtp_host) == Some(c.0@) && opt_text(account.username) == Some(
                c.1@,
            ) && opt_text(account.password) == Some(c.2@),
            Err(e) => if account.smtp_host is None {
                e@ == "Missing SMTP host"@
            } else if account.username is None {
                e@ == "Missing SMTP username"@
            } else {
                account.password is None && e@ == "Missing SMTP password"@
            },
        },
{
    let host = match &account.smtp_host {
        Some(host) => host,
        None => {
            return Err("Missing SMTP host".to_owned());
        },
    };
    let username = match &account.username {
        Some(username) => username,
        None => {
            return Err("Missing SMTP username".to_owned());
        },
    };
    let password = match &account.password {
        Some(password) => password,
        None => {
            return Err("Missing SMTP password".to_owned());
        },
    };
    Ok((copy(host), copy(username), copy(password)))
}

/// The port of the SMTP server of an account, 587 where it names none.
pub fn smtp_port(account: &StoredAccount) -> (r: Result<u16, String>)
    ensures
        match r {
            Ok(port) => port == port_or(account.smtp_port, 587) && port >= 1,
            Err(e) => !(1 <= port_or(account.smtp_port, 587) <= 65535) && e@ == port_error(
                "SMTP port"@,
            ),
        },
{
    let port: i64 = match account.smtp_port {
        Some(port) => port,
        None => 587,
    };
    validate_port(port, "SMTP port")
}

/// Two states of an account are the same as far as watching its inbox goes.
pub open spec fn same_watch(a: AccountView, b: AccountView) -> bool {
    &&& a.provider == b.provider
    &&& a.email == b.email
    &&& a.imap_host == b.imap_host
    &&& a.imap_port == b.imap_port
    &&& a.username == b.username
    &&& a.password == b.password
}

/// Tells whether a watched account is still what it was; one that is gone is not.
pub fn idle_account_current(current: &Option<StoredAccount>, account: &StoredAccount) -> (r: bool)
    ensures
        r == match *current {
            Some(c) => same_watch(c@, account@),
            None => false,
        },
{
    match current {
        Some(c) => {
            same(c.provider.as_str(), account.provider.as_str()) && same(
                c.email.as_str(),
                account.email.as_str(),
            ) && same_opt(&c.imap_host, &account.imap_host) && c.imap_port == account.imap_port
                && same_opt(&c.username, &account.username) && same_opt(
                &c.password,
                &account.password,
            )
        },
        None => false,
    }
}

// ---------------------------------------------------------------------------
// Secrets
// ---------------------------------------------------------------------------
/// The secrets of an account, as far as there are any.
pub struct AccountSecrets {
    pub access_token: Option<String>,
    pub refresh_token: Option<String>,
    pub client_id: Option<String>,
    pub client_secret: Option<String>,
    pub password: Option<String>,
}

/// The kinds of secrets that an account can have, in the order in which they are
/// deleted.
pub open spec fn secret_fields() -> Seq<Seq<char>> {
    seq!["access_token"@, "refresh_token"@, "client_secret"@, "password"@, "client_id"@]
}

/// The name under which a secret of an account is kept.
pub open spec fn secret_name(account_id: int, field: Seq<char>) -> Seq<char> {
    "account:"@ + decimal_int(account_id) + ":"@ + field
}

/// Computes [`secret_name`].
pub fn account_secret_name(account_id: i64, field: &str) -> (r: String)
    ensures
        r@ == secret_name(account_id as int, field@),
{
    let id = decimal_int_text(account_id);
    let head = cat3("account:", id.as_str(), ":");
    cat(head.as_str(), field)
}

/// The texts of pairs of a name and a value.
pub open spec fn named_texts(list: Seq<(&'static str, String)>) -> Seq<(Seq<char>, Seq<char>)> {
    Seq::new(list.len(), |i: int| (list[i].0@, list[i].1@))
}

/// The secrets that go with an account: for each kind, in order, the name under
/// which it is kept.
pub open spec fn secrets_of(account_id: int) -> Seq<(Seq<char>, Seq<char>)> {
    Seq::new(5, |i: int| (secret_fields()[i], secret_name(account_id, secret_fields()[i])))
}

/// Computes [`secrets_of`]: what is to be deleted from the credential store, one
/// after the other.
pub fn delete_account_secrets(account_id: i64) -> (r: Vec<(&'static str, String)>)
    ensures
        named_texts(r@) == secrets_of(account_id as int),
{
    let fields: [&'static str; 5] = [
        "access_token",
        "refresh_token",
        "client_secret",
        "password",
        "client_id",
    ];
    let mut r: Vec<(&'static str, String)> = Vec::new();
    let ghost want = secrets_of(account_id as int);
    let mut i: usize = 0;
    while i < 5
        invariant
            i <= 5,
            fields@.len() == 5,
            forall|k: int| 0 <= k < 5 ==> (#[trigger] fields@[k])@ == secret_fields()[k],
            want == secrets_of(account_id as int),
            named_texts(r@) == want.take(i as int),
        decreases 5 - i,
    {
        let field: &'static str = fields[i];
        let ghost before = named_texts(r@);
        r.push((field, account_secret_name(account_id, field)));
        assert(fields@[i as int]@ == secret_fields()[i as int]);
        assert(named_texts(r@) =~= before.push(want[i as int]));
        i = i + 1;
    }
    assert(want.take(5) =~= want);
    r
}

/// Why the credential store gave no secret.
pub enum SecretError {
    Missing,
    Failed(String),
}

/// The error for a store that cannot be opened.
pub fn account_secret_entry_error(field: &str, error: &str) -> (r: String)
    ensures
        r@ == "Could not open secure credential store for "@ + field@ + ": "@ + error@,
{
    let head = cat3("Could not open secure credential store for ", field, ": ");
    cat(head.as_str(), error)
}

/// What storing a secret comes to.
pub fn store_account_secret(field: &str, outcome: Result<(), String>) -> (r: Result<(), String>)
    ensures
        match (outcome, r) {
            (Ok(()), Ok(())) => true,
            (Err(cause), Err(e)) => e@ == "Could not store "@ + field@
                + " in the OS credential store: "@ + cause@,
            _ => false,
        },
{
    match outcome {
        Ok(()) => Ok(()),
        Err(cause) => {
            let head = cat3("Could not store ", field, " in the OS credential store: ");
            Err(cat(head.as_str(), cause.as_str()))
        },
    }
}

/// What reading a secret comes to: one that is missing is no error.
pub fn load_account_secret(field: &str, outcome: Result<String, SecretError>) -> (r: Result<
    Option<String>,
    String,
>)
    ensures
        match (outcome, r) {
            (Ok(value), Ok(Some(v))) => v == value,
            (Err(SecretError::Missing), Ok(None)) => true,
            (Err(SecretError::Failed(cause)), Err(e)) => e@ == "Could not read "@ + field@
                + " from the OS credential store: "@ + cause@,
            _ => false,
        },
{
    match outcome {
        Ok(value) => Ok(Some(value)),
        Err(SecretError::Missing) => Ok(None),
        Err(SecretError::Failed(cause)) => {
            let head = cat3("Could not read ", field, " from the OS credential store: ");
            Err(cat(head.as_str(), cause.as_str()))
        },
    }
}

/// What deleting a secret comes to: one that is missing already is no error.
pub fn delete_account_secret(field: &str, outcome: Result<(), SecretError>) -> (r: Result<(), String>)
    ensures
        match (outcome, r) {
            (Ok(()), Ok(())) => true,
            (Err(SecretError::Missing), Ok(())) => true,
            (Err(SecretError::Failed(cause)), Err(e)) => e@ == "Could not delete "@ + field@
                + " from the OS credential store: "@ + cause@,
            _ => false,
        },
{
    match outcome {
        Ok(()) => Ok(()),
        Err(SecretError::Missing) => Ok(()),
        Err(SecretError::Failed(cause)) => {
            let head = cat3("Could not delete ", field, " from the OS credential store: ");
            Err(cat(head.as_str(), cause.as_str()))
        },
    }
}

/// An account with its secrets.
pub open spec fn with_secrets(account: AccountView, secrets: AccountSecrets) -> AccountView {
    AccountView {
        access_token: opt_text(secrets.access_token),
        refresh_token: opt_text(secrets.refresh_token),
        client_id: opt_text(secrets.client_id),
        client_secret: opt_text(secrets.client_secret),
        password: opt_text(secrets.password),
        ..account
    }
}

/// Puts the secrets of an account, as they were looked up, into the account.
pub fn resolve_account_secrets(account: StoredAccount, secrets: AccountSecrets) -> (r: StoredAccount)
    ensures
        r@ == with_secrets(account@, secrets),
{
    StoredAccount {
        id: account.id,
        provider: account.provider,
        email: account.email,
        access_token: secrets.access_token,
        refresh_token: secrets.refresh_token,
        token_expires_at: account.token_expires_at,
        client_id: secrets.client_id,
        client_secret: secrets.client_secret,
        imap_host: account.imap_host,
        imap_port: account.imap_port,
        smtp_host: account.smtp_host,
        smtp_port: account.smtp_port,
        username: account.username,
        password: secrets.password,
    }
}

/// [`resolve_account_secrets`] for each of some accounts.
pub fn resolve_accounts(accounts: Vec<(StoredAccount, AccountSecrets)>) -> (r: Vec<StoredAccount>)
    ensures
        r@.len() == accounts@.len(),
        forall|i: int|
            0 <= i < r@.len() ==> (#[trigger] r@[i])@ == with_secrets(
                accounts@[i].0@,
                accounts@[i].1,
            ),
{
    let ghost given = accounts@;
    let mut left = accounts;
    let mut reversed: Vec<StoredAccount> = Vec::new();
    while left.len() > 0
        invariant
            left@.len() + reversed@.len() == given.len(),
            left@ == given.take(left@.len() as int),
            forall|i: int|
                0 <= i < reversed@.len() ==> (#[trigger] reversed@[i])@ == with_secrets(
                    given[given.len() - 1 - i].0@,
                    given[given.len() - 1 - i].1,
                ),
        decreases left.len(),
    {
        if let Some((account, secrets)) = left.pop() {
            reversed.push(resolve_account_secrets(account, secrets));
        }
    }
    let mut r: Vec<StoredAccount> = Vec::new();
    let ghost done = reversed@;
    while reversed.len() > 0
        invariant
            done.len() == given.len(),
            reversed@.len() + r@.len() == done.len(),
            reversed@ == done.take(reversed@.len() as int),
            forall|i: int|
                0 <= i < done.len() ==> (#[trigger] done[i])@ == with_secrets(
                    given[given.len() - 1 - i].0@,
                    given[given.len() - 1 - i].1,
                ),
            forall|i: int| 0 <= i < r@.len() ==> #[trigger] r@[i] == done[done.len() - 1 - i],
        decreases reversed.len(),
    {
        if let Some(account) = reversed.pop() {
            r.push(account);
        }
    }
    assert forall|i: int| 0 <= i < r@.len() implies (#[trigger] r@[i])@ == with_secrets(
        given[i].0@,
        given[i].1,
    ) by {
        assert(done[done.len() - 1 - i]@ == with_secrets(given[i].0@, given[i].1));
    }
    r
}

/// A secret, where there is one that is not empty, under its name.
pub open spec fn kept(field: Seq<char>, value: Option<String>) -> Seq<(Seq<char>, Seq<char>)> {
    match value {
        Some(v) => if v@.len() > 0 {
            seq![(field, v@)]
        } else {
            Seq::empty()
        },
        None => Seq::empty(),
    }
}

/// Appends a secret under its name, where there is one that is not empty.
fn push_kept(list: &mut Vec<(&'static str, String)>, field: &'static str, value: &Option<String>)
    ensures
        named_texts(final(list)@) == named_texts(old(list)@) + kept(field@, *value),
{
    let ghost before = named_texts(list@);
    if let Some(v) = value {
        if !v.as_str().is_empty() {
            list.push((field, copy(v)));
            assert(named_texts(list@) =~= before.push((field@, v@)));
        }
    }
    assert(named_texts(list@) =~= before + kept(field@, *value));
}

/// The secrets that an account row still holds in the open and that have to be
/// moved to the credential store, in order.
pub fn plaintext_secrets(row: &AccountSecrets) -> (r: Vec<(&'static str, String)>)
    ensures
        named_texts(r@) == kept("access_token"@, row.access_token) + kept(
            "refresh_token"@,
            row.refresh_token,
        ) + kept("client_secret"@, row.client_secret) + kept("password"@, row.password) + kept(
            "client_id"@,
            row.client_id,
        ),
{
    let mut r: Vec<(&'static str, String)> = Vec::new();
    push_kept(&mut r, "access_token", &row.access_token);
    assert(named_texts(r@) =~= kept("access_token"@, row.access_token));
    push_kept(&mut r, "refresh_token", &row.refresh_token);
    push_kept(&mut r, "client_secret", &row.client_secret);
    push_kept(&mut r, "password", &row.password);
    push_kept(&mut r, "client_id", &row.client_id);
    r
}

// ---------------------------------------------------------------------------
// Laws
// ---------------------------------------------------------------------------
/// Law: two different secrets never share a name.
pub proof fn secret_names_are_distinct(a: int, f: Seq<char>, b: int, g: Seq<char>)
    requires
        secret_name(a, f) == secret_name(b, g),
    ensures
        a == b,
        f == g,
{
    reveal_strlit("account:");
    reveal_strlit(":");
    let x = secret_name(a, f);
    let y = secret_name(b, g);
    let da = decimal_int(a);
    let db = decimal_int(b);
    lemma_id_lacks_colon(a);
    lemma_id_lacks_colon(b);
    assert(x[8 + da.len() as int] == ':');
    assert(y[8 + db.len() as int] == ':');
    assert(da.len() == db.len()) by {
        if da.len() < db.len() {
            assert(y[8 + da.len() as int] == db[da.len() as int]);
        }
        if db.len() < da.len() {
            assert(x[8 + db.len() as int] == da[db.len() as int]);
        }
    }
    let n = da.len() as int;
    assert(da =~= x.subrange(8, 8 + n));
    assert(db =~= y.subrange(8, 8 + n));
    lemma_decimal_int_injective(a, b);
    assert(f =~= x.skip(9 + n));
    assert(g =~= y.skip(9 + n));
}

proof fn lemma_id_lacks_colon(a: int)
    ensures
        forall|i: int| 0 <= i < decimal_int(a).len() ==> #[trigger] decimal_int(a)[i] != ':',
{
    let n = if a < 0 {
        -a
    } else {
        a
    };
    lemma_decimal(n as nat);
    let d = decimal(n as nat);
    assert forall|i: int| 0 <= i < decimal_int(a).len() implies #[trigger] decimal_int(a)[i] != ':' by {
        if a < 0 {
            if i > 0 {
                assert(decimal_int(a)[i] == d[i - 1]);
                assert(is_digit(d[i - 1]));
            }
        } else {
            assert(is_digit(d[i]));
        }
    }
}

/// A credential store, which keeps texts under names, once some secrets were deleted
/// from it one after the other. To delete one that is not there changes nothing.
pub open spec fn store_without(
    store: Map<Seq<char>, Seq<char>>,
    secrets: Seq<(Seq<char>, Seq<char>)>,
) -> Map<Seq<char>, Seq<char>>
    decreases secrets.len(),
{
    if secrets.len() == 0 {
        store
    } else {
        store_without(store, secrets.drop_last()).remove(secrets.last().1)
    }
}

/// A text that a credential store keeps under a name.
pub open spec fn kept_under(store: Map<Seq<char>, Seq<char>>, name: Seq<char>) -> Option<Seq<char>> {
    if store.dom().contains(name) {
        Some(store[name])
    } else {
        None
    }
}

proof fn lemma_store_without(
    store: Map<Seq<char>, Seq<char>>,
    secrets: Seq<(Seq<char>, Seq<char>)>,
    name: Seq<char>,
)
    ensures
        (exists|i: int| 0 <= i < secrets.len() && (#[trigger] secrets[i]).1 == name) ==> kept_under(
            store_without(store, secrets),
            name,
        ) is None,
        (forall|i: int| 0 <= i < secrets.len() ==> (#[trigger] secrets[i]).1 != name)
            ==> kept_under(store_without(store, secrets), name) == kept_under(store, name),
    decreases secrets.len(),
{
    if secrets.len() > 0 {
        let front = secrets.drop_last();
        lemma_store_without(store, front, name);
        if exists|i: int| 0 <= i < secrets.len() && (#[trigger] secrets[i]).1 == name {
            let i = choose|i: int| 0 <= i < secrets.len() && (#[trigger] secrets[i]).1 == name;
            if i < front.len() {
                assert(front[i].1 == name);
            }
        } else {
            assert forall|i: int| 0 <= i < front.len() implies (#[trigger] front[i]).1 != name by {
                assert(secrets[i].1 != name);
            }
            assert(secrets[secrets.len() - 1].1 != name);
        }
    }
}

/// Law: once the secrets of an account are deleted, none of any kind is left of it,
/// whatever was kept, and those of every other account are as they were.
pub proof fn deleted_secrets_are_gone(
    store: Map<Seq<char>, Seq<char>>,
    account_id: int,
    field: Seq<char>,
    other_id: int,
    other_field: Seq<char>,
)
    requires
        other_id != account_id,
    ensures
        ({
            let left = store_without(store, secrets_of(account_id));
            &&& secret_fields().contains(field) ==> kept_under(left, secret_name(account_id, field))
                is None
            &&& kept_under(left, secret_name(other_id, other_field)) == kept_under(
                store,
                secret_name(other_id, other_field),
            )
        }),
{
    let list = secrets_of(account_id);
    let other = secret_name(other_id, other_field);
    lemma_store_without(store, list, secret_name(account_id, field));
    lemma_store_without(store, list, other);
    if secret_fields().contains(field) {
        let k = choose|k: int| 0 <= k < secret_fields().len() && secret_fields()[k] == field;
        assert(list[k].1 == secret_name(account_id, field));
    }
    assert forall|i: int| 0 <= i < list.len() implies (#[trigger] list[i]).1 != other by {
        if list[i].1 == other {
            secret_names_are_distinct(account_id, secret_fields()[i], other_id, other_field);
        }
    }
}

/// Law: deleting the secrets of an account again changes nothing.
pub proof fn deleting_secrets_again_changes_nothing(
    store: Map<Seq<char>, Seq<char>>,
    account_id: int,
)
    ensures
        ({
            let left = store_without(store, secrets_of(account_id));
            store_without(left, secrets_of(account_id)) == left
        }),
{
    let list = secrets_of(account_id);
    let left = store_without(store, list);
    let again = store_without(left, list);
    assert forall|name: Seq<char>| kept_under(again, name) == kept_under(left, name) by {
        lemma_store_without(left, list, name);
        lemma_store_without(store, list, name);
    }
    assert forall|name: Seq<char>| again.dom().contains(name) <==> left.dom().contains(name) by {
        assert(kept_under(again, name) == kept_under(left, name));
    }
    assert forall|name: Seq<char>| again.dom().contains(name) implies again[name] == left[name] by {
        assert(kept_under(again, name) == kept_under(left, name));
    }
    assert(again =~= left);
}

/// Law: deleting the secrets of an account reaches every secret that was ever
/// stored for it: of a connected Gmail account, of an IMAP account, and of a row
/// that held secrets in the open.
pub proof fn every_stored_secret_is_deleted(row: AccountSecrets)
    ensures
        secret_fields().contains("access_token"@),
        secret_fields().contains("refresh_token"@),
        secret_fields().contains("client_id"@),
        secret_fields().contains("client_secret"@),
        secret_fields().contains("password"@),
        ({
            let moved = kept("access_token"@, row.access_token) + kept(
                "refresh_token"@,
                row.refresh_token,
            ) + kept("client_secret"@, row.client_secret) + kept("password"@, row.password) + kept(
                "client_id"@,
                row.client_id,
            );
            forall|i: int| 0 <= i < moved.len() ==> secret_fields().contains(#[trigger] moved[i].0)
        }),
{
    let s = secret_fields();
    assert(s[0] == "access_token"@);
    assert(s[1] == "refresh_token"@);
    assert(s[2] == "client_secret"@);
    assert(s[3] == "password"@);
    assert(s[4] == "client_id"@);
}

/// Law: settings are taken as they were entered, trimmed, the address in lower case:
/// exactly where nothing that is needed is blank, where both ports exist, and where a
/// password that was entered is not empty.
pub proof fn settings_are_what_was_entered(
    email: Seq<char>,
    display_name: Option<Seq<char>>,
    imap_host: Seq<char>,
    imap_port: int,
    smtp_host: Seq<char>,
    smtp_port: int,
    username: Seq<char>,
    password: Option<Seq<char>>,
)
    ensures
        ({
            let r = checked_settings(
                email,
                display_name,
                imap_host,
                imap_port,
                smtp_host,
                smtp_port,
                username,
                password,
            );
            let s = r->Ok_0;
            &&& r is Ok <==> !blank(email) && !blank(imap_host) && !blank(smtp_host) && !blank(
                username,
            ) && 1 <= imap_port <= 65535 && 1 <= smtp_port <= 65535 && (password is None
                || password->Some_0.len() > 0)
            &&& r is Ok ==> s.email == lower(trim(email)) && s.imap_host == trim(imap_host)
                && s.imap_port == imap_port && s.smtp_host == trim(smtp_host) && s.smtp_port
                == smtp_port && s.username == trim(username)
            &&& r is Ok && display_name is Some && !blank(display_name->Some_0) ==> s.display_name
                == Some(trim(display_name->Some_0))
            &&& r is Ok && (display_name is None || blank(display_name->Some_0)) ==> s.display_name
                is None
        }),
{
    if password is Some && password->Some_0.len() == 0 {
        assert(password->Some_0 =~= Seq::<char>::empty());
    }
}

/// Law: what is missing is named to the user, the first thing first.
pub proof fn what_is_missing_is_named(
    email: Seq<char>,
    imap_host: Seq<char>,
    smtp_host: Seq<char>,
    username: Seq<char>,
    imap_port: int,
    smtp_port: int,
    password: Seq<char>,
)
    ensures
        ({
            let r = checked_settings(
                email,
                None,
                imap_host,
                imap_port,
                smtp_host,
                smtp_port,
                username,
                Some(password),
            );
            let e = r->Err_0;
            let texts_ok = !blank(email) && !blank(imap_host) && !blank(smtp_host) && !blank(
                username,
            );
            &&& blank(email) ==> r is Err && e == "Email is required"@
            &&& !blank(email) && blank(imap_host) ==> r is Err && e == "IMAP host is required"@
            &&& !blank(email) && !blank(imap_host) && blank(smtp_host) ==> r is Err && e
                == "SMTP host is required"@
            &&& !blank(email) && !blank(imap_host) && !blank(smtp_host) && blank(username) ==> r
                is Err && e == "Username is required"@
            &&& texts_ok && password.len() == 0 ==> r is Err && e == "Password is required"@
            &&& texts_ok && password.len() > 0 && !(1 <= imap_port <= 65535) ==> r is Err && e
                == "IMAP port must be between 1 and 65535"@
            &&& texts_ok && password.len() > 0 && 1 <= imap_port <= 65535 && !(1 <= smtp_port
                <= 65535) ==> r is Err && e == "SMTP port must be between 1 and 65535"@
        }),
{
    reveal_strlit(" is required");
    reveal_strlit("Email");
    reveal_strlit("Email is required");
    assert("Email"@ + " is required"@ =~= "Email is required"@);
    reveal_strlit("IMAP host");
    reveal_strlit("IMAP host is required");
    assert("IMAP host"@ + " is required"@ =~= "IMAP host is required"@);
    reveal_strlit("SMTP host");
    reveal_strlit("SMTP host is required");
    assert("SMTP host"@ + " is required"@ =~= "SMTP host is required"@);
    reveal_strlit("Username");
    reveal_strlit("Username is required");
    assert("Username"@ + " is required"@ =~= "Username is required"@);
    reveal_strlit(" must be between 1 and 65535");
    reveal_strlit("IMAP port");
    reveal_strlit("IMAP port must be between 1 and 65535");
    assert("IMAP port"@ + " must be between 1 and 65535"@
        =~= "IMAP port must be between 1 and 65535"@);
    reveal_strlit("SMTP port");
    reveal_strlit("SMTP port must be between 1 and 65535");
    assert("SMTP port"@ + " must be between 1 and 65535"@
        =~= "SMTP port must be between 1 and 65535"@);
    if password.len() == 0 {
        assert(password =~= Seq::<char>::empty());
    }
}

/// Law: what is shown of an account is what was set, each thing in its place, and
/// never a secret; a Gmail account has no servers of its own.
pub proof fn summaries_show_the_settings(id: i64, s: SettingsView, email: Seq<char>)
    requires
        1 <= s.imap_port <= 65535,
        1 <= s.smtp_port <= 65535,
    ensures
        ({
            let shown = imap_summary_of(id, s);
            &&& shown.id == id && shown.provider == "imap"@
            &&& shown.email == s.email && shown.display_name == s.display_name
            &&& shown.imap_host == Some(s.imap_host) && shown.imap_port is Some
                && shown.imap_port->Some_0 == s.imap_port
            &&& shown.smtp_host == Some(s.smtp_host) && shown.smtp_port is Some
                && shown.smtp_port->Some_0 == s.smtp_port
            &&& shown.username == Some(s.username)
        }),
        ({
            let shown = gmail_summary_of(id, email);
            &&& shown.id == id && shown.provider == "gmail"@ && shown.email == email
            &&& shown.imap_host is None && shown.smtp_host is None && shown.username is None
        }),
{
}

/// Law: a password that was entered replaces the stored one; where none was entered
/// the stored one stays, and without either it is an error. Other accounts than those
/// over IMAP have no password to change.
pub proof fn an_entered_password_replaces_the_stored_one(
    entered: Option<Seq<char>>,
    stored: Option<Seq<char>>,
    provider: Seq<char>,
)
    ensures
        provider != "imap"@ ==> settings_password(provider, entered, stored) is Err,
        entered is Some && entered->Some_0.len() > 0 ==> settings_password(
            "imap"@,
            entered,
            stored,
        ) == Ok::<Seq<char>, Seq<char>>(entered->Some_0),
        (entered is None || entered->Some_0.len() == 0) && stored is Some && stored->Some_0.len()
            > 0 ==> settings_password("imap"@, entered, stored) == Ok::<Seq<char>, Seq<char>>(
            stored->Some_0,
        ),
        (entered is None || entered->Some_0.len() == 0) && (stored is None || stored->Some_0.len()
            == 0) ==> settings_password("imap"@, entered, stored) is Err,
{
}

/// Law: an account is reached at its own host, under its own name and password, and
/// at its own port, or at port 993 where it names none.
pub proof fn logins_are_those_of_the_account(account: AccountView)
    ensures
        ({
            let r = imap_login_of(account);
            let port = match account.imap_port {
                Some(p) => p as int,
                None => 993,
            };
            &&& r is Ok <==> account.imap_host is Some && account.username is Some
                && account.password is Some && 1 <= port <= 65535
            &&& r is Ok ==> r->Ok_0.0 == account.imap_host->Some_0 && r->Ok_0.1 == port && r->Ok_0.2
                == account.username->Some_0 && r->Ok_0.3 == account.password->Some_0
        }),
{
}

/// Law: an inbox is watched on until something changes that the watching rests on,
/// and no other change matters.
pub proof fn watching_goes_on_while_nothing_changes(a: AccountView, b: AccountView)
    ensures
        same_watch(a, a),
        same_watch(
            AccountView {
                access_token: b.access_token,
                refresh_token: b.refresh_token,
                token_expires_at: b.token_expires_at,
                smtp_host: b.smtp_host,
                smtp_port: b.smtp_port,
                ..a
            },
            a,
        ),
        a.provider != b.provider ==> !same_watch(a, b),
        a.email != b.email ==> !same_watch(a, b),
        a.imap_host != b.imap_host ==> !same_watch(a, b),
        a.imap_port != b.imap_port ==> !same_watch(a, b),
        a.username != b.username ==> !same_watch(a, b),
        a.password != b.password ==> !same_watch(a, b),
{
}

/// Law: each secret goes to its own place in the account, and nothing else of the
/// account changes.
pub proof fn secrets_go_to_their_places(account: AccountView, secrets: AccountSecrets)
    ensures
        ({
            let whole = with_secrets(account, secrets);
            &&& whole.access_token == opt_text(secrets.access_token)
            &&& whole.refresh_token == opt_text(secrets.refresh_token)
            &&& whole.client_id == opt_text(secrets.client_id)
            &&& whole.client_secret == opt_text(secrets.client_secret)
            &&& whole.password == opt_text(secrets.password)
            &&& AccountView {
                access_token: account.access_token,
                refresh_token: account.refresh_token,
                client_id: account.client_id,
                client_secret: account.client_secret,
                password: account.password,
                ..whole
            } == account
        }),
{
}

/// Law: a secret that a row holds in the open is moved under its own name, and one
/// that is missing or empty is not.
pub proof fn open_secrets_are_moved(field: Seq<char>, value: Option<String>)
    ensures
        value is Some && (value->Some_0)@.len() > 0 ==> kept(field, value) == seq![
            (field, (value->Some_0)@),
        ],
        value is None || (value->Some_0)@.len() == 0 ==> kept(field, value).len() == 0,
{
}

/// Law: a secret is kept under the id of its account and its own kind.
pub proof fn secrets_are_kept_by_account_and_kind(account_id: int, field: Seq<char>)
    ensures
        starts(secret_name(account_id, field), "account:"@ + decimal_int(account_id) + ":"@),
        secret_name(account_id, field).len() >= field.len(),
        secret_name(account_id, field).skip(secret_name(account_id, field).len() - field.len())
            == field,
        secrets_of(account_id).len() == 5,
        forall|i: int|
            0 <= i < 5 ==> (#[trigger] secrets_of(account_id)[i]).1 == secret_name(
                account_id,
                secrets_of(account_id)[i].0,
            ),
{
    let name = secret_name(account_id, field);
    let front = "account:"@ + decimal_int(account_id) + ":"@;
    assert(name.take(front.len() as int) =~= front);
    assert(name.skip(name.len() - field.len()) =~= field);
}

/// Law: an error about an address that another account has names that address.
pub proof fn taken_addresses_are_named(a: Seq<char>, b: Seq<char>)
    ensures
        taken_error(a) == "An IMAP account for "@ + a + " already exists"@,
        taken_error(a) == taken_error(b) ==> a == b,
{
    let front = "An IMAP account for "@;
    if taken_error(a) == taken_error(b) {
        assert(taken_error(a).len() == taken_error(b).len());
        assert(a.len() == b.len());
        assert(taken_error(a).subrange(front.len() as int, (front.len() + a.len()) as int) =~= a);
        assert(taken_error(b).subrange(front.len() as int, (front.len() + b.len()) as int) =~= b);
    }
}

} // verus!
