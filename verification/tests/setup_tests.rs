use mailwind::account::{ImapConnectInput, StoredAccount, UpdateImapSettingsInput};
use mailwind::gmail_setup::{connect_gmail, GmailSetup, SignInAction, SignInEvent};
use mailwind::imap_setup::{
    connect_imap, update_imap_settings, ImapSetup, SetupAction, SetupEvent,
};
use mailwind::json::Json;

fn connect_input() -> ImapConnectInput {
    ImapConnectInput {
        email: "Ann@Example.org".to_string(),
        display_name: Some("Ann".to_string()),
        imap_host: "imap.example.org".to_string(),
        imap_port: 993,
        smtp_host: "smtp.example.org".to_string(),
        smtp_port: 587,
        username: "ann".to_string(),
        password: "pw".to_string(),
    }
}

fn update_input(password: Option<&str>) -> UpdateImapSettingsInput {
    UpdateImapSettingsInput {
        account_id: 3,
        email: "Ann@Example.org".to_string(),
        display_name: None,
        imap_host: "imap.example.org".to_string(),
        imap_port: 993,
        smtp_host: "smtp.example.org".to_string(),
        smtp_port: 587,
        username: "ann".to_string(),
        password: password.map(String::from),
    }
}

fn stored(provider: &str, password: Option<&str>) -> StoredAccount {
    StoredAccount {
        id: 3,
        provider: provider.to_string(),
        email: "old@example.org".to_string(),
        access_token: None,
        refresh_token: None,
        token_expires_at: None,
        client_id: None,
        client_secret: None,
        imap_host: None,
        imap_port: None,
        smtp_host: None,
        smtp_port: None,
        username: None,
        password: password.map(String::from),
    }
}

fn no() -> SetupEvent {
    SetupEvent::Failed("no".to_string())
}

fn connecting() -> ImapSetup {
    let (setup, action) = connect_imap(&connect_input()).ok().unwrap();
    assert!(matches!(
        action,
        SetupAction::LogInImap { host, port: 993, username, password }
            if host == "imap.example.org" && username == "ann" && password == "pw"
    ));
    setup
}

fn logged_in() -> ImapSetup {
    let mut setup = connecting();
    assert!(matches!(
        setup.step(SetupEvent::Done),
        Some(SetupAction::LogInSmtp { host, port: 587, .. }) if host == "smtp.example.org"
    ));
    assert!(matches!(
        setup.step(SetupEvent::Done),
        Some(SetupAction::FindHolder { email }) if email == "ann@example.org"
    ));
    setup
}

fn stopped(action: Option<SetupAction>) -> String {
    match action {
        Some(SetupAction::Stopped(e)) => e,
        _ => panic!("the setup goes on"),
    }
}

#[test]
fn a_new_imap_account_is_stored_with_its_password() {
    let mut setup = logged_in();
    assert!(matches!(
        setup.step(SetupEvent::Holder(None)),
        Some(SetupAction::Insert(s)) if s.email == "ann@example.org"
    ));
    assert!(matches!(
        setup.step(SetupEvent::Inserted(7)),
        Some(SetupAction::StoreSecret { id: 7, field: "password", value }) if value == "pw"
    ));
    assert!(matches!(
        setup.step(SetupEvent::Done),
        Some(SetupAction::Finished(s)) if s.id == 7 && s.provider == "imap"
    ));
    assert!(setup.step(SetupEvent::Done).is_none());
}

#[test]
fn a_known_imap_account_is_connected_again() {
    let mut setup = logged_in();
    assert!(matches!(
        setup.step(SetupEvent::Holder(Some(4))),
        Some(SetupAction::StoreSecret { id: 4, .. })
    ));
    assert!(matches!(
        setup.step(SetupEvent::Done),
        Some(SetupAction::Update { id: 4, settings }) if settings.smtp_port == 587
    ));
    assert!(matches!(setup.step(SetupEvent::Done), Some(SetupAction::Finished(s)) if s.id == 4));
}

#[test]
fn a_new_imap_account_without_password_is_taken_back() {
    let mut setup = logged_in();
    setup.step(SetupEvent::Holder(None));
    setup.step(SetupEvent::Inserted(7));
    assert!(matches!(setup.step(no()), Some(SetupAction::DeleteAccount { id: 7 })));
    let again = SetupEvent::Failed("also no".to_string());
    assert_eq!(stopped(setup.step(again)), "no");
}

#[test]
fn a_known_imap_account_is_never_deleted() {
    let mut setup = logged_in();
    setup.step(SetupEvent::Holder(Some(4)));
    assert_eq!(stopped(setup.step(no())), "no");
}

#[test]
fn refused_logins_are_explained() {
    assert_eq!(stopped(connecting().step(no())), "no");
    assert_eq!(
        stopped(connecting().step(SetupEvent::Refused("bad".to_string()))),
        "IMAP login failed or timed out after 15s. Check that IMAP is enabled and the password \
         is valid for IMAP/app-password login. Server error: bad"
    );
    let smtp = |event| {
        let mut setup = connecting();
        setup.step(SetupEvent::Done);
        stopped(setup.step(event))
    };
    assert_eq!(smtp(no()), "SMTP setup failed for smtp.example.org:587: no");
    assert_eq!(
        smtp(SetupEvent::Refused("bad".to_string())),
        "SMTP login failed for smtp.example.org:587: bad"
    );
    assert_eq!(smtp(SetupEvent::NotAccepted), "SMTP server did not accept the connection");
}

#[test]
fn bad_input_starts_no_setup() {
    let bad = ImapConnectInput { password: String::new(), ..connect_input() };
    assert_eq!(connect_imap(&bad).err(), Some("Password is required".to_string()));
    let bad = UpdateImapSettingsInput { imap_port: 0, ..update_input(None) };
    assert_eq!(
        update_imap_settings(&bad).err(),
        Some("IMAP port must be between 1 and 65535".to_string())
    );
}

fn changing(password: Option<&str>) -> ImapSetup {
    let (setup, action) = update_imap_settings(&update_input(password)).ok().unwrap();
    assert!(matches!(action, SetupAction::LoadAccount { id: 3 }));
    setup
}

#[test]
fn settings_are_changed_with_the_stored_password() {
    let mut setup = changing(Some(""));
    assert!(matches!(
        setup.step(SetupEvent::Account(stored("imap", Some("old")))),
        Some(SetupAction::FindHolder { .. })
    ));
    assert!(matches!(
        setup.step(SetupEvent::Holder(Some(3))),
        Some(SetupAction::LogInImap { password, .. }) if password == "old"
    ));
    assert!(matches!(setup.step(SetupEvent::Done), Some(SetupAction::LogInSmtp { .. })));
    assert!(matches!(setup.step(SetupEvent::Done), Some(SetupAction::Update { id: 3, .. })));
    assert!(matches!(setup.step(SetupEvent::Done), Some(SetupAction::Finished(_))));
}

#[test]
fn an_entered_password_is_stored() {
    let mut setup = changing(Some("new"));
    setup.step(SetupEvent::Account(stored("imap", None)));
    setup.step(SetupEvent::Holder(None));
    setup.step(SetupEvent::Done);
    assert!(matches!(
        setup.step(SetupEvent::Done),
        Some(SetupAction::StoreSecret { id: 3, field: "password", value }) if value == "new"
    ));
    assert!(matches!(setup.step(SetupEvent::Done), Some(SetupAction::Update { id: 3, .. })));
}

#[test]
fn settings_that_cannot_be_changed_are_left() {
    let load = |account| stopped(changing(None).step(SetupEvent::Account(account)));
    assert_eq!(load(stored("gmail", None)), "Only IMAP/SMTP accounts can be edited here");
    assert_eq!(
        load(stored("imap", None)),
        "Password is required because no existing password is stored"
    );
    let mut setup = changing(Some("new"));
    setup.step(SetupEvent::Account(stored("imap", None)));
    assert_eq!(
        stopped(setup.step(SetupEvent::Holder(Some(4)))),
        "An IMAP account for ann@example.org already exists"
    );
    let mut setup = changing(Some("new"));
    setup.step(SetupEvent::Account(stored("imap", None)));
    setup.step(SetupEvent::Holder(None));
    assert_eq!(
        stopped(setup.step(SetupEvent::Refused("bad".to_string()))),
        "IMAP login failed or timed out after 15s: bad"
    );
    assert!(changing(None).step(SetupEvent::Done).is_none());
}

fn text(s: &str) -> Json {
    Json::Text(s.to_string())
}

fn object(members: Vec<(&str, Json)>) -> Json {
    Json::Object(members.into_iter().map(|(k, v)| (k.to_string(), v)).collect())
}

fn signed_in() -> GmailSetup {
    let (mut setup, action) = connect_gmail(" id ", " secret ").ok().unwrap();
    assert!(matches!(action, SignInAction::Listen));
    let listening = SignInEvent::Listening { port: 8080, state: "s".to_string() };
    assert!(matches!(
        setup.step(listening),
        Some(SignInAction::OpenBrowser(url))
            if url.contains("client_id=id&") && url.ends_with("&state=s") && url.contains("%3A8080%2Fcallback")
    ));
    assert!(matches!(
        setup.step(SignInEvent::Done),
        Some(SignInAction::AwaitCallback { state }) if state == "s"
    ));
    assert!(matches!(
        setup.step(SignInEvent::Code("c".to_string())),
        Some(SignInAction::Exchange { code, client_id, client_secret, redirect_uri })
            if code == "c" && client_id == "id" && client_secret == "secret"
                && redirect_uri == "http://127.0.0.1:8080/callback"
    ));
    let tokens = object(vec![("access_token", text("a")), ("refresh_token", text("r"))]);
    assert!(matches!(
        setup.step(SignInEvent::Reply(tokens)),
        Some(SignInAction::LoadProfile { access_token }) if access_token == "a"
    ));
    let profile = object(vec![("emailAddress", text("Ann@Example.org"))]);
    assert!(matches!(
        setup.step(SignInEvent::Reply(profile)),
        Some(SignInAction::FindHolder { email }) if email == "ann@example.org"
    ));
    setup
}

fn failed() -> SignInEvent {
    SignInEvent::Failed("no".to_string())
}

#[test]
fn a_gmail_account_is_connected() {
    let mut setup = signed_in();
    assert!(matches!(
        setup.step(SignInEvent::Holder(None)),
        Some(SignInAction::Insert { email, expires_in: 3600 }) if email == "ann@example.org"
    ));
    let mut action = setup.step(SignInEvent::Inserted(7));
    let mut stored = Vec::new();
    while let Some(SignInAction::StoreSecret { id, field, value }) = action {
        assert_eq!(id, 7);
        stored.push((field, value));
        action = setup.step(SignInEvent::Done);
    }
    let expected = [("access_token", "a"), ("refresh_token", "r"), ("client_id", "id"), ("client_secret", "secret")];
    assert_eq!(stored, expected.map(|(f, v)| (f, v.to_string())).to_vec());
    assert!(matches!(
        action,
        Some(SignInAction::Finished(s)) if s.id == 7 && s.provider == "gmail"
    ));
}

#[test]
fn a_failed_gmail_connection_is_taken_back() {
    let mut setup = signed_in();
    setup.step(SignInEvent::Holder(None));
    setup.step(SignInEvent::Inserted(7));
    setup.step(SignInEvent::Done);
    assert!(matches!(setup.step(failed()), Some(SignInAction::DeleteSecrets { id: 7 })));
    let again = SignInEvent::Failed("also no".to_string());
    assert!(matches!(setup.step(again), Some(SignInAction::DeleteAccount { id: 7 })));
    assert!(matches!(setup.step(SignInEvent::Done), Some(SignInAction::Stopped(e)) if e == "no"));
}

#[test]
fn a_known_gmail_account_is_kept() {
    let mut setup = signed_in();
    assert!(matches!(
        setup.step(SignInEvent::Holder(Some(4))),
        Some(SignInAction::Renew { id: 4, expires_in: 3600 })
    ));
    setup.step(SignInEvent::Done);
    assert!(matches!(setup.step(failed()), Some(SignInAction::DeleteSecrets { id: 4 })));
    assert!(matches!(setup.step(SignInEvent::Done), Some(SignInAction::Stopped(e)) if e == "no"));
}

#[test]
fn a_sign_in_may_fail() {
    assert_eq!(
        connect_gmail("", "s").err(),
        Some("Google OAuth client ID is required".to_string())
    );
    assert_eq!(
        connect_gmail("i", " ").err(),
        Some("Google OAuth client secret is required".to_string())
    );
    let (mut setup, _) = connect_gmail("i", "s").ok().unwrap();
    assert!(setup.step(SignInEvent::Done).is_none());
    setup.step(SignInEvent::Listening { port: 1, state: "s".to_string() });
    assert!(matches!(
        setup.step(failed()),
        Some(SignInAction::Stopped(e)) if e == "Could not open browser: no"
    ));
    let (mut setup, _) = connect_gmail("i", "s").ok().unwrap();
    setup.step(SignInEvent::Listening { port: 1, state: "s".to_string() });
    setup.step(SignInEvent::Done);
    setup.step(SignInEvent::Code("c".to_string()));
    assert!(matches!(
        setup.step(SignInEvent::Reply(Json::Null)),
        Some(SignInAction::Stopped(e)) if e == "Google did not return an access token"
    ));
}
