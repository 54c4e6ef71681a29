use mailwind::account::{
    account_secret_entry_error, account_secret_name, check_address_free, check_imap_connect,
    check_imap_settings, delete_account_secret, delete_account_secrets, gmail_summary,
    idle_account_current, imap_login, imap_summary,
    load_account_secret, normalize_display_name, normalize_email_input, password_for_settings,
    password_was_entered, plaintext_secrets, required_input, resolve_account_secrets,
    resolve_accounts, smtp_credentials, smtp_port, store_account_secret, uses_gmail, validate_port,
    AccountSecrets, ImapConnectInput, SecretError, StoredAccount, UpdateImapSettingsInput,
};

fn some(s: &str) -> Option<String> {
    Some(s.to_string())
}

fn account() -> StoredAccount {
    StoredAccount {
        id: 3,
        provider: "imap".to_string(),
        email: "a@example.org".to_string(),
        access_token: None,
        refresh_token: None,
        token_expires_at: None,
        client_id: None,
        client_secret: None,
        imap_host: some("imap.example.org"),
        imap_port: None,
        smtp_host: some("smtp.example.org"),
        smtp_port: None,
        username: some("ann"),
        password: some("pw"),
    }
}

fn connect() -> ImapConnectInput {
    ImapConnectInput {
        email: " Ann@Example.ORG ".to_string(),
        display_name: some("  "),
        imap_host: " imap.example.org".to_string(),
        imap_port: 993,
        smtp_host: "smtp.example.org ".to_string(),
        smtp_port: 587,
        username: " ann ".to_string(),
        password: " pw ".to_string(),
    }
}

fn settings() -> UpdateImapSettingsInput {
    UpdateImapSettingsInput {
        account_id: 3,
        email: "Ann@Example.ORG".to_string(),
        display_name: some(" Ann "),
        imap_host: "imap.example.org".to_string(),
        imap_port: 993,
        smtp_host: "smtp.example.org".to_string(),
        smtp_port: 587,
        username: "ann".to_string(),
        password: None,
    }
}

fn secrets() -> AccountSecrets {
    AccountSecrets {
        access_token: some("at"),
        refresh_token: some(""),
        client_id: some("ci"),
        client_secret: None,
        password: some("pw"),
    }
}

#[test]
fn inputs_are_checked() {
    assert_eq!(required_input(" a ", "Name"), Ok("a".to_string()));
    assert_eq!(required_input("  ", "Name"), Err("Name is required".to_string()));
    assert_eq!(normalize_email_input(" A@X ", "Email"), Ok("a@x".to_string()));
    assert_eq!(normalize_email_input("", "Email"), Err("Email is required".to_string()));
    assert_eq!(validate_port(1, "Port"), Ok(1));
    assert_eq!(validate_port(65535, "Port"), Ok(65535));
    for bad in [0, -1, 65536, i64::MAX, i64::MIN] {
        assert_eq!(
            validate_port(bad, "Port"),
            Err("Port must be between 1 and 65535".to_string())
        );
    }
    assert_eq!(normalize_display_name(&some(" Ann ")), some("Ann"));
    assert_eq!(normalize_display_name(&some("  ")), None);
    assert_eq!(normalize_display_name(&None), None);
}

#[test]
fn a_connection_is_checked_in_order() {
    let ok = check_imap_connect(&connect()).ok().unwrap();
    assert_eq!(ok.email, "ann@example.org");
    assert_eq!(ok.display_name, None);
    assert_eq!(ok.imap_host, "imap.example.org");
    assert_eq!(ok.smtp_host, "smtp.example.org");
    assert_eq!(ok.username, "ann");
    assert_eq!((ok.imap_port, ok.smtp_port), (993, 587));
    let error = |input: ImapConnectInput| check_imap_connect(&input).err().unwrap();
    let blank = String::new;
    assert_eq!(error(ImapConnectInput { email: blank(), ..connect() }), "Email is required");
    assert_eq!(error(ImapConnectInput { imap_host: blank(), ..connect() }), "IMAP host is required");
    assert_eq!(error(ImapConnectInput { smtp_host: blank(), ..connect() }), "SMTP host is required");
    assert_eq!(error(ImapConnectInput { username: blank(), ..connect() }), "Username is required");
    assert_eq!(
        error(ImapConnectInput { password: blank(), imap_port: 0, ..connect() }),
        "Password is required"
    );
    assert_eq!(
        error(ImapConnectInput { imap_port: 0, smtp_port: 0, ..connect() }),
        "IMAP port must be between 1 and 65535"
    );
    assert_eq!(
        error(ImapConnectInput { smtp_port: 0, ..connect() }),
        "SMTP port must be between 1 and 65535"
    );
}

#[test]
fn settings_are_checked_like_a_connection() {
    let ok = check_imap_settings(&settings()).ok().unwrap();
    assert_eq!(ok.email, "ann@example.org");
    assert_eq!(ok.display_name, some("Ann"));
    let bad = UpdateImapSettingsInput { username: " ".to_string(), ..settings() };
    assert_eq!(check_imap_settings(&bad).err(), some("Username is required"));
}

#[test]
fn summaries_show_the_settings() {
    let s = imap_summary(9, check_imap_connect(&connect()).ok().unwrap());
    assert_eq!((s.id, s.provider.as_str(), s.email.as_str()), (9, "imap", "ann@example.org"));
    assert_eq!(s.imap_port, Some(993));
    assert_eq!(s.smtp_host, some("smtp.example.org"));
    let g = gmail_summary(9, "g@example.org");
    assert_eq!((g.provider.as_str(), g.email.as_str()), ("gmail", "g@example.org"));
    assert_eq!((g.imap_host, g.username), (None, None));
}

#[test]
fn an_empty_password_keeps_the_stored_one() {
    let pw = password_for_settings;
    assert_eq!(pw(&account(), &some("new")), Ok("new".to_string()));
    assert_eq!(pw(&account(), &some("")), Ok("pw".to_string()));
    assert_eq!(pw(&account(), &None), Ok("pw".to_string()));
    assert_eq!(
        pw(&StoredAccount { password: None, ..account() }, &None),
        Err("Password is required because no existing password is stored".to_string())
    );
    assert_eq!(
        pw(&StoredAccount { provider: "gmail".to_string(), ..account() }, &some("new")),
        Err("Only IMAP/SMTP accounts can be edited here".to_string())
    );
    assert!(password_was_entered(&some("x")));
    assert!(!password_was_entered(&some("")));
    assert!(!password_was_entered(&None));
}

#[test]
fn an_address_belongs_to_one_account() {
    assert_eq!(check_address_free("a@x", 3, None), Ok(()));
    assert_eq!(check_address_free("a@x", 3, Some(3)), Ok(()));
    assert_eq!(
        check_address_free("a@x", 3, Some(4)),
        Err("An IMAP account for a@x already exists".to_string())
    );
}

#[test]
fn accounts_are_told_apart() {
    assert!(!uses_gmail(&account()));
    assert!(uses_gmail(&StoredAccount { provider: "gmail".to_string(), ..account() }));
}

#[test]
fn logins_need_host_name_and_password() {
    let login = imap_login(&account()).ok().unwrap();
    assert_eq!((login.host.as_str(), login.port), ("imap.example.org", 993));
    assert_eq!((login.username.as_str(), login.password.as_str()), ("ann", "pw"));
    let error = |a: StoredAccount| imap_login(&a).err().unwrap();
    assert_eq!(error(StoredAccount { imap_host: None, ..account() }), "Missing IMAP host");
    assert_eq!(error(StoredAccount { username: None, ..account() }), "Missing IMAP username");
    assert_eq!(error(StoredAccount { password: None, ..account() }), "Missing IMAP password");
    assert_eq!(
        error(StoredAccount { imap_port: Some(0), username: None, ..account() }),
        "IMAP port must be between 1 and 65535"
    );
    assert_eq!(
        smtp_credentials(&account()),
        Ok(("smtp.example.org".to_string(), "ann".to_string(), "pw".to_string()))
    );
    let error = |a: StoredAccount| smtp_credentials(&a).err().unwrap();
    assert_eq!(error(StoredAccount { smtp_host: None, ..account() }), "Missing SMTP host");
    assert_eq!(error(StoredAccount { username: None, ..account() }), "Missing SMTP username");
    assert_eq!(error(StoredAccount { password: None, ..account() }), "Missing SMTP password");
    assert_eq!(smtp_port(&account()), Ok(587));
    assert_eq!(
        smtp_port(&StoredAccount { smtp_port: Some(70000), ..account() }),
        Err("SMTP port must be between 1 and 65535".to_string())
    );
}

#[test]
fn a_watched_account_is_compared_with_the_stored_one() {
    assert!(idle_account_current(&Some(account()), &account()));
    assert!(!idle_account_current(&None, &account()));
    let other = StoredAccount { password: some("other"), ..account() };
    assert!(!idle_account_current(&Some(other), &account()));
    let moved = StoredAccount { imap_port: Some(143), ..account() };
    assert!(!idle_account_current(&Some(moved), &account()));
    let smtp = StoredAccount { smtp_host: None, smtp_port: Some(1), ..account() };
    assert!(idle_account_current(&Some(smtp), &account()));
}

#[test]
fn secrets_have_names_of_their_own() {
    assert_eq!(account_secret_name(-7, "password"), "account:-7:password");
    let all = delete_account_secrets(7);
    let fields: Vec<&str> = all.iter().map(|(field, _)| *field).collect();
    assert_eq!(
        fields,
        vec!["access_token", "refresh_token", "client_secret", "password", "client_id"]
    );
    for (field, name) in &all {
        assert_eq!(*name, account_secret_name(7, field));
        assert_ne!(*name, account_secret_name(8, field));
    }
}

#[test]
fn outcomes_of_the_credential_store_are_judged() {
    let no = || "no".to_string();
    assert_eq!(
        account_secret_entry_error("password", "no"),
        "Could not open secure credential store for password: no"
    );
    assert_eq!(store_account_secret("password", Ok(())), Ok(()));
    assert_eq!(
        store_account_secret("password", Err(no())),
        Err("Could not store password in the OS credential store: no".to_string())
    );
    assert_eq!(load_account_secret("password", Ok(no())), Ok(Some(no())));
    assert_eq!(load_account_secret("password", Err(SecretError::Missing)), Ok(None));
    assert_eq!(
        load_account_secret("password", Err(SecretError::Failed(no()))),
        Err("Could not read password from the OS credential store: no".to_string())
    );
    assert_eq!(delete_account_secret("password", Ok(())), Ok(()));
    assert_eq!(delete_account_secret("password", Err(SecretError::Missing)), Ok(()));
    assert_eq!(
        delete_account_secret("password", Err(SecretError::Failed(no()))),
        Err("Could not delete password from the OS credential store: no".to_string())
    );
}

#[test]
fn secrets_are_put_into_accounts() {
    let a = resolve_account_secrets(account(), secrets());
    assert_eq!(a.access_token, some("at"));
    assert_eq!(a.refresh_token, some(""));
    assert_eq!(a.client_id, some("ci"));
    assert_eq!(a.client_secret, None);
    assert_eq!(a.imap_host, some("imap.example.org"));
    let two = StoredAccount { id: 4, ..account() };
    let list = resolve_accounts(vec![(account(), secrets()), (two, secrets())]);
    assert_eq!(list.iter().map(|a| a.id).collect::<Vec<_>>(), vec![3, 4]);
}

#[test]
fn open_secrets_are_listed() {
    assert_eq!(
        plaintext_secrets(&secrets()),
        vec![
            ("access_token", "at".to_string()),
            ("password", "pw".to_string()),
            ("client_id", "ci".to_string()),
        ]
    );
}
