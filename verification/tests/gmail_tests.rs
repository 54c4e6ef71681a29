use mailwind::account::StoredAccount;
use mailwind::gmail::{gmail_body, gmail_header, gmail_read_state, gmail_to_message};
use mailwind::gmail_api::{
    gmail_attachment_data, gmail_attachment_url, gmail_delete_url, gmail_full_message_url,
    gmail_archive_body, gmail_list_url, gmail_modify_url, gmail_next_page, gmail_page_ids,
    gmail_read_body, gmail_send_body, gmail_token_plan, granted_tokens, profile_email, refreshed_token,
    token_expiry, TokenPlan,
};
use mailwind::json::Json;
use mailwind::msgid::ReplyContext;

fn text(s: &str) -> Json {
    Json::Text(s.to_string())
}

fn object(members: Vec<(&str, Json)>) -> Json {
    Json::Object(members.into_iter().map(|(k, v)| (k.to_string(), v)).collect())
}

fn header(name: &str, value: &str) -> Json {
    object(vec![("name", text(name)), ("value", text(value))])
}

fn account() -> StoredAccount {
    StoredAccount {
        id: 3,
        provider: "gmail".to_string(),
        email: "a@example.org".to_string(),
        access_token: Some("access".to_string()),
        refresh_token: Some("refresh".to_string()),
        token_expires_at: Some(1000),
        client_id: Some("client".to_string()),
        client_secret: Some("secret".to_string()),
        imap_host: None,
        imap_port: None,
        smtp_host: None,
        smtp_port: None,
        username: None,
        password: None,
    }
}

#[test]
fn a_reply_of_gmail_becomes_a_message() {
    let payload = object(vec![
        (
            "headers",
            Json::Array(vec![
                header("SUBJECT", "Re: Hello"),
                header("From", "ann@example.org"),
                header("To", "bob@example.org"),
                header("Cc", "cy@example.org"),
                header("Message-ID", "<M@x>"),
                header("In-Reply-To", "<P@x>"),
                header("References", "<R@x>"),
                header("Date", "Tue, 1 Jul 2003 10:52:37 +0200"),
            ]),
        ),
        ("mimeType", text("multipart/mixed")),
        (
            "parts",
            Json::Array(vec![
                object(vec![
                    ("mimeType", text("text/plain")),
                    ("body", object(vec![("data", text("cGxhaW4"))])),
                ]),
                object(vec![
                    ("mimeType", text("Text/HTML")),
                    ("body", object(vec![("data", text("PGI-aHRtbDwvYj4="))])),
                ]),
                object(vec![
                    ("mimeType", text("image/png")),
                    ("filename", text("a.png")),
                    (
                        "body",
                        object(vec![("attachmentId", text("att")), ("size", Json::Integer(12))]),
                    ),
                ]),
            ]),
        ),
    ]);
    let raw = object(vec![
        ("id", text("g1")),
        ("threadId", text("t1")),
        ("snippet", text("short")),
        ("labelIds", Json::Array(vec![text("INBOX"), text("UNREAD")])),
        ("payload", payload),
    ]);
    let m = gmail_to_message("Inbox", &raw, 99);
    assert_eq!(m.provider_message_id, "g1");
    assert_eq!(m.thread_id, "t1");
    assert_eq!(m.message_header_id, "<M@x>");
    assert_eq!(m.in_reply_to, "<P@x>");
    assert_eq!(m.references_header, "<R@x>");
    assert_eq!(m.normalized_subject, "hello");
    assert_eq!(m.folder, "Inbox");
    assert_eq!(m.subject, "Re: Hello");
    assert_eq!(m.from_addr, "ann@example.org");
    assert_eq!(m.to_addr, "bob@example.org");
    assert_eq!(m.cc_addr, "cy@example.org");
    assert_eq!(m.date_ts, 1057049557);
    assert_eq!(m.snippet, "short");
    assert_eq!(m.body, "<b>html</b>");
    assert_eq!(m.body_mime, "text/html");
    assert!(!m.is_read);
    assert_eq!(m.attachments.len(), 1);
    assert_eq!(m.attachments[0].provider_attachment_id, Some("att".to_string()));
    assert_eq!(m.attachments[0].filename, "a.png");
    assert_eq!(m.attachments[0].mime_type, "image/png");
    assert_eq!(m.attachments[0].size, 12);
    assert_eq!(m.attachments[0].data, None);
}

#[test]
fn an_empty_reply_of_gmail_gets_defaults() {
    let m = gmail_to_message("Sent", &Json::Null, 99);
    assert_eq!(m.provider_message_id, "");
    assert_eq!(m.thread_id, "subject:(no subject)");
    assert_eq!(m.subject, "(no subject)");
    assert_eq!(m.date_ts, 99);
    assert_eq!(m.body, "");
    assert_eq!(m.body_mime, "text/plain");
    assert!(m.is_read);
}

#[test]
fn the_internal_date_is_the_second_choice() {
    let raw = object(vec![("internalDate", text("1057049557999"))]);
    assert_eq!(gmail_to_message("Inbox", &raw, 99).date_ts, 1057049557);
    let early = object(vec![("internalDate", text("-1999"))]);
    assert_eq!(gmail_to_message("Inbox", &early, 99).date_ts, -1);
    let bad = object(vec![("internalDate", text("soon"))]);
    assert_eq!(gmail_to_message("Inbox", &bad, 99).date_ts, 99);
}

#[test]
fn an_empty_thread_is_no_thread() {
    let raw = object(vec![
        ("id", text("g1")),
        ("threadId", text("")),
        ("payload", object(vec![("headers", Json::Array(vec![header("message-id", "<M@x>")]))])),
    ]);
    assert_eq!(gmail_to_message("Inbox", &raw, 99).thread_id, "message:<m@x>");
}

#[test]
fn headers_are_found_whatever_their_case() {
    let payload = object(vec![(
        "headers",
        Json::Array(vec![header("x-a", "one"), header("X-A", "two"), Json::Null]),
    )]);
    assert_eq!(gmail_header(&payload, "X-A"), Some("one".to_string()));
    assert_eq!(gmail_header(&payload, "X-B"), None);
    assert_eq!(gmail_header(&Json::Null, "X-A"), None);
}

#[test]
fn bytes_that_are_no_text_are_replaced() {
    let payload = object(vec![("body", object(vec![("data", text("_w"))]))]);
    assert_eq!(gmail_body(&payload), ("\u{fffd}".to_string(), "text/plain".to_string()));
    let broken = object(vec![("body", object(vec![("data", text("!"))]))]);
    assert_eq!(gmail_body(&broken), (String::new(), "text/plain".to_string()));
}

#[test]
fn a_message_without_the_label_is_read() {
    assert!(gmail_read_state(&object(vec![("labelIds", Json::Array(vec![text("INBOX")]))])));
    assert!(!gmail_read_state(&object(vec![("labelIds", Json::Array(vec![text("UNREAD")]))])));
    assert!(gmail_read_state(&Json::Null));
}

#[test]
fn urls_name_what_is_asked_for() {
    let base = "https://gmail.googleapis.com/gmail/v1/users/me/messages";
    assert_eq!(gmail_list_url(100, None, None, None), format!("{base}?maxResults=100"));
    assert_eq!(
        gmail_list_url(30, Some("INBOX"), Some("-in:inbox a"), Some("p/1\u{e9}")),
        format!("{base}?maxResults=30&labelIds=INBOX&q=-in%3Ainbox%20a&pageToken=p%2F1%C3%A9")
    );
    assert_eq!(gmail_full_message_url("g1"), format!("{base}/g1?format=full"));
    assert_eq!(gmail_attachment_url("g1", "a1"), format!("{base}/g1/attachments/a1"));
    assert_eq!(gmail_modify_url("g1"), format!("{base}/g1/modify"));
    assert_eq!(gmail_delete_url("g1", true), format!("{base}/g1"));
    assert_eq!(gmail_delete_url("g1", false), format!("{base}/g1/trash"));
}

#[test]
fn pages_list_ids() {
    let page = object(vec![
        (
            "messages",
            Json::Array(vec![
                object(vec![("id", text("a"))]),
                object(vec![("other", text("b"))]),
                object(vec![("id", text("c"))]),
            ]),
        ),
        ("nextPageToken", text("more")),
    ]);
    assert_eq!(gmail_page_ids(&page), Some(vec!["a".to_string(), "c".to_string()]));
    assert_eq!(gmail_next_page(&page), Some("more".to_string()));
    assert_eq!(gmail_page_ids(&Json::Null), None);
    assert_eq!(gmail_next_page(&Json::Null), None);
}

#[test]
fn tokens_are_read() {
    let both = object(vec![
        ("access_token", text("a")),
        ("refresh_token", text("r")),
        ("expires_in", Json::Integer(10)),
    ]);
    let grant = granted_tokens(&both).ok().unwrap();
    assert_eq!((grant.access_token.as_str(), grant.refresh_token.as_str()), ("a", "r"));
    assert_eq!(grant.expires_in, 10);
    let access = object(vec![("access_token", text("a"))]);
    assert_eq!(
        granted_tokens(&access).err(),
        Some(
            "Google did not return a refresh token. Remove prior app consent and try again."
                .to_string()
        )
    );
    assert_eq!(
        granted_tokens(&Json::Null).err(),
        Some("Google did not return an access token".to_string())
    );
    assert_eq!(refreshed_token(&access), Ok(("a".to_string(), 3600)));
    assert_eq!(
        refreshed_token(&Json::Null),
        Err("Google refresh did not return an access token".to_string())
    );
    assert_eq!(token_expiry(1000, 3600), 4540);
}

#[test]
fn addresses_of_profiles_are_normalized() {
    assert_eq!(profile_email(&object(vec![("emailAddress", text(" Ann@Example.org "))])), "ann@example.org");
    assert_eq!(profile_email(&Json::Null), "gmail-account");
}

#[test]
fn tokens_are_used_until_they_expire() {
    let plan = |a: &StoredAccount, now| gmail_token_plan(a, now);
    assert!(matches!(plan(&account(), 969), Ok(TokenPlan::Use(t)) if t == "access"));
    assert!(matches!(
        plan(&account(), 970),
        Ok(TokenPlan::Refresh { refresh_token, client_id, client_secret })
            if refresh_token == "refresh" && client_id == "client" && client_secret == "secret"
    ));
    let error = |a: StoredAccount, now| gmail_token_plan(&a, now).err().unwrap();
    assert_eq!(
        error(StoredAccount { access_token: None, ..account() }, 0),
        "Missing Gmail access token"
    );
    assert_eq!(
        error(StoredAccount { refresh_token: None, ..account() }, 5000),
        "Missing Gmail refresh token"
    );
    assert_eq!(
        error(StoredAccount { client_id: None, ..account() }, 5000),
        "Missing Gmail client id"
    );
    assert_eq!(
        error(StoredAccount { client_secret: None, ..account() }, 5000),
        "Missing Gmail client secret"
    );
    assert!(matches!(
        plan(&StoredAccount { token_expires_at: None, ..account() }, 0),
        Ok(TokenPlan::Refresh { .. })
    ));
}

fn reply(account_id: i64) -> Option<ReplyContext> {
    Some(ReplyContext {
        account_id,
        thread_id: "t1".to_string(),
        message_header_id: "<p@x>".to_string(),
        references_header: String::new(),
    })
}

#[test]
fn a_mail_is_sent_encoded() {
    let body = gmail_send_body(&[0xff, 0xfe, 0xfd, 0xfc], 3, &None);
    assert_eq!(body.text("raw"), Some("__79_A".to_string()));
    assert_eq!(body.text("threadId"), None);
}

#[test]
fn a_reply_goes_into_the_thread_of_its_own_account() {
    assert_eq!(gmail_send_body(b"x", 3, &reply(3)).text("threadId"), Some("t1".to_string()));
    assert_eq!(gmail_send_body(b"x", 3, &reply(4)).text("threadId"), None);
}

#[test]
fn labels_are_added_and_removed() {
    let label = |body: &Json, key: &str| match body.list(key) {
        Some(list) => match &list[..] {
            [Json::Text(s)] => Some(s.clone()),
            _ => None,
        },
        None => None,
    };
    let removed = gmail_archive_body();
    assert_eq!(label(&removed, "removeLabelIds"), Some("INBOX".to_string()));
    assert_eq!(label(&removed, "addLabelIds"), None);
    let added = gmail_read_body(false);
    assert_eq!(label(&added, "addLabelIds"), Some("UNREAD".to_string()));
    assert_eq!(label(&added, "removeLabelIds"), None);
    assert_eq!(label(&gmail_read_body(true), "removeLabelIds"), Some("UNREAD".to_string()));
}

#[test]
fn attachments_are_decoded_with_or_without_padding() {
    let data = |s: &str| gmail_attachment_data(&object(vec![("data", text(s))]));
    assert_eq!(data("_-8"), Ok(vec![0xff, 0xef]));
    assert_eq!(data("_-8="), Ok(vec![0xff, 0xef]));
    assert!(data("***").is_err());
    assert_eq!(
        gmail_attachment_data(&Json::Null),
        Err("Gmail attachment response missing data".to_string())
    );
}
