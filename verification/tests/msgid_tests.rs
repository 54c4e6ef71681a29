use mailwind::msgid::{
    backfilled_conversation_id, conversation_id_from_headers, dedup_message_ids, nonempty,
    normalize_message_id, normalize_message_id_header, parse_message_ids, reply_header_id,
    reply_references_header, ReplyContext,
};

fn reply(message_header_id: &str, references_header: &str) -> ReplyContext {
    ReplyContext {
        account_id: 1,
        thread_id: "t".to_string(),
        message_header_id: message_header_id.to_string(),
        references_header: references_header.to_string(),
    }
}

#[test]
fn lists_of_ids_are_read() {
    assert_eq!(parse_message_ids("<a@x> <b@x>"), vec!["<a@x>", "<b@x>"]);
    assert_eq!(parse_message_ids("< a@x >"), vec!["<a@x>"]);
    assert_eq!(parse_message_ids(""), Vec::<String>::new());
    assert_eq!(parse_message_ids("<>"), vec!["<>"]);
}

#[test]
fn ids_are_found_between_other_text() {
    assert_eq!(parse_message_ids("see <a@x>, and <b@x>"), vec!["<a@x>", "<b@x>"]);
    assert_eq!(parse_message_ids("x < > <b"), Vec::<String>::new());
    assert_eq!(parse_message_ids("plain"), Vec::<String>::new());
    assert_eq!(parse_message_ids("<a"), Vec::<String>::new());
}

#[test]
fn list_parser_is_that_of_mailparse() {
    for s in ["<a@x>", "<a@x><b@x>", " <a> ", "<a b>", "a", "<a", "<a> x", "", "  ", "<<a>>"] {
        let ours = parse_message_ids(s);
        if let Ok(ids) = mailparse::msgidparse(s) {
            let theirs: Vec<String> = ids.iter().map(|id| format!("<{}>", id.trim())).collect();
            assert_eq!(ours, theirs, "{s:?}");
        }
    }
}

#[test]
fn headers_with_ids_are_normalized() {
    assert_eq!(normalize_message_id_header(None), "");
    assert_eq!(normalize_message_id_header(Some("x <a@x>,<b@x>")), "<a@x> <b@x>");
    assert_eq!(normalize_message_id("x <a@x> <b@x>"), Some("<a@x>".to_string()));
    assert_eq!(normalize_message_id("none"), None);
    let once = normalize_message_id_header(Some("x <a@x>,<b@x>"));
    assert_eq!(parse_message_ids(&once), parse_message_ids("x <a@x>,<b@x>"));
}

#[test]
fn blank_values_are_no_values() {
    assert_eq!(nonempty("  "), None);
    assert_eq!(nonempty(" a "), Some(" a "));
}

#[test]
fn conversations_are_named_after_their_root() {
    let id = |m, r, refs, s| conversation_id_from_headers(m, r, refs, s, "other");
    assert_eq!(id("<M@x>", "<P@x>", "<R@x> <P@x>", "s"), "message:<r@x>");
    assert_eq!(id("<M@x>", "<P@x>", "", "s"), "message:<p@x>");
    assert_eq!(id(" <M@x> ", "", "", "s"), "message:<m@x>");
    assert_eq!(id(" ", "", "", " s "), "subject:s");
    assert_eq!(id("", "", "", " "), "other");
}

#[test]
fn a_reply_joins_the_conversation_of_its_parent() {
    let parent_refs = "<root@x> <mid@x>";
    let parent = conversation_id_from_headers("<p@x>", "<mid@x>", parent_refs, "s", "f");
    let refs = reply_references_header(&reply("<p@x>", parent_refs));
    assert_eq!(refs, "<root@x> <mid@x> <p@x>");
    assert_eq!(conversation_id_from_headers("<new@x>", "<p@x>", &refs, "s", "g"), parent);
}

#[test]
fn conversations_of_old_rows_are_filled_in() {
    let fill = backfilled_conversation_id;
    assert_eq!(fill("imap-uid:INBOX:1", "old", "hello", "<A@x>"), "subject:hello");
    assert_eq!(fill("imap-uid:INBOX:1", "old", "", "<A@x>"), "message:<a@x>");
    assert_eq!(fill("imap-uid:INBOX:1", "old", "", ""), "old");
    assert_eq!(fill("gmail1", "old", "hello", "<A@x>"), "old");
    assert_eq!(fill("gmail1", " ", "hello", ""), "subject:hello");
    assert_eq!(fill("gmail1", "", "", ""), "gmail1");
}

#[test]
fn ids_are_listed_once() {
    let ids = ["<A@x>", "<b@x>", "<a@X>", "<c@x>"].map(String::from).to_vec();
    assert_eq!(dedup_message_ids(ids), vec!["<A@x>", "<b@x>", "<c@x>"]);
}

#[test]
fn references_end_with_the_answered_message() {
    assert_eq!(reply_references_header(&reply("<b@x>", "<a@x> <B@x>")), "<a@x> <B@x>");
    assert_eq!(reply_references_header(&reply("", "<a@x>")), "<a@x>");
    assert_eq!(reply_references_header(&reply("<b@x>", "")), "<b@x>");
}

#[test]
fn names_of_messages_hold_their_ids() {
    assert_eq!(reply_header_id("local-sent: <a@x> "), Some("<a@x>".to_string()));
    assert_eq!(reply_header_id("local-sent:a@x"), None);
    assert_eq!(reply_header_id("local-sent:<"), None);
    assert_eq!(reply_header_id("imap-uid:Sent:4:<a@x>"), Some("<a@x>".to_string()));
    assert_eq!(reply_header_id("imap-uid:Sent:4"), None);
    assert_eq!(reply_header_id("><"), None);
}
