use mailwind::imap_id::{
    imap_location_from_provider_id, imap_location_key, imap_location_patterns,
    imap_provider_message_id, imap_search_quoted, imap_uid_set, imap_uid_summary, is_local_sent_id,
    matching_local_sent_copy, message_header_id_from_provider_id, message_id_search, newest_uid,
    parse_imap_provider_message_id, parse_imap_provider_message_id_parts,
};

#[test]
fn messages_are_named_by_place_and_id() {
    assert_eq!(imap_location_key("INBOX", 7), "INBOX:7");
    assert_eq!(imap_provider_message_id("INBOX", 7, None), "imap-uid:INBOX:7");
    assert_eq!(imap_provider_message_id("INBOX", 7, Some(" ")), "imap-uid:INBOX:7");
    assert_eq!(
        imap_provider_message_id("INBOX", 4294967295, Some(" <a@x> ")),
        "imap-uid:INBOX:4294967295:<a@x>"
    );
}

#[test]
fn names_of_messages_are_read() {
    let parse = parse_imap_provider_message_id_parts;
    assert_eq!(parse("imap-uid:INBOX:7"), Some(("INBOX".to_string(), 7, None)));
    assert_eq!(parse("imap-uid:a:7:<x:y>"), Some(("a".to_string(), 7, Some("<x:y>"))));
    assert_eq!(parse("imap-uid:a:7: "), Some(("a".to_string(), 7, None)));
    assert_eq!(parse("imap-uid::+7:"), Some((String::new(), 7, None)));
    assert_eq!(parse("imap-uid:a"), None);
    assert_eq!(parse("imap-uid:a:b"), None);
    assert_eq!(parse("imap-uid:a:4294967296"), None);
    assert_eq!(parse("gmail"), None);
    assert_eq!(
        parse_imap_provider_message_id("gmail"),
        Err("Cannot identify IMAP message UID".to_string())
    );
}

#[test]
fn written_names_are_read_back() {
    for id in [None, Some("<a@x>"), Some("<a:b@x>")] {
        let name = imap_provider_message_id("[Gmail]/Sent Mail", 42, id);
        assert_eq!(
            parse_imap_provider_message_id(&name),
            Ok(("[Gmail]/Sent Mail".to_string(), 42, id))
        );
        assert_eq!(
            imap_location_from_provider_id(&name),
            Some(imap_location_key("[Gmail]/Sent Mail", 42))
        );
        assert!(!is_local_sent_id(&name));
    }
}

#[test]
fn names_hold_message_ids() {
    let id = message_header_id_from_provider_id;
    assert_eq!(id("local-sent:<a@x>"), Some("<a@x>".to_string()));
    assert_eq!(id("imap-uid:Sent:4:<a@x>"), Some("<a@x>".to_string()));
    assert_eq!(id("imap-uid:Sent:4:none"), None);
    assert_eq!(id("imap-uid:Sent:4"), None);
    assert_eq!(id("gmail<a@x>"), None);
}

#[test]
fn a_returned_message_supersedes_its_copy() {
    assert_eq!(
        matching_local_sent_copy("Sent", "imap-uid:Sent:4:<a@x>"),
        Some("local-sent:<a@x>".to_string())
    );
    assert_eq!(matching_local_sent_copy("Inbox", "imap-uid:INBOX:4:<a@x>"), None);
    assert_eq!(matching_local_sent_copy("Sent", "local-sent:<a@x>"), None);
    assert_eq!(matching_local_sent_copy("Sent", "imap-uid:Sent:4"), None);
}

#[test]
fn patterns_name_a_place() {
    assert_eq!(
        imap_location_patterns("INBOX", 7),
        ("imap-uid:INBOX:7".to_string(), "imap-uid:INBOX:7:%".to_string())
    );
}

#[test]
fn uids_are_listed() {
    assert_eq!(imap_uid_set(&[]), "");
    assert_eq!(imap_uid_set(&[3]), "3");
    assert_eq!(imap_uid_set(&[3, 1, 20]), "3,1,20");
    assert_eq!(imap_uid_summary(&[]), "-");
    assert_eq!(imap_uid_summary(&[9]), "9");
    assert_eq!(imap_uid_summary(&[9, 4, 2]), "9..2 (3 uids)");
}

#[test]
fn the_newest_uid_is_the_largest() {
    assert_eq!(newest_uid(&[]), None);
    assert_eq!(newest_uid(&[3, 9, 4]), Some(9));
    assert_eq!(newest_uid(&[5]), Some(5));
}

#[test]
fn searches_quote_their_text() {
    assert_eq!(imap_search_quoted("a\"b\\c"), "\"a\\\"b\\\\c\"");
    assert_eq!(imap_search_quoted("a\r\nb"), "\"a  b\"");
    assert_eq!(message_id_search("<a@x>"), "HEADER Message-ID \"<a@x>\"");
}

#[test]
fn places_do_not_collide() {
    assert_ne!(imap_location_key("a", 11), imap_location_key("a:1", 1));
    assert_ne!(imap_location_key("a", 1), imap_location_key("b", 1));
}
