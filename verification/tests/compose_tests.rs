use mailwind::compose::{
    build_outbound_message, collect_mailboxes, mailboxes_of, message_id_for, new_identifier,
    outbound_message_id, outbound_plan, parse_mailbox_list, parse_optional_mailbox_list,
    sent_message, write_mail, MailAddress, MailBody, MailPlan, MailStep, MailboxEntry, ReadyMail,
    SendInput,
};
use mailwind::imap_id::{imap_provider_message_id, matching_local_sent_copy};
use mailwind::mime::imap_to_message;
use mailwind::msgid::{normalize_message_id, ReplyContext};

fn input() -> SendInput {
    SendInput {
        account_id: 3,
        to: "Bob <bob@example.org>, cy@example.org".to_string(),
        cc: Some(" dan@example.org ".to_string()),
        bcc: Some("eve@example.org".to_string()),
        reply_to: None,
        subject: "Re:  Hello".to_string(),
        body: "some text".to_string(),
        body_mime: "text/plain".to_string(),
        reply_to_message_id: None,
    }
}

fn reply() -> Option<ReplyContext> {
    Some(ReplyContext {
        account_id: 3,
        thread_id: "t1".to_string(),
        message_header_id: "<p@x>".to_string(),
        references_header: "<r@x>".to_string(),
    })
}

fn build(input: &SendInput, reply: &Option<ReplyContext>) -> Result<ReadyMail, String> {
    build_outbound_message("ann@example.org", input, reply, "<id@example.org>")
}

fn error(input: SendInput) -> String {
    build(&input, &None).err().unwrap()
}

fn lines(mail: &ReadyMail) -> Vec<String> {
    let text = String::from_utf8(mail.bytes.clone()).unwrap();
    text.split("\r\n").map(String::from).collect()
}

fn entry(name: Option<&str>, address: &str) -> MailboxEntry {
    MailboxEntry { name: name.map(String::from), address: address.to_string() }
}

fn shown(list: &[MailboxEntry]) -> Vec<(Option<&str>, &str)> {
    list.iter().map(|m| (m.name.as_deref(), m.address.as_str())).collect()
}

#[test]
fn lists_of_addresses_are_read() {
    let list = parse_mailbox_list("Bob <bob@example.org>, cy@example.org", "To").ok().unwrap();
    assert_eq!(shown(&list), vec![(Some("Bob"), "bob@example.org"), (None, "cy@example.org")]);
    let group = parse_mailbox_list("All: a@example.org, b@example.org;", "To").ok().unwrap();
    assert_eq!(shown(&group), vec![(None, "a@example.org"), (None, "b@example.org")]);
    assert!(parse_mailbox_list("", "To").ok().unwrap().is_empty());
}

#[test]
fn bad_addresses_are_named() {
    let parse = "@example.org".parse::<lettre::Address>().err().unwrap().to_string();
    assert_eq!(
        parse_mailbox_list("a@example.org, @example.org", "Cc").err(),
        Some(format!("Cc address error: {parse}"))
    );
    let list = mailparse::addrparse("<a").err().unwrap().to_string();
    assert_eq!(parse_mailbox_list("<a", "To").err(), Some(format!("To address error: {list}")));
}

#[test]
fn mailboxes_are_collected_up_to_a_fault() {
    let mut list = vec![entry(None, "x@example.org")];
    let group = MailAddress::Group(vec![entry(Some("A"), "a@example.org"), entry(None, "bad")]);
    assert!(collect_mailboxes(&group, &mut list).is_err());
    assert_eq!(shown(&list), vec![(None, "x@example.org"), (Some("A"), "a@example.org")]);
    assert!(collect_mailboxes(&MailAddress::Single(entry(None, "b@example.org")), &mut list).is_ok());
    assert_eq!(list.len(), 3);
    assert!(mailboxes_of(&vec![], "To").ok().unwrap().is_empty());
}

#[test]
fn lists_that_may_be_missing_may_be_blank() {
    assert!(parse_optional_mailbox_list(None, "Cc").ok().unwrap().is_empty());
    assert!(parse_optional_mailbox_list(Some("  "), "Cc").ok().unwrap().is_empty());
    let one = parse_optional_mailbox_list(Some(" a@example.org "), "Cc").ok().unwrap();
    assert_eq!(shown(&one), vec![(None, "a@example.org")]);
}

#[test]
fn a_mail_is_written() {
    let mail = build(&input(), &None).ok().unwrap();
    assert_eq!(mail.sender, Some("ann@example.org".to_string()));
    assert_eq!(
        mail.recipients,
        vec!["bob@example.org", "cy@example.org", "dan@example.org", "eve@example.org"]
    );
    let lines = lines(&mail);
    assert!(lines.contains(&"From: ann@example.org".to_string()));
    assert!(lines.contains(&"To: Bob <bob@example.org>, cy@example.org".to_string()));
    assert!(lines.contains(&"Cc: dan@example.org".to_string()));
    assert!(lines.contains(&"Subject: Re:  Hello".to_string()));
    assert!(lines.contains(&"Message-ID: <id@example.org>".to_string()));
    assert!(lines.contains(&"some text".to_string()));
    assert!(lines.iter().any(|line| line.starts_with("Date: ")));
    assert!(!lines.iter().any(|line| line.contains("eve@example.org")));
    assert!(!lines.iter().any(|line| line.starts_with("In-Reply-To: ")));
}

#[test]
fn a_reply_names_what_it_answers() {
    let mail = build(&input(), &reply()).ok().unwrap();
    let lines = lines(&mail);
    assert!(lines.contains(&"In-Reply-To: <p@x>".to_string()));
    assert!(lines.contains(&"References: <r@x> <p@x>".to_string()));
    let unknown = Some(ReplyContext { message_header_id: " ".to_string(), ..reply().unwrap() });
    let mail = build(&input(), &unknown).ok().unwrap();
    assert!(!mail.bytes.windows(11).any(|w| w == b"References:"));
}

#[test]
fn html_goes_out_with_its_text() {
    let html = SendInput {
        body: "<p>Hi &amp; bye</p>".to_string(),
        body_mime: "TEXT/HTML".to_string(),
        ..input()
    };
    let mail = build(&html, &None).ok().unwrap();
    let text = String::from_utf8(mail.bytes).unwrap();
    assert!(text.contains("Content-Type: multipart/alternative;"));
    assert!(text.contains(" Hi & bye "));
    assert!(text.contains("<p>Hi &amp; bye</p>"));
}

#[test]
fn replies_may_go_elsewhere() {
    let one = SendInput { reply_to: Some("Desk <desk@example.org>".to_string()), ..input() };
    let mail = build(&one, &None).ok().unwrap();
    assert!(lines(&mail).contains(&"Reply-To: Desk <desk@example.org>".to_string()));
    let two = SendInput { reply_to: Some("a@example.org, b@example.org".to_string()), ..input() };
    assert_eq!(error(two), "Reply-To must contain exactly one mailbox");
    let blank = SendInput { reply_to: Some(" ".to_string()), ..input() };
    assert!(build(&blank, &None).is_ok());
}

#[test]
fn a_mail_needs_a_sender_and_a_recipient() {
    assert_eq!(
        error(SendInput { to: String::new(), ..input() }),
        "To must include at least one recipient"
    );
    let bad = "nobody".parse::<lettre::message::Mailbox>().err().unwrap().to_string();
    let got = build_outbound_message("nobody", &input(), &None, "<id@x>").err().unwrap();
    assert_eq!(got, bad);
    assert!(error(SendInput { cc: Some("bad".to_string()), ..input() })
        .starts_with("Cc address error: "));
    assert!(error(SendInput { bcc: Some("bad".to_string()), ..input() })
        .starts_with("Bcc address error: "));
}

#[test]
fn a_plan_lists_the_steps_in_order() {
    let with_desk = SendInput { reply_to: Some("desk@example.org".to_string()), ..input() };
    let plan = outbound_plan("ann@example.org", &with_desk, &reply(), "<id@x>").ok().unwrap();
    let kinds: Vec<&str> = plan
        .steps
        .iter()
        .map(|step| match step {
            MailStep::From(_) => "from",
            MailStep::Subject(_) => "subject",
            MailStep::MessageId(_) => "id",
            MailStep::To(_) => "to",
            MailStep::Cc(_) => "cc",
            MailStep::Bcc(_) => "bcc",
            MailStep::ReplyTo(_) => "reply-to",
            MailStep::InReplyTo(_) => "answers",
            MailStep::References(_) => "refers",
        })
        .collect();
    assert_eq!(
        kinds,
        vec!["from", "subject", "id", "to", "to", "cc", "bcc", "reply-to", "answers", "refers"]
    );
    assert!(matches!(plan.body, MailBody::Plain(s) if s == "some text"));
}

#[test]
fn a_plan_with_a_bad_mailbox_is_refused() {
    let expected = "bad".parse::<lettre::Address>().err().unwrap().to_string();
    let good = || MailStep::From(entry(None, "a@example.org"));
    let steps: Vec<fn(MailboxEntry) -> MailStep> =
        vec![MailStep::From, MailStep::To, MailStep::Cc, MailStep::Bcc, MailStep::ReplyTo];
    for step in steps {
        let plan = MailPlan {
            steps: vec![good(), step(entry(None, "bad"))],
            body: MailBody::Plain(String::new()),
        };
        assert_eq!(write_mail(&plan).err(), Some(expected.clone()));
    }
    let nobody = MailPlan { steps: vec![], body: MailBody::Plain(String::new()) };
    let missing = lettre::Message::builder().body(String::new()).err().unwrap().to_string();
    assert_eq!(write_mail(&nobody).err(), Some(missing));
}

#[test]
fn ids_name_the_domain_of_the_sender() {
    assert_eq!(message_id_for("u", "ann@example.org"), "<u@example.org>");
    assert_eq!(message_id_for("u", "a@b@ example.org "), "<u@example.org>");
    assert_eq!(message_id_for("u", "ann"), "<u@mailwind.local>");
    assert_eq!(message_id_for("u", "ann@ "), "<u@mailwind.local>");
}

#[test]
fn identifiers_are_random() {
    let id = new_identifier();
    assert_eq!(id.len(), 36);
    for (i, c) in id.chars().enumerate() {
        match i {
            8 | 13 | 18 | 23 => assert_eq!(c, '-'),
            14 => assert_eq!(c, '4'),
            19 => assert!("89ab".contains(c)),
            _ => assert!(c.is_ascii_digit() || ('a'..='f').contains(&c)),
        }
    }
    assert_ne!(id, new_identifier());
}

#[test]
fn new_ids_are_read_back() {
    let id = outbound_message_id("ann@example.org");
    assert!(id.ends_with("@example.org>"));
    assert_eq!(normalize_message_id(&id), Some(id.clone()));
}

#[test]
fn a_sent_mail_is_stored() {
    let m = sent_message("ann@example.org", &input(), &None, "<id@x>", "new", 99);
    assert_eq!(m.provider_message_id, "local-sent:<id@x>");
    assert_eq!(m.thread_id, "new");
    assert_eq!(m.message_header_id, "<id@x>");
    assert_eq!((m.in_reply_to.as_str(), m.references_header.as_str()), ("", ""));
    assert_eq!(m.normalized_subject, "hello");
    assert_eq!(m.folder, "Sent");
    assert_eq!(m.subject, "Re: Hello");
    assert_eq!(m.from_addr, "ann@example.org");
    assert_eq!(m.to_addr, "Bob <bob@example.org>, cy@example.org");
    assert_eq!(m.cc_addr, " dan@example.org ");
    assert_eq!(m.date_ts, 99);
    assert_eq!(m.snippet, "some text");
    assert!(m.is_read);
    assert!(m.attachments.is_empty());
}

#[test]
fn a_sent_reply_stays_in_its_conversation() {
    let m = sent_message("ann@example.org", &input(), &reply(), "<id@x>", "new", 99);
    assert_eq!(m.thread_id, "t1");
    assert_eq!(m.in_reply_to, "<p@x>");
    assert_eq!(m.references_header, "<r@x> <p@x>");
}

#[test]
fn a_returned_mail_replaces_what_was_stored() {
    let id = outbound_message_id("ann@example.org");
    let stored = sent_message("ann@example.org", &input(), &None, &id, "new", 99);
    let mail = build_outbound_message("ann@example.org", &input(), &None, &id).ok().unwrap();
    let back = imap_to_message("Sent", "Sent", 4, &mail.bytes, true, 99).ok().unwrap();
    assert_eq!(back.message_header_id, id);
    assert_eq!(back.provider_message_id, imap_provider_message_id("Sent", 4, Some(&id)));
    assert_eq!(
        matching_local_sent_copy(&back.folder, &back.provider_message_id),
        Some(stored.provider_message_id)
    );
}

const BROKEN_NAME: &str = "Mailbox name must not contain a line break";

#[test]
fn names_that_span_lines_are_refused() {
    let broken = "\"a\nb\" <x@example.org>".to_string();
    let list = parse_mailbox_list(&broken, "To").ok().unwrap();
    assert_eq!(shown(&list), vec![(Some("a\nb"), "x@example.org")]);
    assert_eq!(error(SendInput { to: broken.clone(), ..input() }), BROKEN_NAME);
    assert_eq!(error(SendInput { cc: Some(broken.clone()), ..input() }), BROKEN_NAME);
    assert_eq!(error(SendInput { bcc: Some(broken.clone()), ..input() }), BROKEN_NAME);
    assert_eq!(error(SendInput { reply_to: Some(broken), ..input() }), BROKEN_NAME);
}

fn written(step: MailStep) -> Result<ReadyMail, String> {
    let mut steps = vec![step];
    steps.push(MailStep::From(entry(None, "ann@example.org")));
    steps.push(MailStep::To(entry(None, "bob@example.org")));
    write_mail(&MailPlan { steps, body: MailBody::Plain("x".to_string()) })
}

#[test]
fn every_step_that_names_a_mailbox_is_checked() {
    let kinds =
        [MailStep::From, MailStep::To, MailStep::Cc, MailStep::Bcc, MailStep::ReplyTo];
    for kind in kinds {
        for name in ["a\nb", "a\rb", "a\r\nb"] {
            let outcome = written(kind(entry(Some(name), "x@example.org")));
            assert_eq!(outcome.err(), Some(BROKEN_NAME.to_string()));
        }
    }
    // The ends of a name are not written, so a line break there does no harm.
    for name in ["bob\n", "\r\n bob", "\n", ""] {
        let mail = written(MailStep::Cc(entry(Some(name), "x@example.org"))).ok().unwrap();
        assert_eq!(mail.recipients, vec!["bob@example.org", "x@example.org"]);
    }
    // The name is looked at before the address.
    let both = written(MailStep::To(entry(Some("a\nb"), "nowhere")));
    assert_eq!(both.err(), Some(BROKEN_NAME.to_string()));
}

#[test]
fn the_envelope_comes_of_the_headers_alone() {
    let first = build(&input(), &None).ok().unwrap();
    let html = SendInput {
        body: "<p>other</p>".to_string(),
        body_mime: "text/html".to_string(),
        ..input()
    };
    let second = build(&html, &None).ok().unwrap();
    for mail in [first, second] {
        assert_eq!(mail.sender.as_deref(), Some("ann@example.org"));
        assert_eq!(
            mail.recipients,
            vec!["bob@example.org", "cy@example.org", "dan@example.org", "eve@example.org"]
        );
    }
    let lost = |body: MailBody| {
        let steps = vec![MailStep::To(entry(None, "bob@example.org"))];
        write_mail(&MailPlan { steps, body }).err()
    };
    let plain = lost(MailBody::Plain("x".to_string()));
    assert!(plain.is_some());
    assert_eq!(
        plain,
        lost(MailBody::Html { plain: "y".to_string(), html: "<b>y</b>".to_string() })
    );
}
