use mailwind::mime::{imap_to_message, mail_tree, preferred_body, FlatPart};

const MAIL: &str = "From: Ann <ann@example.org>\r\n\
To: bob@example.org\r\n\
Cc: cy@example.org\r\n\
Subject: =?utf-8?q?Caf=C3=A9?=\r\n tomorrow\r\n\
Message-ID: <M1@example.org>\r\n\
In-Reply-To: <P@example.org>\r\n\
References: <R@example.org>\r\n <P@example.org>\r\n\
Date: Tue, 1 Jul 2003 10:52:37 +0200\r\n\
MIME-Version: 1.0\r\n\
Content-Type: multipart/mixed; boundary=outer\r\n\
\r\n\
--outer\r\n\
Content-Type: multipart/alternative; boundary=inner\r\n\
\r\n\
--inner\r\n\
Content-Type: text/plain\r\n\
\r\n\
plain text\r\n\
--inner\r\n\
Content-Type: text/html\r\n\
\r\n\
<p>html  text</p>\r\n\
--inner--\r\n\
--outer\r\n\
Content-Type: application/octet-stream; name=other.bin\r\n\
Content-Disposition: attachment; filename=data.bin\r\n\
Content-Transfer-Encoding: base64\r\n\
\r\n\
AQID\r\n\
--outer--\r\n";

#[test]
fn a_mail_becomes_a_message() {
    let m = imap_to_message("Inbox", "INBOX", 7, MAIL.as_bytes(), true, 99).unwrap();
    assert_eq!(m.provider_message_id, "imap-uid:INBOX:7:<M1@example.org>");
    assert_eq!(m.thread_id, "message:<r@example.org>");
    assert_eq!(m.message_header_id, "<M1@example.org>");
    assert_eq!(m.in_reply_to, "<P@example.org>");
    assert_eq!(m.references_header, "<R@example.org> <P@example.org>");
    assert_eq!(m.normalized_subject, "caf\u{e9} tomorrow");
    assert_eq!(m.folder, "Inbox");
    assert_eq!(m.subject, "Caf\u{e9} tomorrow");
    assert_eq!(m.from_addr, "Ann <ann@example.org>");
    assert_eq!(m.to_addr, "bob@example.org");
    assert_eq!(m.cc_addr, "cy@example.org");
    assert_eq!(m.date_ts, 1057049557);
    assert_eq!(m.snippet, "html text");
    assert_eq!(m.body.trim(), "<p>html  text</p>");
    assert_eq!(m.body_mime, "text/html");
    assert!(m.is_read);
    assert_eq!(m.attachments.len(), 1);
    let a = &m.attachments[0];
    assert_eq!(a.provider_attachment_id, None);
    assert_eq!(a.filename, "data.bin");
    assert_eq!(a.mime_type, "application/octet-stream");
    assert_eq!(a.size, 3);
    assert_eq!(a.data, Some(vec![1, 2, 3]));
}

#[test]
fn a_bare_mail_gets_defaults() {
    let m = imap_to_message("Inbox", "INBOX", 7, b"\r\nhello", false, 99).unwrap();
    assert_eq!(m.provider_message_id, "imap-uid:INBOX:7");
    assert_eq!(m.subject, "(no subject)");
    assert_eq!(m.thread_id, "subject:(no subject)");
    assert_eq!(m.from_addr, "");
    assert_eq!(m.date_ts, 99);
    assert_eq!(m.body, "hello");
    assert_eq!(m.body_mime, "text/plain");
    assert!(!m.is_read);
    assert!(m.attachments.is_empty());
}

#[test]
fn a_mail_without_subject_or_id_is_alone_in_its_conversation() {
    let m = imap_to_message("Inbox", "a", 7, b"Subject: \r\n\r\nhello", false, 99).unwrap();
    assert_eq!(m.thread_id, "imap-location:a:7");
}

#[test]
fn a_broken_mail_is_an_error() {
    let raw: &[u8] = b" x\r\n\r\ny";
    let expected = mailparse::parse_mail(raw).err().unwrap().to_string();
    let got = imap_to_message("Inbox", "INBOX", 7, raw, false, 99).err().unwrap();
    assert_eq!(got, expected);
}

#[test]
fn an_attached_text_is_no_body() {
    let raw = b"Content-Type: text/plain\r\nContent-Disposition: attachment; filename=a.txt\r\n\r\nx";
    let m = imap_to_message("Inbox", "INBOX", 7, raw, false, 99).unwrap();
    assert_eq!(m.body, "");
    assert_eq!(m.body_mime, "text/plain");
    assert_eq!(m.attachments.len(), 1);
    assert_eq!(m.attachments[0].filename, "a.txt");
    assert_eq!(m.attachments[0].data, Some(b"x".to_vec()));
}

#[test]
fn html_is_preferred() {
    let pair = |a: &str, b: &str| (a.to_string(), b.to_string());
    assert_eq!(preferred_body(&vec![]), pair("", "text/plain"));
    assert_eq!(preferred_body(&vec![pair("a", "text/plain")]), pair("a", "text/plain"));
    assert_eq!(
        preferred_body(&vec![pair("a", "text/plain"), pair("b", "Text/Html"), pair("c", "text/html")]),
        pair("b", "Text/Html")
    );
}

fn flat(name: &str, children: usize) -> FlatPart {
    FlatPart {
        headers: vec![],
        mimetype: name.to_string(),
        type_params: vec![],
        attachment: false,
        disposition_params: vec![],
        text: None,
        data: None,
        children,
    }
}

#[test]
fn parts_form_a_tree() {
    let tree = mail_tree(vec![flat("a", 2), flat("b", 1), flat("c", 0), flat("d", 0)]).unwrap();
    assert_eq!(tree.mimetype, "a");
    assert_eq!(tree.subparts.len(), 2);
    assert_eq!(tree.subparts[0].mimetype, "b");
    assert_eq!(tree.subparts[0].subparts[0].mimetype, "c");
    assert_eq!(tree.subparts[1].mimetype, "d");
    assert!(mail_tree(vec![]).is_none());
}
