//! Messages as Gmail's service returns them.
use vstd::prelude::*;
use vstd::string::*;

use crate::codec::{decode_url_bytes, lossy_text, url_bytes, utf8_lossy};
use crate::header::{clean, clean_header_value, normalize_subject_key, subject_key};
use crate::json::{
    array_value, field, field_of, integer_value, lemma_field_smaller, text_field, text_value, Json,
};
use crate::message::{attachment_views, AttachmentView, MessageView, NewAttachment, NewMessage};
use crate::mime::{
    header_message_id, id_header, own_id, pair_texts, parse_rfc2822, preferred, preferred_body,
    rfc2822_seconds, string_or, text_or,
};
use crate::msgid::{
    conversation_id, conversation_id_from_headers, message_ids, normalize_message_id_header,
};
use crate::number::{i64_of, parse_i64};
use crate::text::{blank, is_blank, join, lower, opt_as_str, opt_text, same, same_ignoring_case, to_lower};

verus! {

// ---------------------------------------------------------------------------
// Headers
// ---------------------------------------------------------------------------
/// The first of some headers with the name `name`, whatever its case.
pub open spec fn named_header(headers: Seq<Json>, name: Seq<char>) -> Option<Json>
    decreases headers.len(),
{
    if headers.len() == 0 {
        None
    } else {
        match text_field(headers[0], "name"@) {
            Some(n) => if lower(n) == lower(name) {
                Some(headers[0])
            } else {
                named_header(headers.skip(1), name)
            },
            None => named_header(headers.skip(1), name),
        }
    }
}

/// The cleaned value of the first header with the name `name` of a part.
pub open spec fn gmail_header_value(payload: Json, name: Seq<char>) -> Option<Seq<char>> {
    match array_value(field(payload, "headers"@)) {
        Some(headers) => match text_value(field_of(named_header(headers, name), "value"@)) {
            Some(value) => Some(clean(value)),
            None => None,
        },
        None => None,
    }
}

/// Computes [`gmail_header_value`].
pub fn gmail_header(payload: &Json, name: &str) -> (r: Option<String>)
    ensures
        opt_text(r) == gmail_header_value(*payload, name@),
{
    let headers = match payload.list("headers") {
        Some(headers) => headers,
        None => {
            return None;
        },
    };
    let mut i: usize = 0;
    assert(headers@.skip(0) =~= headers@);
    while i < headers.len()
        invariant
            i <= headers.len(),
            array_value(field(*payload, "headers"@)) == Some(headers@),
            named_header(headers@.skip(i as int), name@) == named_header(headers@, name@),
        decreases headers.len() - i,
    {
        assert(headers@.skip(i as int).skip(1) =~= headers@.skip(i + 1));
        if let Some(n) = headers[i].text("name") {
            if same_ignoring_case(n.as_str(), name) {
                return match headers[i].text("value") {
                    Some(value) => Some(clean_header_value(value.as_str())),
                    None => None,
                };
            }
        }
        i = i + 1;
    }
    None
}

// ---------------------------------------------------------------------------
// Bodies
// ---------------------------------------------------------------------------
/// The data of a part, decoded.
pub open spec fn part_data(payload: Json) -> Option<Seq<u8>> {
    match text_value(field_of(field(payload, "body"@), "data"@)) {
        Some(data) => match url_bytes(data) {
            Ok(bytes) => Some(bytes),
            Err(_) => None,
        },
        None => None,
    }
}

/// The body of a part and its type: its own data, or else the preferred body
/// among the parts below it.
pub open spec fn gmail_body_of(payload: Json) -> (Seq<char>, Seq<char>)
    decreases payload, 0nat,
{
    proof {
        lemma_field_smaller(payload, "parts"@);
    }
    match part_data(payload) {
        Some(bytes) => (
            utf8_lossy(bytes),
            lower(text_or(text_field(payload, "mimeType"@), "text/plain"@)),
        ),
        None => match array_value(field(payload, "parts"@)) {
            Some(parts) => preferred(gmail_bodies_of(parts)),
            None => preferred(Seq::empty()),
        },
    }
}

/// The bodies of several parts that are not blank.
pub open spec fn gmail_bodies_of(parts: Seq<Json>) -> Seq<(Seq<char>, Seq<char>)>
    decreases parts, parts.len(),
{
    if parts.len() == 0 {
        Seq::empty()
    } else {
        let rest = gmail_bodies_of(parts.drop_last());
        let body = gmail_body_of(parts[parts.len() - 1]);
        if blank(body.0) {
            rest
        } else {
            rest.push(body)
        }
    }
}

/// Computes [`part_data`].
fn decoded_data(payload: &Json) -> (r: Option<Vec<u8>>)
    ensures
        match r {
            Some(bytes) => part_data(*payload) == Some(bytes@),
            None => part_data(*payload) is None,
        },
{
    let data = match payload.get("body") {
        Some(body) => body.text("data"),
        None => None,
    };
    match data {
        Some(data) => match decode_url_bytes(data.as_str()) {
            Ok(bytes) => Some(bytes),
            Err(_) => None,
        },
        None => None,
    }
}

/// Computes [`gmail_body_of`].
pub fn gmail_body(payload: &Json) -> (r: (String, String))
    ensures
        (r.0@, r.1@) == gmail_body_of(*payload),
    decreases payload,
{
    proof {
        lemma_field_smaller(*payload, "parts"@);
    }
    if let Some(bytes) = decoded_data(payload) {
        let mime = string_or(payload.text("mimeType"), "text/plain");
        return (lossy_text(bytes.as_slice()), to_lower(mime.as_str()));
    }
    let mut bodies: Vec<(String, String)> = Vec::new();
    assert(pair_texts(bodies@) =~= Seq::empty());
    if let Some(parts) = payload.list("parts") {
        let mut i: usize = 0;
        assert(parts@.take(0) =~= Seq::<Json>::empty());
        assert(pair_texts(bodies@) =~= gmail_bodies_of(parts@.take(0)));
        while i < parts.len()
            invariant
                i <= parts.len(),
                forall|k: int| 0 <= k < parts@.len() ==> decreases_to!(payload => #[trigger] parts@[k]),
                pair_texts(bodies@) == gmail_bodies_of(parts@.take(i as int)),
            decreases parts.len() - i,
        {
            let body = gmail_body(&parts[i]);
            proof {
                let now = parts@.take(i + 1);
                assert(now.drop_last() =~= parts@.take(i as int));
                assert(now[now.len() - 1] == parts@[i as int]);
            }
            if !is_blank(body.0.as_str()) {
                let ghost before = pair_texts(bodies@);
                let ghost added = (body.0@, body.1@);
                bodies.push(body);
                assert(pair_texts(bodies@) =~= before.push(added));
            }
            i = i + 1;
        }
        assert(parts@.take(parts.len() as int) =~= parts@);
    }
    preferred_body(&bodies)
}

// ---------------------------------------------------------------------------
// Attachments
// ---------------------------------------------------------------------------
/// The attachment that a part is: one with a file name that is not empty.
pub open spec fn own_gmail_attachment(payload: Json) -> Seq<AttachmentView> {
    let filename = text_or(text_field(payload, "filename"@), Seq::empty());
    if filename.len() == 0 {
        Seq::empty()
    } else {
        seq![
            AttachmentView {
                provider_attachment_id: text_value(
                    field_of(field(payload, "body"@), "attachmentId"@),
                ),
                filename,
                mime_type: text_or(
                    text_field(payload, "mimeType"@),
                    "application/octet-stream"@,
                ),
                size: match integer_value(field_of(field(payload, "body"@), "size"@)) {
                    Some(n) => n,
                    None => 0,
                },
                data: None,
            },
        ]
    }
}

/// The attachments of a part and of the parts below it, in order.
pub open spec fn gmail_attachments_of(payload: Json) -> Seq<AttachmentView>
    decreases payload, 0nat,
{
    proof {
        lemma_field_smaller(payload, "parts"@);
    }
    match array_value(field(payload, "parts"@)) {
        Some(parts) => own_gmail_attachment(payload) + gmail_attachments_of_all(parts),
        None => own_gmail_attachment(payload),
    }
}

/// The attachments of several parts, in order.
pub open spec fn gmail_attachments_of_all(parts: Seq<Json>) -> Seq<AttachmentView>
    decreases parts, parts.len(),
{
    if parts.len() == 0 {
        Seq::empty()
    } else {
        gmail_attachments_of_all(parts.drop_last()) + gmail_attachments_of(parts[parts.len() - 1])
    }
}

/// Computes [`gmail_attachments_of`].
pub fn gmail_attachments(payload: &Json) -> (r: Vec<NewAttachment>)
    ensures
        attachment_views(r@) == gmail_attachments_of(*payload),
{
    let mut attachments: Vec<NewAttachment> = Vec::new();
    collect_gmail_attachments(payload, &mut attachments);
    assert(attachment_views(attachments@) =~= gmail_attachments_of(*payload));
    attachments
}

/// Appends the attachments of a part and of the parts below it.
pub fn collect_gmail_attachments(payload: &Json, attachments: &mut Vec<NewAttachment>)
    ensures
        attachment_views(final(attachments)@) == attachment_views(old(attachments)@)
            + gmail_attachments_of(*payload),
    decreases payload,
{
    let ghost before = attachment_views(attachments@);
    proof {
        lemma_field_smaller(*payload, "parts"@);
        reveal_strlit("");
        assert(""@ =~= Seq::<char>::empty());
    }
    let filename = string_or(payload.text("filename"), "");
    if !filename.as_str().is_empty() {
        let (id, size): (Option<String>, Option<i64>) = match payload.get("body") {
            Some(body) => (body.text("attachmentId"), body.integer("size")),
            None => (None, None),
        };
        let attachment = NewAttachment {
            provider_attachment_id: id,
            filename,
            mime_type: string_or(payload.text("mimeType"), "application/octet-stream"),
            size: match size {
                Some(n) => n,
                None => 0,
            },
            data: None,
        };
        attachments.push(attachment);
    }
    assert(attachment_views(attachments@) =~= before + own_gmail_attachment(*payload));
    let ghost own = attachment_views(attachments@);
    if let Some(parts) = payload.list("parts") {
        let mut i: usize = 0;
        assert(parts@.take(0) =~= Seq::<Json>::empty());
        assert(own + gmail_attachments_of_all(parts@.take(0)) =~= own);
        while i < parts.len()
            invariant
                i <= parts.len(),
                forall|k: int| 0 <= k < parts@.len() ==> decreases_to!(payload => #[trigger] parts@[k]),
                attachment_views(attachments@) == own + gmail_attachments_of_all(
                    parts@.take(i as int),
                ),
            decreases parts.len() - i,
        {
            collect_gmail_attachments(&parts[i], attachments);
            proof {
                let now = parts@.take(i + 1);
                assert(now.drop_last() =~= parts@.take(i as int));
                assert(now[now.len() - 1] == parts@[i as int]);
                assert(attachment_views(attachments@) =~= own + gmail_attachments_of_all(now));
            }
            i = i + 1;
        }
        assert(parts@.take(parts.len() as int) =~= parts@);
    }
    assert(attachment_views(attachments@) =~= before + gmail_attachments_of(*payload));
}

// ---------------------------------------------------------------------------
// Messages
// ---------------------------------------------------------------------------
/// Milliseconds as seconds, rounded towards zero.
pub open spec fn whole_seconds(ms: int) -> int {
    if ms >= 0 {
        ms / 1000
    } else {
        -((-ms) / 1000)
    }
}

/// Computes [`whole_seconds`].
fn seconds_of(ms: i64) -> (r: i64)
    ensures
        r == whole_seconds(ms as int),
{
    if ms >= 0 {
        ms / 1000
    } else {
        let n: u64 = (-(ms + 1)) as u64 + 1;
        -((n / 1000) as i64)
    }
}

/// When a message was sent: by its own date, or else by the time at which Gmail
/// got it, or else `now`.
pub open spec fn gmail_date(raw: Json, payload: Json, now: i64) -> int {
    let own = match gmail_header_value(payload, "Date"@) {
        Some(date) => rfc2822_seconds(date),
        None => None,
    };
    let received = match text_field(raw, "internalDate"@) {
        Some(ms) => i64_of(ms),
        None => None,
    };
    match own {
        Some(seconds) => seconds as int,
        None => match received {
            Some(ms) => whole_seconds(ms as int),
            None => now as int,
        },
    }
}

/// Computes [`gmail_date`].
fn date_of(raw: &Json, payload: &Json, now: i64) -> (r: i64)
    ensures
        r == gmail_date(*raw, *payload, now),
{
    let own = match gmail_header(payload, "Date") {
        Some(date) => parse_rfc2822(date.as_str()),
        None => None,
    };
    if let Some(seconds) = own {
        return seconds;
    }
    let received = match raw.text("internalDate") {
        Some(ms) => parse_i64(ms.as_str()),
        None => None,
    };
    match received {
        Some(ms) => seconds_of(ms),
        None => now,
    }
}

/// One of some labels is `UNREAD`.
pub open spec fn unread(labels: Seq<Json>) -> bool {
    exists|i: int| 0 <= i < labels.len() && text_value(Some(#[trigger] labels[i])) == Some("UNREAD"@)
}

/// Gmail does not count the message as unread.
pub open spec fn gmail_is_read(raw: Json) -> bool {
    match array_value(field(raw, "labelIds"@)) {
        Some(labels) => !unread(labels),
        None => true,
    }
}

/// Computes [`gmail_is_read`].
pub fn gmail_read_state(raw: &Json) -> (r: bool)
    ensures
        r == gmail_is_read(*raw),
{
    let labels = match raw.list("labelIds") {
        Some(labels) => labels,
        None => {
            return true;
        },
    };
    let mut i: usize = 0;
    while i < labels.len()
        invariant
            i <= labels.len(),
            array_value(field(*raw, "labelIds"@)) == Some(labels@),
            forall|k: int|
                0 <= k < i ==> text_value(Some(#[trigger] labels@[k])) != Some("UNREAD"@),
        decreases labels.len() - i,
    {
        if let Json::Text(label) = &labels[i] {
            if same(label.as_str(), "UNREAD") {
                assert(text_value(Some(labels@[i as int])) == Some("UNREAD"@));
                return false;
            }
        }
        i = i + 1;
    }
    true
}

/// The part that a message starts with; nothing where the reply has none.
pub open spec fn payload_of(raw: Json) -> Json {
    match field(raw, "payload"@) {
        Some(payload) => payload,
        None => Json::Null,
    }
}

/// The stored message for one that Gmail returned, kept under `folder`. A message
/// without any date is dated `now`.
pub open spec fn gmail_message(folder: Seq<char>, raw: Json, now: i64) -> MessageView {
    let payload = payload_of(raw);
    let subject = text_or(gmail_header_value(payload, "Subject"@), "(no subject)"@);
    let message_header_id = own_id(gmail_header_value(payload, "Message-ID"@));
    let in_reply_to = id_header(gmail_header_value(payload, "In-Reply-To"@));
    let references_header = id_header(gmail_header_value(payload, "References"@));
    let normalized_subject = subject_key(subject);
    let (body, body_mime) = gmail_body_of(payload);
    let id = text_or(text_field(raw, "id"@), Seq::empty());
    let thread = text_or(text_field(raw, "threadId"@), Seq::empty());
    MessageView {
        provider_message_id: id,
        thread_id: if thread.len() > 0 {
            thread
        } else {
            conversation_id(
                message_header_id,
                in_reply_to,
                references_header,
                normalized_subject,
                id,
            )
        },
        message_header_id,
        in_reply_to,
        references_header,
        normalized_subject,
        folder,
        subject,
        from_addr: text_or(gmail_header_value(payload, "From"@), Seq::empty()),
        to_addr: text_or(gmail_header_value(payload, "To"@), Seq::empty()),
        cc_addr: text_or(gmail_header_value(payload, "Cc"@), Seq::empty()),
        date_ts: gmail_date(raw, payload, now) as i64,
        snippet: text_or(text_field(raw, "snippet"@), Seq::empty()),
        body,
        body_mime,
        is_read: gmail_is_read(raw),
        attachments: gmail_attachments_of(payload),
    }
}

/// Computes [`gmail_message`].
pub fn gmail_to_message(folder: &str, raw: &Json, now: i64) -> (r: NewMessage)
    ensures
        r@ == gmail_message(folder@, *raw, now),
{
    proof {
        reveal_strlit("");
        assert(""@ =~= Seq::<char>::empty());
    }
    let nothing = Json::Null;
    let payload = match raw.get("payload") {
        Some(payload) => payload,
        None => &nothing,
    };
    let subject = string_or(gmail_header(payload, "Subject"), "(no subject)");
    let from_addr = string_or(gmail_header(payload, "From"), "");
    let to_addr = string_or(gmail_header(payload, "To"), "");
    let cc_addr = string_or(gmail_header(payload, "Cc"), "");
    let message_header_id = header_message_id(&gmail_header(payload, "Message-ID"));
    let in_reply_to = gmail_header(payload, "In-Reply-To");
    let in_reply_to = normalize_message_id_header(opt_as_str(&in_reply_to));
    let references_header = gmail_header(payload, "References");
    let references_header = normalize_message_id_header(opt_as_str(&references_header));
    let normalized_subject = normalize_subject_key(subject.as_str());
    let date_ts = date_of(raw, payload, now);
    let (body, body_mime) = gmail_body(payload);
    let attachments = gmail_attachments(payload);
    let snippet = string_or(raw.text("snippet"), "");
    let provider_message_id = string_or(raw.text("id"), "");
    let mut thread_id = string_or(raw.text("threadId"), "");
    if thread_id.as_str().is_empty() {
        thread_id = conversation_id_from_headers(
            message_header_id.as_str(),
            in_reply_to.as_str(),
            references_header.as_str(),
            normalized_subject.as_str(),
            provider_message_id.as_str(),
        );
    }
    NewMessage {
        provider_message_id,
        thread_id,
        message_header_id,
        in_reply_to,
        references_header,
        normalized_subject,
        folder: folder.to_owned(),
        subject,
        from_addr,
        to_addr,
        cc_addr,
        date_ts,
        snippet,
        body,
        body_mime,
        is_read: gmail_read_state(raw),
        attachments,
    }
}

// ---------------------------------------------------------------------------
// Laws
// ---------------------------------------------------------------------------
/// Law: the first header with a name counts, whatever the case of its letters, and a
/// header that is not there is missing.
pub proof fn the_first_gmail_header_counts(headers: Seq<Json>, name: Seq<char>, k: int)
    requires
        0 <= k <= headers.len(),
        forall|j: int|
            0 <= j < k ==> (text_field(#[trigger] headers[j], "name"@) matches Some(n) ==> lower(n)
                != lower(name)),
        k < headers.len() ==> (text_field(headers[k], "name"@) matches Some(n) && lower(n) == lower(
            name,
        )),
    ensures
        named_header(headers, name) == if k < headers.len() {
            Some(headers[k])
        } else {
            None
        },
    decreases headers.len(),
{
    if headers.len() > 0 && k > 0 {
        let rest = headers.skip(1);
        assert(text_field(headers[0], "name"@) matches Some(n) ==> lower(n) != lower(name));
        assert forall|j: int| 0 <= j < k - 1 implies (text_field(#[trigger] rest[j], "name"@) matches Some(
            n,
        ) ==> lower(n) != lower(name)) by {
            assert(rest[j] == headers[j + 1]);
        }
        the_first_gmail_header_counts(rest, name, k - 1);
    }
}

/// Law: the value of a header is read from the headers of the part, cleaned.
pub proof fn gmail_headers_are_read_from_the_part(payload: Json, name: Seq<char>, headers: Seq<Json>)
    requires
        array_value(field(payload, "headers"@)) == Some(headers),
    ensures
        named_header(headers, name) is None ==> gmail_header_value(payload, name) is None,
        named_header(headers, name) matches Some(h) ==> (text_field(h, "value"@) matches Some(v)
            ==> gmail_header_value(payload, name) == Some(clean(v))),
{
}

/// The parts of a message, each before the parts below it.
pub open spec fn gmail_parts(payload: Json) -> Seq<Json>
    decreases payload, 0nat,
{
    proof {
        lemma_field_smaller(payload, "parts"@);
    }
    match array_value(field(payload, "parts"@)) {
        Some(parts) => seq![payload] + gmail_parts_all(parts),
        None => seq![payload],
    }
}

/// The parts of several messages, one message after the other.
pub open spec fn gmail_parts_all(parts: Seq<Json>) -> Seq<Json>
    decreases parts, parts.len(),
{
    if parts.len() == 0 {
        Seq::empty()
    } else {
        gmail_parts_all(parts.drop_last()) + gmail_parts(parts[parts.len() - 1])
    }
}

/// The file that a part of a message carries: one with a file name that is not
/// empty.
pub open spec fn gmail_file_in(p: Json) -> Option<AttachmentView> {
    match field(p, "filename"@) {
        Some(Json::Text(name)) => if name@.len() > 0 {
            Some(
                AttachmentView {
                    provider_attachment_id: text_value(
                        field_of(field(p, "body"@), "attachmentId"@),
                    ),
                    filename: name@,
                    mime_type: if text_field(p, "mimeType"@) is Some {
                        text_field(p, "mimeType"@)->Some_0
                    } else {
                        "application/octet-stream"@
                    },
                    size: if integer_value(field_of(field(p, "body"@), "size"@)) is Some {
                        integer_value(field_of(field(p, "body"@), "size"@))->Some_0
                    } else {
                        0
                    },
                    data: None,
                },
            )
        } else {
            None
        },
        _ => None,
    }
}

proof fn lemma_gmail_files_add(a: Seq<Json>, b: Seq<Json>)
    ensures
        (a + b).filter_map(|p: Json| gmail_file_in(p)) == a.filter_map(|p: Json| gmail_file_in(p))
            + b.filter_map(|p: Json| gmail_file_in(p)),
    decreases b.len(),
{
    let f = |p: Json| gmail_file_in(p);
    if b.len() == 0 {
        assert(a + b =~= a);
        assert(b.filter_map(f) =~= Seq::<AttachmentView>::empty());
        assert(a.filter_map(f) + b.filter_map(f) =~= a.filter_map(f));
    } else {
        lemma_gmail_files_add(a, b.drop_last());
        assert((a + b).drop_last() =~= a + b.drop_last());
        assert((a + b).last() == b.last());
        assert((a + b).filter_map(f) =~= a.filter_map(f) + b.filter_map(f));
    }
}

proof fn lemma_own_gmail_file(p: Json)
    ensures
        seq![p].filter_map(|p: Json| gmail_file_in(p)) == own_gmail_attachment(p),
{
    let f = |p: Json| gmail_file_in(p);
    let one = seq![p];
    assert(one.drop_last() =~= Seq::<Json>::empty());
    assert(one.drop_last().filter_map(f) =~= Seq::<AttachmentView>::empty());
    assert(one.last() == p);
    assert(one.filter_map(f) =~= own_gmail_attachment(p));
}

/// Law: every part of a message that carries a file gives one attachment, in the
/// order of the parts, however deep they stand; and nothing else gives one.
pub proof fn every_gmail_file_is_an_attachment(payload: Json)
    ensures
        gmail_attachments_of(payload) == gmail_parts(payload).filter_map(
            |p: Json| gmail_file_in(p),
        ),
    decreases payload, 0nat,
{
    lemma_field_smaller(payload, "parts"@);
    lemma_own_gmail_file(payload);
    if let Some(parts) = array_value(field(payload, "parts"@)) {
        lemma_gmail_files_all(parts);
        lemma_gmail_files_add(seq![payload], gmail_parts_all(parts));
    }
}

proof fn lemma_gmail_files_all(parts: Seq<Json>)
    ensures
        gmail_attachments_of_all(parts) == gmail_parts_all(parts).filter_map(
            |p: Json| gmail_file_in(p),
        ),
    decreases parts, parts.len(),
{
    let f = |p: Json| gmail_file_in(p);
    if parts.len() == 0 {
        assert(gmail_parts_all(parts).filter_map(f) =~= Seq::<AttachmentView>::empty());
    } else {
        let end = parts[parts.len() - 1];
        lemma_gmail_files_all(parts.drop_last());
        every_gmail_file_is_an_attachment(end);
        lemma_gmail_files_add(gmail_parts_all(parts.drop_last()), gmail_parts(end));
    }
}

/// Law: the bodies of several parts are those of the parts one after the other,
/// without those that are blank.
pub proof fn every_gmail_body_is_looked_at(a: Seq<Json>, b: Seq<Json>, one: Json)
    ensures
        gmail_bodies_of(a + b) == gmail_bodies_of(a) + gmail_bodies_of(b),
        blank(gmail_body_of(one).0) ==> gmail_bodies_of(seq![one]).len() == 0,
        !blank(gmail_body_of(one).0) ==> gmail_bodies_of(seq![one]) == seq![gmail_body_of(one)],
    decreases b.len(),
{
    assert(seq![one].drop_last() =~= Seq::<Json>::empty());
    assert(gmail_bodies_of(seq![one].drop_last()) =~= Seq::<(Seq<char>, Seq<char>)>::empty());
    assert(seq![one][seq![one].len() - 1] == one);
    assert(!blank(gmail_body_of(one).0) ==> gmail_bodies_of(seq![one]) =~= seq![gmail_body_of(one)]);
    if b.len() == 0 {
        assert(a + b =~= a);
        assert(gmail_bodies_of(a) + gmail_bodies_of(b) =~= gmail_bodies_of(a));
    } else {
        every_gmail_body_is_looked_at(a, b.drop_last(), one);
        assert((a + b).drop_last() =~= a + b.drop_last());
        assert((a + b)[(a + b).len() - 1] == b[b.len() - 1]);
        assert(gmail_bodies_of(a + b) =~= gmail_bodies_of(a) + gmail_bodies_of(b));
    }
}

/// Law: a part that holds data is read by it, as text of the type that it names; a
/// part that holds none is read by the parts below it.
pub proof fn gmail_bodies_are_the_data_of_parts(payload: Json, data: Seq<char>)
    ensures
        (text_value(field_of(field(payload, "body"@), "data"@)) == Some(data) && url_bytes(data) is Ok)
            ==> {
            &&& gmail_body_of(payload).0 == utf8_lossy(url_bytes(data)->Ok_0)
            &&& text_field(payload, "mimeType"@) matches Some(t) ==> gmail_body_of(payload).1
                == lower(t)
        },
        text_value(field_of(field(payload, "body"@), "data"@)) is None ==> (array_value(
            field(payload, "parts"@),
        ) matches Some(parts) ==> gmail_body_of(payload) == preferred(gmail_bodies_of(parts))),
{
}

/// Law: a message is dated by its own date; without one, by the second in which Gmail
/// got it; and only without either by `now`.
pub proof fn messages_are_dated_by_what_is_known(folder: Seq<char>, raw: Json, now: i64, ms: i64)
    ensures
        ({
            let date = gmail_header_value(payload_of(raw), "Date"@);
            let own = if date is Some {
                rfc2822_seconds(date->Some_0)
            } else {
                None
            };
            let received = text_field(raw, "internalDate"@);
            let m = gmail_message(folder, raw, now);
            &&& own matches Some(seconds) ==> m.date_ts == seconds
            &&& own is None && (received matches Some(t) && i64_of(t) == Some(ms)) && ms >= 0
                ==> m.date_ts * 1000 <= ms < (m.date_ts + 1) * 1000
            &&& own is None && (received matches Some(t) && i64_of(t) == Some(ms)) && ms < 0
                ==> (m.date_ts - 1) * 1000 < ms <= m.date_ts * 1000
            &&& own is None && (received matches Some(t) ==> i64_of(t) is None) ==> m.date_ts == now
        }),
{
}

/// Law: a message is unread exactly where Gmail labels it so.
pub proof fn unread_messages_are_labelled(raw: Json, labels: Seq<Json>)
    requires
        array_value(field(raw, "labelIds"@)) == Some(labels),
    ensures
        !gmail_is_read(raw) <==> exists|i: int|
            0 <= i < labels.len() && (#[trigger] labels[i] matches Json::Text(t) && t@ == "UNREAD"@),
{
    if !gmail_is_read(raw) {
        let i = choose|i: int|
            0 <= i < labels.len() && text_value(Some(#[trigger] labels[i])) == Some("UNREAD"@);
        assert(labels[i] matches Json::Text(t) && t@ == "UNREAD"@);
    }
    if exists|i: int|
        0 <= i < labels.len() && (#[trigger] labels[i] matches Json::Text(t) && t@ == "UNREAD"@) {
        let i = choose|i: int|
            0 <= i < labels.len() && (#[trigger] labels[i] matches Json::Text(t) && t@
                == "UNREAD"@);
        assert(text_value(Some(labels[i])) == Some("UNREAD"@));
    }
}

/// Law: what is stored of a message is what Gmail says of it: each field what the
/// header of its name says, the id and the thread what Gmail calls them, and the
/// folder the one that it was listed in.
pub proof fn stored_messages_say_what_gmail_says(folder: Seq<char>, raw: Json, now: i64)
    ensures
        ({
            let m = gmail_message(folder, raw, now);
            let p = payload_of(raw);
            &&& m.folder == folder && m.is_read == gmail_is_read(raw)
            &&& gmail_header_value(p, "Subject"@) matches Some(v) ==> m.subject == v
            &&& gmail_header_value(p, "Subject"@) is None ==> m.subject == "(no subject)"@
            &&& gmail_header_value(p, "From"@) matches Some(v) ==> m.from_addr == v
            &&& gmail_header_value(p, "From"@) is None ==> m.from_addr.len() == 0
            &&& gmail_header_value(p, "To"@) matches Some(v) ==> m.to_addr == v
            &&& gmail_header_value(p, "To"@) is None ==> m.to_addr.len() == 0
            &&& gmail_header_value(p, "Cc"@) matches Some(v) ==> m.cc_addr == v
            &&& gmail_header_value(p, "Cc"@) is None ==> m.cc_addr.len() == 0
            &&& (gmail_header_value(p, "Message-ID"@) matches Some(v) && message_ids(v).len() > 0)
                ==> m.message_header_id == message_ids(
                gmail_header_value(p, "Message-ID"@)->Some_0,
            )[0]
            &&& gmail_header_value(p, "In-Reply-To"@) matches Some(v) ==> m.in_reply_to == join(
                message_ids(v),
                seq![' '],
            )
            &&& gmail_header_value(p, "References"@) matches Some(v) ==> m.references_header == join(
                message_ids(v),
                seq![' '],
            )
            &&& text_field(raw, "id"@) matches Some(id) ==> m.provider_message_id == id
            &&& (text_field(raw, "threadId"@) matches Some(t) && t.len() > 0) ==> m.thread_id
                == text_field(raw, "threadId"@)->Some_0
            &&& text_field(raw, "threadId"@) is None ==> m.thread_id == conversation_id(
                m.message_header_id,
                m.in_reply_to,
                m.references_header,
                m.normalized_subject,
                m.provider_message_id,
            )
            &&& text_field(raw, "snippet"@) matches Some(s) ==> m.snippet == s
            &&& m.normalized_subject == subject_key(m.subject)
            &&& (m.body, m.body_mime) == gmail_body_of(p)
            &&& m.attachments == gmail_attachments_of(p)
            &&& field(raw, "payload"@) matches Some(payload) ==> p == payload
        }),
{
}

} // verus!
