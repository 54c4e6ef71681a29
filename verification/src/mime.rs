//! Mail as it travels: the parts of a message, its readable body, its
//! attachments, and the stored message made of them.
use vstd::prelude::*;
use vstd::string::*;

use crate::header::{clean, clean_header_value, normalize_subject_key, subject_key};
use crate::html::{snippet, snippet_for_body};
use crate::imap_id::{imap_location_key, imap_provider_message_id, location, provider_id};
use crate::message::{
    attachment_views, AttachmentView, MessageView, NewAttachment, NewMessage,
};
use crate::msgid::{
    conversation_id, conversation_id_from_headers, first_id, message_ids, nonblank, nonempty,
    normalize_message_id, normalize_message_id_header,
};
use crate::text::{
    blank, cat, copy, is_blank, join, lower, opt_as_str, opt_text, same, same_ignoring_case,
    to_lower,
};
use crate::words::space;

verus! {

// ---------------------------------------------------------------------------
// Parts
// ---------------------------------------------------------------------------
/// One part of a message, without the parts below it: how many these are, and
/// what the part itself says and holds. The text and the data are missing where
/// the part cannot be decoded.
pub struct FlatPart {
    pub headers: Vec<(String, String)>,
    pub mimetype: String,
    pub type_params: Vec<(String, String)>,
    pub attachment: bool,
    pub disposition_params: Vec<(String, String)>,
    pub text: Option<String>,
    pub data: Option<Vec<u8>>,
    pub children: usize,
}

/// The view of a [`FlatPart`].
pub struct FlatView {
    pub headers: Seq<(Seq<char>, Seq<char>)>,
    pub mimetype: Seq<char>,
    pub type_params: Seq<(Seq<char>, Seq<char>)>,
    pub attachment: bool,
    pub disposition_params: Seq<(Seq<char>, Seq<char>)>,
    pub text: Option<Seq<char>>,
    pub data: Option<Seq<u8>>,
    pub children: nat,
}

/// The texts of a list of pairs.
pub open spec fn pair_texts(pairs: Seq<(String, String)>) -> Seq<(Seq<char>, Seq<char>)> {
    Seq::new(pairs.len(), |i: int| (pairs[i].0@, pairs[i].1@))
}

/// The bytes that an optional vector holds.
pub open spec fn opt_bytes(o: Option<Vec<u8>>) -> Option<Seq<u8>> {
    match o {
        Some(v) => Some(v@),
        None => None,
    }
}

impl View for FlatPart {
    type V = FlatView;

    open spec fn view(&self) -> FlatView {
        FlatView {
            headers: pair_texts(self.headers@),
            mimetype: self.mimetype@,
            type_params: pair_texts(self.type_params@),
            attachment: self.attachment,
            disposition_params: pair_texts(self.disposition_params@),
            text: opt_text(self.text),
            data: opt_bytes(self.data),
            children: self.children as nat,
        }
    }
}

/// The views of a list of parts.
pub open spec fn flat_views(list: Seq<FlatPart>) -> Seq<FlatView> {
    Seq::new(list.len(), |i: int| list[i]@)
}

/// What is left of a list of parts behind `n` whole trees, where the list holds
/// that many: each part is followed by the parts below it.
pub open spec fn behind_trees(list: Seq<FlatView>, n: nat) -> Option<Seq<FlatView>>
    decreases list.len(),
{
    if n == 0 {
        Some(list)
    } else if list.len() == 0 {
        None
    } else {
        behind_trees(list.skip(1), (n - 1) as nat + list[0].children)
    }
}

/// The parts of a mail, each before the parts below it, or why the bytes are no
/// mail.
pub uninterp spec fn mail_parts(raw: Seq<u8>) -> Result<Seq<FlatView>, Seq<char>>;

/// `mailparse::parse_mail`, and the parts of the mail that it finds, in the order
/// of `ParsedMail::parts`: depth first, each part before its subparts, starting
/// with the mail itself. So the list is that of one whole tree. Of each part it
/// takes the keys and values of the headers, the content type, whether
/// `get_content_disposition` says attachment, the number of subparts, and what
/// `get_body` and `get_body_raw` give.
#[verifier::external_body]
fn parse_parts(raw: &[u8]) -> (r: Result<Vec<FlatPart>, String>)
    ensures
        match r {
            Ok(parts) => mail_parts(raw@) == Ok::<Seq<FlatView>, Seq<char>>(flat_views(parts@))
                && behind_trees(flat_views(parts@), 1) == Some(Seq::<FlatView>::empty()),
            Err(e) => mail_parts(raw@) == Err::<Seq<FlatView>, Seq<char>>(e@),
        },
{
    let mail = mailparse::parse_mail(raw).map_err(|e| e.to_string())?;
    let part = |p: &mailparse::ParsedMail<'_>| FlatPart {
        headers: p.headers.iter().map(|h| (h.get_key(), h.get_value())).collect(),
        mimetype: p.ctype.mimetype.clone(),
        type_params: p.ctype.params.clone().into_iter().collect(),
        attachment: p.get_content_disposition().disposition == mailparse::DispositionType::Attachment,
        disposition_params: p.get_content_disposition().params.into_iter().collect(),
        text: p.get_body().ok(),
        data: p.get_body_raw().ok(),
        children: p.subparts.len(),
    };
    Ok(mail.parts().map(part).collect())
}

/// A part of a message with the parts below it.
pub struct MailPart {
    pub headers: Vec<(String, String)>,
    pub mimetype: String,
    pub type_params: Vec<(String, String)>,
    pub attachment: bool,
    pub disposition_params: Vec<(String, String)>,
    pub text: Option<String>,
    pub data: Option<Vec<u8>>,
    pub subparts: Vec<MailPart>,
}

impl MailPart {
    /// The part without the parts below it.
    pub open spec fn head(self) -> FlatView {
        FlatView {
            headers: pair_texts(self.headers@),
            mimetype: self.mimetype@,
            type_params: pair_texts(self.type_params@),
            attachment: self.attachment,
            disposition_params: pair_texts(self.disposition_params@),
            text: opt_text(self.text),
            data: opt_bytes(self.data),
            children: self.subparts@.len(),
        }
    }
}

/// The parts of a tree, each before the parts below it.
pub open spec fn flattened(part: MailPart) -> Seq<FlatView>
    decreases part, 0nat,
{
    seq![part.head()] + flattened_all(part.subparts@)
}

/// The parts of several trees, one tree after the other.
pub open spec fn flattened_all(parts: Seq<MailPart>) -> Seq<FlatView>
    decreases parts, parts.len(),
{
    if parts.len() == 0 {
        Seq::empty()
    } else {
        flattened(parts[0]) + flattened_all(parts.skip(1))
    }
}

// ---------------------------------------------------------------------------
// From lists of parts to trees
// ---------------------------------------------------------------------------
/// The parts of a stack, from its top down.
pub open spec fn from_top(stack: Seq<FlatPart>) -> Seq<FlatView> {
    Seq::new(stack.len(), |i: int| stack[stack.len() - 1 - i]@)
}

proof fn lemma_behind_split(list: Seq<FlatView>, a: nat, b: nat)
    ensures
        behind_trees(list, a + b) == match behind_trees(list, a) {
            Some(rest) => behind_trees(rest, b),
            None => None,
        },
    decreases list.len(),
{
    if a > 0 && list.len() > 0 {
        let c = list[0].children;
        lemma_behind_split(list.skip(1), (a - 1) as nat + c, b);
        assert((a + b - 1) as nat + c == (a - 1) as nat + c + b);
    }
}

proof fn lemma_flattened_push(parts: Seq<MailPart>, part: MailPart)
    ensures
        flattened_all(parts.push(part)) == flattened_all(parts) + flattened(part),
    decreases parts.len(),
{
    let all = parts.push(part);
    if parts.len() == 0 {
        assert(all.skip(1) =~= Seq::<MailPart>::empty());
        assert(flattened_all(all.skip(1)) =~= Seq::<FlatView>::empty());
        assert(flattened_all(all) =~= flattened_all(parts) + flattened(part));
    } else {
        lemma_flattened_push(parts.skip(1), part);
        assert(all.skip(1) =~= parts.skip(1).push(part));
        assert(flattened_all(all) =~= flattened_all(parts) + flattened(part));
    }
}

/// Takes `n` trees from the top of a stack of parts.
fn take_trees(stack: &mut Vec<FlatPart>, n: usize) -> (r: Option<Vec<MailPart>>)
    ensures
        final(stack).len() <= old(stack).len(),
        match r {
            Some(trees) => {
                &&& trees.len() == n
                &&& flattened_all(trees@) + from_top(final(stack)@) == from_top(old(stack)@)
                &&& behind_trees(from_top(old(stack)@), n as nat) == Some(from_top(final(stack)@))
            },
            None => behind_trees(from_top(old(stack)@), n as nat) is None,
        },
    decreases old(stack).len(),
{
    let ghost all = from_top(stack@);
    let ghost height = stack.len();
    let mut trees: Vec<MailPart> = Vec::new();
    assert(flattened_all(trees@) + from_top(stack@) =~= all);
    while trees.len() < n
        invariant
            trees.len() <= n,
            stack.len() <= height,
            height == old(stack).len(),
            all == from_top(old(stack)@),
            flattened_all(trees@) + from_top(stack@) == all,
            behind_trees(all, n as nat) == behind_trees(from_top(stack@), (n - trees.len()) as nat),
        decreases n - trees.len(),
    {
        let ghost before = from_top(stack@);
        let head = match stack.pop() {
            Some(head) => head,
            None => {
                return None;
            },
        };
        let ghost rest = from_top(stack@);
        let ghost left = (n - trees.len()) as nat;
        let ghost done = trees@;
        proof {
            assert(before.skip(1) =~= rest);
            assert(before[0] == head@);
            lemma_behind_split(rest, head@.children, (left - 1) as nat);
        }
        let subparts = match take_trees(stack, head.children) {
            Some(subparts) => subparts,
            None => {
                return None;
            },
        };
        let part = MailPart {
            headers: head.headers,
            mimetype: head.mimetype,
            type_params: head.type_params,
            attachment: head.attachment,
            disposition_params: head.disposition_params,
            text: head.text,
            data: head.data,
            subparts,
        };
        proof {
            assert(part.head() == head@);
            lemma_flattened_push(done, part);
            assert(before =~= seq![head@] + rest);
            assert(flattened(part) + from_top(stack@) =~= before);
            assert(flattened_all(done.push(part)) + from_top(stack@) =~= all);
        }
        trees.push(part);
    }
    Some(trees)
}

/// The tree that a list of parts is that of.
pub fn mail_tree(parts: Vec<FlatPart>) -> (r: Option<MailPart>)
    ensures
        match r {
            Some(tree) => flattened(tree) == flat_views(parts@),
            None => behind_trees(flat_views(parts@), 1) != Some(Seq::<FlatView>::empty()),
        },
{
    let ghost all = flat_views(parts@);
    let mut parts = parts;
    let mut stack: Vec<FlatPart> = Vec::new();
    let ghost listed = parts@;
    while parts.len() > 0
        invariant
            parts@.len() + stack@.len() == listed.len(),
            parts@ == listed.take(parts@.len() as int),
            forall|i: int| 0 <= i < stack@.len() ==> stack@[i] == listed[listed.len() - 1 - i],
        decreases parts.len(),
    {
        if let Some(part) = parts.pop() {
            stack.push(part);
        }
    }
    assert(from_top(stack@) =~= all);
    match take_trees(&mut stack, 1) {
        Some(mut trees) => {
            if stack.len() > 0 {
                return None;
            }
            proof {
                assert(from_top(stack@) =~= Seq::<FlatView>::empty());
                assert(flattened_all(trees@.skip(1)) =~= Seq::<FlatView>::empty());
                assert(flattened(trees@[0]) =~= all);
            }
            trees.pop()
        },
        None => None,
    }
}

// ---------------------------------------------------------------------------
// Headers and parameters
// ---------------------------------------------------------------------------
/// The value of the first header with the name `name`, whatever its case.
pub open spec fn header_value(headers: Seq<(Seq<char>, Seq<char>)>, name: Seq<char>) -> Option<
    Seq<char>,
>
    decreases headers.len(),
{
    if headers.len() == 0 {
        None
    } else if lower(headers[0].0) == lower(name) {
        Some(headers[0].1)
    } else {
        header_value(headers.skip(1), name)
    }
}

/// Computes [`header_value`].
fn first_header(headers: &Vec<(String, String)>, name: &str) -> (r: Option<String>)
    ensures
        opt_text(r) == header_value(pair_texts(headers@), name@),
{
    let ghost all = pair_texts(headers@);
    let mut i: usize = 0;
    assert(all.skip(0) =~= all);
    while i < headers.len()
        invariant
            i <= headers.len(),
            all == pair_texts(headers@),
            header_value(all.skip(i as int), name@) == header_value(all, name@),
        decreases headers.len() - i,
    {
        assert(all.skip(i as int).skip(1) =~= all.skip(i + 1));
        if same_ignoring_case(headers[i].0.as_str(), name) {
            return Some(copy(&headers[i].1));
        }
        i = i + 1;
    }
    None
}

/// The value of the first parameter with the name `name`.
pub open spec fn param_value(params: Seq<(Seq<char>, Seq<char>)>, name: Seq<char>) -> Option<
    Seq<char>,
>
    decreases params.len(),
{
    if params.len() == 0 {
        None
    } else if params[0].0 == name {
        Some(params[0].1)
    } else {
        param_value(params.skip(1), name)
    }
}

/// Computes [`param_value`].
fn first_param(params: &Vec<(String, String)>, name: &str) -> (r: Option<String>)
    ensures
        opt_text(r) == param_value(pair_texts(params@), name@),
{
    let ghost all = pair_texts(params@);
    let mut i: usize = 0;
    assert(all.skip(0) =~= all);
    while i < params.len()
        invariant
            i <= params.len(),
            all == pair_texts(params@),
            param_value(all.skip(i as int), name@) == param_value(all, name@),
        decreases params.len() - i,
    {
        assert(all.skip(i as int).skip(1) =~= all.skip(i + 1));
        if same(params[i].0.as_str(), name) {
            return Some(copy(&params[i].1));
        }
        i = i + 1;
    }
    None
}

/// A header of a part, cleaned.
pub open spec fn clean_header(part: MailPart, name: Seq<char>) -> Option<Seq<char>> {
    match header_value(pair_texts(part.headers@), name) {
        Some(value) => Some(clean(value)),
        None => None,
    }
}

/// Computes [`clean_header`].
pub fn parsed_header(part: &MailPart, name: &str) -> (r: Option<String>)
    ensures
        opt_text(r) == clean_header(*part, name@),
{
    match first_header(&part.headers, name) {
        Some(value) => Some(clean_header_value(value.as_str())),
        None => None,
    }
}

// ---------------------------------------------------------------------------
// Bodies
// ---------------------------------------------------------------------------
/// The first of some bodies that is HTML, or else the first of them, or else an
/// empty plain text.
pub open spec fn preferred(bodies: Seq<(Seq<char>, Seq<char>)>) -> (Seq<char>, Seq<char>) {
    match first_html(bodies) {
        Some(body) => body,
        None => if bodies.len() > 0 {
            bodies[0]
        } else {
            (Seq::empty(), "text/plain"@)
        },
    }
}

/// The first of some bodies that is HTML.
pub open spec fn first_html(bodies: Seq<(Seq<char>, Seq<char>)>) -> Option<(Seq<char>, Seq<char>)>
    decreases bodies.len(),
{
    if bodies.len() == 0 {
        None
    } else if lower(bodies[0].1) == "text/html"@ {
        Some(bodies[0])
    } else {
        first_html(bodies.skip(1))
    }
}

/// Computes [`preferred`].
pub fn preferred_body(bodies: &Vec<(String, String)>) -> (r: (String, String))
    ensures
        (r.0@, r.1@) == preferred(pair_texts(bodies@)),
{
    let ghost all = pair_texts(bodies@);
    proof {
        reveal_strlit("text/html");
        assert(lower("text/html"@) =~= "text/html"@);
    }
    let mut i: usize = 0;
    assert(all.skip(0) =~= all);
    while i < bodies.len()
        invariant
            i <= bodies.len(),
            all == pair_texts(bodies@),
            lower("text/html"@) == "text/html"@,
            first_html(all.skip(i as int)) == first_html(all),
        decreases bodies.len() - i,
    {
        assert(all.skip(i as int).skip(1) =~= all.skip(i + 1));
        if same_ignoring_case(bodies[i].1.as_str(), "text/html") {
            return (copy(&bodies[i].0), copy(&bodies[i].1));
        }
        i = i + 1;
    }
    if bodies.len() > 0 {
        (copy(&bodies[0].0), copy(&bodies[0].1))
    } else {
        (String::new(), "text/plain".to_owned())
    }
}

/// The readable body of a part and its type. A part without parts below it is
/// readable where it is text and no attachment; of the others the preferred body
/// among those below counts.
pub open spec fn body_of(part: MailPart) -> (Seq<char>, Seq<char>)
    decreases part, 0nat,
{
    if part.subparts@.len() == 0 {
        let mime = lower(part.mimetype@);
        if !part.attachment && (mime == "text/plain"@ || mime == "text/html"@) {
            (
                match part.text {
                    Some(text) => text@,
                    None => Seq::empty(),
                },
                mime,
            )
        } else {
            (Seq::empty(), "text/plain"@)
        }
    } else {
        preferred(bodies_of(part.subparts@))
    }
}

/// The bodies of several parts that are not blank.
pub open spec fn bodies_of(parts: Seq<MailPart>) -> Seq<(Seq<char>, Seq<char>)>
    decreases parts, parts.len(),
{
    if parts.len() == 0 {
        Seq::empty()
    } else {
        let rest = bodies_of(parts.drop_last());
        let body = body_of(parts[parts.len() - 1]);
        if blank(body.0) {
            rest
        } else {
            rest.push(body)
        }
    }
}

/// Computes [`body_of`].
pub fn parsed_body(part: &MailPart) -> (r: (String, String))
    ensures
        (r.0@, r.1@) == body_of(*part),
    decreases part,
{
    if part.subparts.len() == 0 {
        let mimetype = to_lower(part.mimetype.as_str());
        if part.attachment {
            return (String::new(), "text/plain".to_owned());
        }
        if same(mimetype.as_str(), "text/plain") || same(mimetype.as_str(), "text/html") {
            let text = match &part.text {
                Some(text) => copy(text),
                None => String::new(),
            };
            return (text, mimetype);
        }
        return (String::new(), "text/plain".to_owned());
    }
    let mut bodies: Vec<(String, String)> = Vec::new();
    let mut i: usize = 0;
    assert(part.subparts@.take(0) =~= Seq::<MailPart>::empty());
    assert(pair_texts(bodies@) =~= bodies_of(part.subparts@.take(0)));
    while i < part.subparts.len()
        invariant
            i <= part.subparts.len(),
            pair_texts(bodies@) == bodies_of(part.subparts@.take(i as int)),
        decreases part.subparts.len() - i,
    {
        let body = parsed_body(&part.subparts[i]);
        proof {
            let now = part.subparts@.take(i + 1);
            assert(now.drop_last() =~= part.subparts@.take(i as int));
            assert(now[now.len() - 1] == part.subparts@[i as int]);
        }
        if !is_blank(body.0.as_str()) {
            let ghost before = pair_texts(bodies@);
            let ghost added = (body.0@, body.1@);
            bodies.push(body);
            assert(pair_texts(bodies@) =~= before.push(added));
        }
        i = i + 1;
    }
    assert(part.subparts@.take(part.subparts.len() as int) =~= part.subparts@);
    preferred_body(&bodies)
}

// ---------------------------------------------------------------------------
// Attachments
// ---------------------------------------------------------------------------
/// The file name of a part.
pub open spec fn file_name(part: MailPart) -> Option<Seq<char>> {
    match param_value(pair_texts(part.disposition_params@), "filename"@) {
        Some(name) => Some(name),
        None => param_value(pair_texts(part.type_params@), "name"@),
    }
}

/// The attachment that a part is: one with a file name, which may be empty only
/// where the part says that it is an attachment.
pub open spec fn own_attachment(part: MailPart) -> Seq<AttachmentView> {
    match file_name(part) {
        Some(name) => if part.attachment || name.len() > 0 {
            let data = match part.data {
                Some(data) => data@,
                None => Seq::empty(),
            };
            seq![
                AttachmentView {
                    provider_attachment_id: None,
                    filename: name,
                    mime_type: part.mimetype@,
                    size: data.len() as i64,
                    data: Some(data),
                },
            ]
        } else {
            Seq::empty()
        },
        None => Seq::empty(),
    }
}

/// The attachments of a part and of the parts below it, in order.
pub open spec fn attachments_of(part: MailPart) -> Seq<AttachmentView>
    decreases part, 0nat,
{
    own_attachment(part) + attachments_of_all(part.subparts@)
}

/// The attachments of several parts, in order.
pub open spec fn attachments_of_all(parts: Seq<MailPart>) -> Seq<AttachmentView>
    decreases parts, parts.len(),
{
    if parts.len() == 0 {
        Seq::empty()
    } else {
        attachments_of_all(parts.drop_last()) + attachments_of(parts[parts.len() - 1])
    }
}

/// Computes [`attachments_of`].
pub fn parsed_attachments(part: &MailPart) -> (r: Vec<NewAttachment>)
    ensures
        attachment_views(r@) == attachments_of(*part),
{
    let mut attachments: Vec<NewAttachment> = Vec::new();
    collect_parsed_attachments(part, &mut attachments);
    assert(attachment_views(attachments@) =~= attachments_of(*part));
    attachments
}

/// Appends the attachments of a part and of the parts below it.
pub fn collect_parsed_attachments(part: &MailPart, attachments: &mut Vec<NewAttachment>)
    ensures
        attachment_views(final(attachments)@) == attachment_views(old(attachments)@)
            + attachments_of(*part),
    decreases part,
{
    let ghost before = attachment_views(attachments@);
    let filename = match first_param(&part.disposition_params, "filename") {
        Some(name) => Some(name),
        None => first_param(&part.type_params, "name"),
    };
    if let Some(filename) = filename {
        if part.attachment || !filename.as_str().is_empty() {
            let data = match &part.data {
                Some(data) => copy_bytes(data),
                None => Vec::new(),
            };
            let attachment = NewAttachment {
                provider_attachment_id: None,
                filename,
                mime_type: copy(&part.mimetype),
                size: data.len() as i64,
                data: Some(data),
            };
            attachments.push(attachment);
        }
    }
    assert(attachment_views(attachments@) =~= before + own_attachment(*part));
    let ghost own = attachment_views(attachments@);
    let mut i: usize = 0;
    assert(part.subparts@.take(0) =~= Seq::<MailPart>::empty());
    assert(own + attachments_of_all(part.subparts@.take(0)) =~= own);
    while i < part.subparts.len()
        invariant
            i <= part.subparts.len(),
            attachment_views(attachments@) == own + attachments_of_all(part.subparts@.take(i as int)),
        decreases part.subparts.len() - i,
    {
        let ghost so_far = attachment_views(attachments@);
        collect_parsed_attachments(&part.subparts[i], attachments);
        proof {
            let now = part.subparts@.take(i + 1);
            assert(now.drop_last() =~= part.subparts@.take(i as int));
            assert(now[now.len() - 1] == part.subparts@[i as int]);
            assert(attachment_views(attachments@) =~= own + attachments_of_all(now));
        }
        i = i + 1;
    }
    assert(part.subparts@.take(part.subparts.len() as int) =~= part.subparts@);
    assert(attachment_views(attachments@) =~= before + attachments_of(*part));
}

/// A copy of some bytes.
pub fn copy_bytes(data: &Vec<u8>) -> (r: Vec<u8>)
    ensures
        r@ == data@,
{
    let mut r: Vec<u8> = Vec::new();
    let mut i: usize = 0;
    while i < data.len()
        invariant
            i <= data.len(),
            r@ == data@.take(i as int),
        decreases data.len() - i,
    {
        r.push(data[i]);
        i = i + 1;
    }
    assert(data@.take(data.len() as int) =~= data@);
    r
}

// ---------------------------------------------------------------------------
// Messages
// ---------------------------------------------------------------------------
/// The seconds since the start of 1970 that a date in a mail header names.
pub uninterp spec fn rfc2822_seconds(date: Seq<char>) -> Option<i64>;

/// `chrono::DateTime::parse_from_rfc2822` and `timestamp` of the date that it
/// reads; nothing where it reads none.
#[verifier::external_body]
pub(crate) fn parse_rfc2822(date: &str) -> (r: Option<i64>)
    ensures
        r == rfc2822_seconds(date@),
{
    chrono::DateTime::parse_from_rfc2822(date).ok().map(|date| date.timestamp())
}

/// The ids that a header lists, normalized; empty where the header is missing.
pub open spec fn id_header(value: Option<Seq<char>>) -> Seq<char> {
    match value {
        Some(v) => join(message_ids(v), space()),
        None => Seq::empty(),
    }
}

/// The id that a header starts with; empty where there is none.
pub open spec fn own_id(value: Option<Seq<char>>) -> Seq<char> {
    match value {
        Some(v) => match first_id(v) {
            Some(id) => id,
            None => Seq::empty(),
        },
        None => Seq::empty(),
    }
}

/// Computes [`own_id`].
pub(crate) fn header_message_id(value: &Option<String>) -> (r: String)
    ensures
        r@ == own_id(opt_text(*value)),
{
    match value {
        Some(v) => match normalize_message_id(v.as_str()) {
            Some(id) => id,
            None => String::new(),
        },
        None => String::new(),
    }
}

/// A text, or another where it is missing.
pub open spec fn text_or(value: Option<Seq<char>>, other: Seq<char>) -> Seq<char> {
    match value {
        Some(v) => v,
        None => other,
    }
}

/// Computes [`text_or`].
pub(crate) fn string_or(value: Option<String>, other: &str) -> (r: String)
    ensures
        r@ == text_or(opt_text(value), other@),
{
    match value {
        Some(v) => v,
        None => other.to_owned(),
    }
}

/// The stored message for a mail in the folder `folder` of a server, kept under
/// `role`. A mail without a date that can be read is dated `now`.
pub open spec fn mail_message(
    role: Seq<char>,
    folder: Seq<char>,
    uid: u32,
    mail: MailPart,
    is_read: bool,
    now: i64,
) -> MessageView {
    let subject = text_or(clean_header(mail, "Subject"@), "(no subject)"@);
    let message_header_id = own_id(clean_header(mail, "Message-ID"@));
    let in_reply_to = id_header(clean_header(mail, "In-Reply-To"@));
    let references_header = id_header(clean_header(mail, "References"@));
    let normalized_subject = subject_key(subject);
    let (body, body_mime) = body_of(mail);
    MessageView {
        provider_message_id: provider_id(folder, uid, nonblank(message_header_id)),
        thread_id: conversation_id(
            message_header_id,
            in_reply_to,
            references_header,
            normalized_subject,
            "imap-location:"@ + location(folder, uid),
        ),
        message_header_id,
        in_reply_to,
        references_header,
        normalized_subject,
        folder: role,
        subject,
        from_addr: text_or(clean_header(mail, "From"@), Seq::empty()),
        to_addr: text_or(clean_header(mail, "To"@), Seq::empty()),
        cc_addr: text_or(clean_header(mail, "Cc"@), Seq::empty()),
        date_ts: match header_value(pair_texts(mail.headers@), "Date"@) {
            Some(date) => match rfc2822_seconds(date) {
                Some(seconds) => seconds,
                None => now,
            },
            None => now,
        },
        snippet: snippet(body, body_mime),
        body,
        body_mime,
        is_read,
        attachments: attachments_of(mail),
    }
}

/// Computes [`mail_message`].
pub fn message_from_mail(
    role: &str,
    folder: &str,
    uid: u32,
    mail: &MailPart,
    is_read: bool,
    now: i64,
) -> (r: NewMessage)
    ensures
        r@ == mail_message(role@, folder@, uid, *mail, is_read, now),
{
    proof {
        reveal_strlit("");
        assert(""@ =~= Seq::<char>::empty());
    }
    let subject = string_or(parsed_header(mail, "Subject"), "(no subject)");
    let from_addr = string_or(parsed_header(mail, "From"), "");
    let to_addr = string_or(parsed_header(mail, "To"), "");
    let cc_addr = string_or(parsed_header(mail, "Cc"), "");
    let message_header_id = header_message_id(&parsed_header(mail, "Message-ID"));
    let in_reply_to = parsed_header(mail, "In-Reply-To");
    let in_reply_to = normalize_message_id_header(opt_as_str(&in_reply_to));
    let references_header = parsed_header(mail, "References");
    let references_header = normalize_message_id_header(opt_as_str(&references_header));
    let normalized_subject = normalize_subject_key(subject.as_str());
    let date_ts = match first_header(&mail.headers, "Date") {
        Some(date) => match parse_rfc2822(date.as_str()) {
            Some(seconds) => seconds,
            None => now,
        },
        None => now,
    };
    let (body, body_mime) = parsed_body(mail);
    let attachments = parsed_attachments(mail);
    let snippet = snippet_for_body(body.as_str(), body_mime.as_str());
    let provider_message_id = imap_provider_message_id(
        folder,
        uid,
        nonempty(message_header_id.as_str()),
    );
    let key = imap_location_key(folder, uid);
    let fallback = cat("imap-location:", key.as_str());
    let thread_id = conversation_id_from_headers(
        message_header_id.as_str(),
        in_reply_to.as_str(),
        references_header.as_str(),
        normalized_subject.as_str(),
        fallback.as_str(),
    );
    NewMessage {
        provider_message_id,
        thread_id,
        message_header_id,
        in_reply_to,
        references_header,
        normalized_subject,
        folder: role.to_owned(),
        subject,
        from_addr,
        to_addr,
        cc_addr,
        date_ts,
        snippet,
        body,
        body_mime,
        is_read,
        attachments,
    }
}

/// A tree with the given parts.
pub open spec fn tree_of(parts: Seq<FlatView>) -> MailPart {
    choose|mail: MailPart| #[trigger] flattened(mail) == parts
}

/// The stored message for the bytes of a mail, or why the bytes are no mail.
pub open spec fn read_mail(
    role: Seq<char>,
    folder: Seq<char>,
    uid: u32,
    raw: Seq<u8>,
    is_read: bool,
    now: i64,
) -> Result<MessageView, Seq<char>> {
    match mail_parts(raw) {
        Ok(parts) => Ok(mail_message(role, folder, uid, tree_of(parts), is_read, now)),
        Err(e) => Err(e),
    }
}

/// The views of a message that was read.
pub open spec fn message_result(r: Result<NewMessage, String>) -> Result<MessageView, Seq<char>> {
    match r {
        Ok(message) => Ok(message@),
        Err(e) => Err(e@),
    }
}

/// Computes [`read_mail`].
pub fn imap_to_message(
    role: &str,
    folder: &str,
    uid: u32,
    raw: &[u8],
    is_read: bool,
    now: i64,
) -> (r: Result<NewMessage, String>)
    ensures
        message_result(r) == read_mail(role@, folder@, uid, raw@, is_read, now),
{
    let parts = match parse_parts(raw) {
        Ok(parts) => parts,
        Err(e) => {
            return Err(e);
        },
    };
    let ghost views = flat_views(parts@);
    match mail_tree(parts) {
        Some(mail) => {
            proof {
                assert(flattened(mail) == views);
                same_parts_same_message(
                    role@,
                    folder@,
                    uid,
                    mail,
                    tree_of(views),
                    is_read,
                    now,
                );
            }
            Ok(message_from_mail(role, folder, uid, &mail, is_read, now))
        },
        None => {
            assert(false);
            Err(String::new())
        },
    }
}

// ---------------------------------------------------------------------------
// The parts of a mail determine what is made of it
// ---------------------------------------------------------------------------
/// Lists of trees with the same parts in the same order agree tree by tree.
proof fn lemma_same_trees(a: Seq<MailPart>, b: Seq<MailPart>, x: Seq<FlatView>, y: Seq<FlatView>)
    requires
        a.len() == b.len(),
        flattened_all(a) + x == flattened_all(b) + y,
    ensures
        x == y,
        flattened_all(a) == flattened_all(b),
        forall|i: int| 0 <= i < a.len() ==> flattened(#[trigger] a[i]) == flattened(b[i]),
    decreases flattened_all(a).len(), a.len(),
{
    if a.len() == 0 {
        assert(flattened_all(a) + x =~= x);
        assert(flattened_all(b) + y =~= y);
    } else {
        let sa = a[0].subparts@;
        let sb = b[0].subparts@;
        let ra = a.skip(1);
        let rb = b.skip(1);
        let left = flattened_all(a) + x;
        let right = flattened_all(b) + y;
        reveal_with_fuel(flattened, 2);
        assert(flattened_all(a) == flattened(a[0]) + flattened_all(ra));
        assert(flattened_all(b) == flattened(b[0]) + flattened_all(rb));
        assert(flattened(a[0]) == seq![a[0].head()] + flattened_all(sa));
        assert(flattened(b[0]) == seq![b[0].head()] + flattened_all(sb));
        assert(left[0] == a[0].head());
        assert(right[0] == b[0].head());
        assert(left.skip(1) =~= flattened_all(sa) + (flattened_all(ra) + x));
        assert(right.skip(1) =~= flattened_all(sb) + (flattened_all(rb) + y));
        lemma_same_trees(sa, sb, flattened_all(ra) + x, flattened_all(rb) + y);
        lemma_same_trees(ra, rb, x, y);
        assert forall|i: int| 0 <= i < a.len() implies flattened(#[trigger] a[i]) == flattened(
            b[i],
        ) by {
            if i > 0 {
                assert(a[i] == ra[i - 1]);
                assert(b[i] == rb[i - 1]);
                assert(flattened(ra[i - 1]) == flattened(rb[i - 1]));
            }
        }
    }
}

/// Trees with the same parts have the same body and the same attachments.
proof fn lemma_same_content(a: MailPart, b: MailPart)
    requires
        flattened(a) == flattened(b),
    ensures
        a.head() == b.head(),
        body_of(a) == body_of(b),
        attachments_of(a) == attachments_of(b),
    decreases a, 0nat,
{
    assert(flattened(a)[0] == a.head());
    assert(flattened(b)[0] == b.head());
    assert(flattened(a).skip(1) =~= flattened_all(a.subparts@));
    assert(flattened(b).skip(1) =~= flattened_all(b.subparts@));
    let none = Seq::<FlatView>::empty();
    assert(flattened_all(a.subparts@) + none =~= flattened_all(a.subparts@));
    assert(flattened_all(b.subparts@) + none =~= flattened_all(b.subparts@));
    lemma_same_trees(a.subparts@, b.subparts@, none, none);
    lemma_same_content_all(a.subparts@, b.subparts@);
    assert(opt_text(a.text) == opt_text(b.text));
    assert(opt_bytes(a.data) == opt_bytes(b.data));
    assert(pair_texts(a.disposition_params@) == pair_texts(b.disposition_params@));
    assert(pair_texts(a.type_params@) == pair_texts(b.type_params@));
    assert(own_attachment(a) =~= own_attachment(b));
}

proof fn lemma_same_content_all(a: Seq<MailPart>, b: Seq<MailPart>)
    requires
        a.len() == b.len(),
        forall|i: int| 0 <= i < a.len() ==> flattened(#[trigger] a[i]) == flattened(b[i]),
    ensures
        bodies_of(a) == bodies_of(b),
        attachments_of_all(a) == attachments_of_all(b),
    decreases a, a.len(),
{
    if a.len() > 0 {
        let i = a.len() - 1;
        assert(flattened(a[i]) == flattened(b[i]));
        lemma_same_content(a[i], b[i]);
        let fa = a.drop_last();
        let fb = b.drop_last();
        assert forall|k: int| 0 <= k < fa.len() implies flattened(#[trigger] fa[k]) == flattened(
            fb[k],
        ) by {
            assert(flattened(a[k]) == flattened(b[k]));
        }
        lemma_same_content_all(fa, fb);
    }
}

/// Law: two mails with the same parts give the same message.
pub proof fn same_parts_same_message(
    role: Seq<char>,
    folder: Seq<char>,
    uid: u32,
    a: MailPart,
    b: MailPart,
    is_read: bool,
    now: i64,
)
    requires
        flattened(a) == flattened(b),
    ensures
        mail_message(role, folder, uid, a, is_read, now) == mail_message(
            role,
            folder,
            uid,
            b,
            is_read,
            now,
        ),
{
    lemma_same_content(a, b);
    assert(pair_texts(a.headers@) == pair_texts(b.headers@));
}

// ---------------------------------------------------------------------------
// Laws
// ---------------------------------------------------------------------------
/// Law: the first header with a name counts, whatever the case of its letters, and a
/// header that is not there has no value.
pub proof fn the_first_header_counts(
    headers: Seq<(Seq<char>, Seq<char>)>,
    name: Seq<char>,
    k: int,
)
    requires
        0 <= k <= headers.len(),
        forall|j: int| 0 <= j < k ==> lower((#[trigger] headers[j]).0) != lower(name),
        k < headers.len() ==> lower(headers[k].0) == lower(name),
    ensures
        header_value(headers, name) == if k < headers.len() {
            Some(headers[k].1)
        } else {
            None
        },
    decreases headers.len(),
{
    if headers.len() > 0 && k > 0 {
        let rest = headers.skip(1);
        assert(lower(headers[0].0) != lower(name));
        assert forall|j: int| 0 <= j < k - 1 implies lower((#[trigger] rest[j]).0) != lower(name) by {
            assert(rest[j] == headers[j + 1]);
        }
        the_first_header_counts(rest, name, k - 1);
    }
}

/// Law: the first parameter with a name counts, and one that is not there has no
/// value.
pub proof fn the_first_parameter_counts(
    params: Seq<(Seq<char>, Seq<char>)>,
    name: Seq<char>,
    k: int,
)
    requires
        0 <= k <= params.len(),
        forall|j: int| 0 <= j < k ==> (#[trigger] params[j]).0 != name,
        k < params.len() ==> params[k].0 == name,
    ensures
        param_value(params, name) == if k < params.len() {
            Some(params[k].1)
        } else {
            None
        },
    decreases params.len(),
{
    if params.len() > 0 && k > 0 {
        let rest = params.skip(1);
        assert(params[0].0 != name);
        assert forall|j: int| 0 <= j < k - 1 implies (#[trigger] rest[j]).0 != name by {
            assert(rest[j] == params[j + 1]);
        }
        the_first_parameter_counts(rest, name, k - 1);
    }
}

/// The file that a part of a mail carries: a part with a file name that is not
/// empty, or with any file name where the part says that it is an attachment. The
/// name stands with the disposition of the part, or else with its type.
pub open spec fn file_in(p: FlatView) -> Option<AttachmentView> {
    let given = param_value(p.disposition_params, "filename"@);
    let name = if given is Some {
        given
    } else {
        param_value(p.type_params, "name"@)
    };
    if name is Some && (p.attachment || name->Some_0.len() > 0) {
        let bytes = if p.data is Some {
            p.data->Some_0
        } else {
            Seq::empty()
        };
        Some(
            AttachmentView {
                provider_attachment_id: None,
                filename: name->Some_0,
                mime_type: p.mimetype,
                size: bytes.len() as i64,
                data: Some(bytes),
            },
        )
    } else {
        None
    }
}

proof fn lemma_files_add(a: Seq<FlatView>, b: Seq<FlatView>)
    ensures
        (a + b).filter_map(|p: FlatView| file_in(p)) == a.filter_map(|p: FlatView| file_in(p))
            + b.filter_map(|p: FlatView| file_in(p)),
    decreases b.len(),
{
    let f = |p: FlatView| file_in(p);
    if b.len() == 0 {
        assert(a + b =~= a);
        assert(b.filter_map(f) =~= Seq::<AttachmentView>::empty());
        assert(a.filter_map(f) + b.filter_map(f) =~= a.filter_map(f));
    } else {
        lemma_files_add(a, b.drop_last());
        assert((a + b).drop_last() =~= a + b.drop_last());
        assert((a + b).last() == b.last());
        assert((a + b).filter_map(f) =~= a.filter_map(f) + b.filter_map(f));
    }
}

/// Law: every part of a mail that carries a file gives one attachment, with the name,
/// the type and the bytes of that part, in the order of the parts, however deep they
/// stand; and nothing else gives one.
pub proof fn every_file_is_an_attachment(mail: MailPart)
    ensures
        attachments_of(mail) == flattened(mail).filter_map(|p: FlatView| file_in(p)),
    decreases mail, 0nat,
{
    let f = |p: FlatView| file_in(p);
    let head = seq![mail.head()];
    lemma_files_all(mail.subparts@);
    lemma_files_add(head, flattened_all(mail.subparts@));
    assert(head.drop_last() =~= Seq::<FlatView>::empty());
    assert(head.drop_last().filter_map(f) =~= Seq::<AttachmentView>::empty());
    assert(head.last() == mail.head());
    assert(head.filter_map(f) =~= own_attachment(mail)) by {
        let p = mail.head();
        assert(p.disposition_params == pair_texts(mail.disposition_params@));
        assert(p.type_params == pair_texts(mail.type_params@));
        match file_name(mail) {
            Some(name) => {
                if mail.attachment || name.len() > 0 {
                    assert(file_in(p) == Some(own_attachment(mail)[0]));
                } else {
                    assert(file_in(p) is None);
                }
            },
            None => {
                assert(file_in(p) is None);
            },
        }
    }
}

proof fn lemma_files_all(parts: Seq<MailPart>)
    ensures
        attachments_of_all(parts) == flattened_all(parts).filter_map(|p: FlatView| file_in(p)),
    decreases parts, parts.len(),
{
    let f = |p: FlatView| file_in(p);
    if parts.len() == 0 {
        assert(flattened_all(parts).filter_map(f) =~= Seq::<AttachmentView>::empty());
    } else {
        let front = parts.drop_last();
        let end = parts[parts.len() - 1];
        lemma_files_all(front);
        every_file_is_an_attachment(end);
        lemma_flattened_push(front, end);
        assert(front.push(end) =~= parts);
        lemma_files_add(flattened_all(front), flattened(end));
    }
}

/// Law: among the bodies of a mail the first HTML body is shown; where none is HTML,
/// the first body; and where there is none at all, an empty plain text.
pub proof fn html_is_preferred(bodies: Seq<(Seq<char>, Seq<char>)>)
    ensures
        bodies.len() == 0 ==> preferred(bodies).0.len() == 0 && preferred(bodies).1
            == "text/plain"@,
        forall|k: int|
            0 <= k < bodies.len() && lower((#[trigger] bodies[k]).1) == "text/html"@ && (forall|j: int|
                0 <= j < k ==> lower((#[trigger] bodies[j]).1) != "text/html"@) ==> preferred(bodies)
                == bodies[k],
        bodies.len() > 0 && (forall|j: int|
            0 <= j < bodies.len() ==> lower((#[trigger] bodies[j]).1) != "text/html"@) ==> preferred(
            bodies,
        ) == bodies[0],
{
    lemma_first_html(bodies);
}

proof fn lemma_first_html(bodies: Seq<(Seq<char>, Seq<char>)>)
    ensures
        match first_html(bodies) {
            Some(body) => exists|k: int|
                0 <= k < bodies.len() && #[trigger] bodies[k] == body && lower(body.1)
                    == "text/html"@ && (forall|j: int|
                    0 <= j < k ==> lower((#[trigger] bodies[j]).1) != "text/html"@),
            None => forall|j: int|
                0 <= j < bodies.len() ==> lower((#[trigger] bodies[j]).1) != "text/html"@,
        },
    decreases bodies.len(),
{
    if bodies.len() > 0 && lower(bodies[0].1) != "text/html"@ {
        let rest = bodies.skip(1);
        lemma_first_html(rest);
        match first_html(rest) {
            Some(body) => {
                let k = choose|k: int|
                    0 <= k < rest.len() && #[trigger] rest[k] == body && lower(body.1)
                        == "text/html"@ && (forall|j: int|
                        0 <= j < k ==> lower((#[trigger] rest[j]).1) != "text/html"@);
                assert(bodies[k + 1] == body);
                assert forall|j: int| 0 <= j < k + 1 implies lower((#[trigger] bodies[j]).1)
                    != "text/html"@ by {
                    if j > 0 {
                        assert(rest[j - 1] == bodies[j]);
                    }
                }
            },
            None => {
                assert forall|j: int| 0 <= j < bodies.len() implies lower((#[trigger] bodies[j]).1)
                    != "text/html"@ by {
                    if j > 0 {
                        assert(rest[j - 1] == bodies[j]);
                    }
                }
            },
        }
    } else if bodies.len() > 0 {
        assert(bodies[0] == first_html(bodies)->Some_0);
    }
}

/// Law: the bodies of several parts are those of the parts one after the other,
/// without those that are blank.
pub proof fn every_body_is_looked_at(a: Seq<MailPart>, b: Seq<MailPart>, one: MailPart)
    ensures
        bodies_of(a + b) == bodies_of(a) + bodies_of(b),
        blank(body_of(one).0) ==> bodies_of(seq![one]).len() == 0,
        !blank(body_of(one).0) ==> bodies_of(seq![one]) == seq![body_of(one)],
    decreases b.len(),
{
    assert(seq![one].drop_last() =~= Seq::<MailPart>::empty());
    assert(bodies_of(seq![one].drop_last()) =~= Seq::<(Seq<char>, Seq<char>)>::empty());
    assert(seq![one][seq![one].len() - 1] == one);
    assert(!blank(body_of(one).0) ==> bodies_of(seq![one]) =~= seq![body_of(one)]);
    if b.len() == 0 {
        assert(a + b =~= a);
        assert(bodies_of(a) + bodies_of(b) =~= bodies_of(a));
    } else {
        every_body_is_looked_at(a, b.drop_last(), one);
        assert((a + b).drop_last() =~= a + b.drop_last());
        assert((a + b)[(a + b).len() - 1] == b[b.len() - 1]);
        assert(bodies_of(a + b) =~= bodies_of(a) + bodies_of(b));
    }
}

/// Law: a single part of plain text or HTML that is no attachment is read as it is;
/// an attachment, or a part of another type, is not; and a mail with parts is read by
/// its parts.
pub proof fn bodies_are_the_texts_of_parts(part: MailPart)
    ensures
        part.subparts@.len() == 0 && !part.attachment && (lower(part.mimetype@) == "text/plain"@
            || lower(part.mimetype@) == "text/html"@) ==> {
            &&& part.text matches Some(text) ==> body_of(part).0 == text@
            &&& body_of(part).1 == lower(part.mimetype@)
        },
        part.subparts@.len() == 0 && (part.attachment || (lower(part.mimetype@) != "text/plain"@
            && lower(part.mimetype@) != "text/html"@)) ==> body_of(part).0.len() == 0,
        part.subparts@.len() > 0 ==> body_of(part) == preferred(bodies_of(part.subparts@)),
{
}

/// Law: what is stored of a mail is what its headers say, each field what the header
/// of its name says; the mail is dated by its own date, and by `now` only where it
/// has none that can be read; and it is kept under the role and with the read state
/// that it is stored with.
pub proof fn stored_mails_say_what_their_headers_say(
    role: Seq<char>,
    folder: Seq<char>,
    uid: u32,
    mail: MailPart,
    is_read: bool,
    now: i64,
)
    ensures
        ({
            let m = mail_message(role, folder, uid, mail, is_read, now);
            let h = pair_texts(mail.headers@);
            &&& m.folder == role && m.is_read == is_read
            &&& header_value(h, "Subject"@) matches Some(v) ==> m.subject == clean(v)
            &&& header_value(h, "Subject"@) is None ==> m.subject == "(no subject)"@
            &&& header_value(h, "From"@) matches Some(v) ==> m.from_addr == clean(v)
            &&& header_value(h, "From"@) is None ==> m.from_addr.len() == 0
            &&& header_value(h, "To"@) matches Some(v) ==> m.to_addr == clean(v)
            &&& header_value(h, "To"@) is None ==> m.to_addr.len() == 0
            &&& header_value(h, "Cc"@) matches Some(v) ==> m.cc_addr == clean(v)
            &&& header_value(h, "Cc"@) is None ==> m.cc_addr.len() == 0
            &&& (header_value(h, "Date"@) matches Some(d) && rfc2822_seconds(d) is Some)
                ==> m.date_ts == rfc2822_seconds(header_value(h, "Date"@)->Some_0)->Some_0
            &&& (header_value(h, "Date"@) matches Some(d) ==> rfc2822_seconds(d) is None)
                ==> m.date_ts == now
            &&& (header_value(h, "Message-ID"@) matches Some(v) && message_ids(clean(v)).len() > 0)
                ==> m.message_header_id == message_ids(
                clean(header_value(h, "Message-ID"@)->Some_0),
            )[0]
            &&& header_value(h, "Message-ID"@) is None ==> m.message_header_id.len() == 0
            &&& header_value(h, "In-Reply-To"@) matches Some(v) ==> m.in_reply_to == join(
                message_ids(clean(v)),
                seq![' '],
            )
            &&& header_value(h, "References"@) matches Some(v) ==> m.references_header == join(
                message_ids(clean(v)),
                seq![' '],
            )
            &&& m.normalized_subject == subject_key(m.subject)
            &&& (m.body, m.body_mime) == body_of(mail)
            &&& m.snippet == snippet(m.body, m.body_mime)
            &&& m.attachments == attachments_of(mail)
            &&& m.provider_message_id == provider_id(folder, uid, Some(m.message_header_id))
            &&& m.thread_id == conversation_id(
                m.message_header_id,
                m.in_reply_to,
                m.references_header,
                m.normalized_subject,
                "imap-location:"@ + location(folder, uid),
            )
        }),
{
}

/// Law: mail that can be parsed is stored, and only that.
pub proof fn readable_mail_is_stored(
    role: Seq<char>,
    folder: Seq<char>,
    uid: u32,
    raw: Seq<u8>,
    is_read: bool,
    now: i64,
)
    ensures
        read_mail(role, folder, uid, raw, is_read, now) is Ok <==> mail_parts(raw) is Ok,
        mail_parts(raw) matches Err(e) ==> read_mail(role, folder, uid, raw, is_read, now)
            == Err::<MessageView, Seq<char>>(e),
{
}

} // verus!
