//! Writing a mail: whom it goes to, what it says, and what is stored of it once
//! it is sent.
use vstd::prelude::*;
use vstd::string::*;

use crate::header::{clean, clean_header_value, contains_ci, normalize_subject_key, subject_key};
use crate::html::{html_to_text, readable, snippet, snippet_for_body};
use crate::imap_id::{lacks, provider_id, returned_message_supersedes_its_copy, superseded_copy};
use crate::message::{attachment_views, AttachmentView, MessageView, NewAttachment, NewMessage};
use crate::msgid::{canonical, reply_references, reply_references_header, ReplyContext};
use crate::text::{
    blank, cat, cat3, chars_of, contains_text, copy, copy_opt, find_text, is_blank, lemma_find_from,
    lemma_rfind_char, lemma_trim_range, lemma_trimmed, lower_chars, opt_as_str, opt_str, opt_text,
    rfind_char, rfind_one, stands_at, string_of, texts, trim, trimmed, white,
};

verus! {

// ---------------------------------------------------------------------------
// Addresses
// ---------------------------------------------------------------------------
/// A mailbox: an address, and the name of its owner where one is given.
pub struct MailboxEntry {
    pub name: Option<String>,
    pub address: String,
}

/// The view of a [`MailboxEntry`].
pub struct EntryView {
    pub name: Option<Seq<char>>,
    pub address: Seq<char>,
}

impl View for MailboxEntry {
    type V = EntryView;

    open spec fn view(&self) -> EntryView {
        EntryView { name: opt_text(self.name), address: self.address@ }
    }
}

/// The views of a list of mailboxes.
pub open spec fn entry_views(list: Seq<MailboxEntry>) -> Seq<EntryView> {
    Seq::new(list.len(), |i: int| list[i]@)
}

/// An element of a list of addresses: one mailbox, or a group of them.
pub enum MailAddress {
    Single(MailboxEntry),
    Group(Vec<MailboxEntry>),
}

/// The mailboxes of an element of a list of addresses.
pub open spec fn members(address: MailAddress) -> Seq<EntryView> {
    match address {
        MailAddress::Single(entry) => seq![entry@],
        MailAddress::Group(entries) => entry_views(entries@),
    }
}

/// The mailboxes of each element of a list of addresses.
pub open spec fn member_lists(list: Seq<MailAddress>) -> Seq<Seq<EntryView>> {
    Seq::new(list.len(), |i: int| members(list[i]))
}

/// The elements of a list of addresses, each with its mailboxes, or what is wrong
/// with the list.
pub uninterp spec fn address_list(value: Seq<char>) -> Result<Seq<Seq<EntryView>>, Seq<char>>;

/// `mailparse::addrparse`: the elements of a list of addresses, in order.
#[verifier::external_body]
fn parse_addresses(value: &str) -> (r: Result<Vec<MailAddress>, String>)
    ensures
        match r {
            Ok(list) => address_list(value@) == Ok::<Seq<Seq<EntryView>>, Seq<char>>(
                member_lists(list@),
            ),
            Err(e) => address_list(value@) == Err::<Seq<Seq<EntryView>>, Seq<char>>(e@),
        },
{
    let list = mailparse::addrparse(value).map_err(|e| e.to_string())?.into_inner();
    let entry = |i: mailparse::SingleInfo| MailboxEntry { name: i.display_name, address: i.addr };
    Ok(
        list.into_iter().map(
            |address| match address {
                mailparse::MailAddr::Single(info) => MailAddress::Single(entry(info)),
                mailparse::MailAddr::Group(group) => MailAddress::Group(
                    group.addrs.into_iter().map(entry).collect(),
                ),
            },
        ).collect(),
    )
}

/// What is wrong with an address; nothing where mail can go to it.
pub uninterp spec fn address_fault(address: Seq<char>) -> Option<Seq<char>>;

/// `lettre::Address`, parsed from a text: what is wrong with an address.
#[verifier::external_body]
fn check_address(address: &str) -> (r: Option<String>)
    ensures
        opt_text(r) == address_fault(address@),
{
    address.parse::<lettre::Address>().err().map(|e| e.to_string())
}

/// The first thing that is wrong with some mailboxes.
pub open spec fn first_fault(entries: Seq<EntryView>) -> Option<Seq<char>>
    decreases entries.len(),
{
    if entries.len() == 0 {
        None
    } else {
        match first_fault(entries.drop_last()) {
            Some(e) => Some(e),
            None => address_fault(entries.last().address),
        }
    }
}

/// All mailboxes of the elements of a list, in order.
pub open spec fn all_members(list: Seq<Seq<EntryView>>) -> Seq<EntryView>
    decreases list.len(),
{
    if list.len() == 0 {
        Seq::empty()
    } else {
        all_members(list.drop_last()) + list.last()
    }
}

proof fn lemma_first_fault_add(a: Seq<EntryView>, b: Seq<EntryView>)
    ensures
        first_fault(a + b) == match first_fault(a) {
            Some(e) => Some(e),
            None => first_fault(b),
        },
    decreases b.len(),
{
    if b.len() == 0 {
        assert(a + b =~= a);
    } else {
        lemma_first_fault_add(a, b.drop_last());
        assert((a + b).drop_last() =~= a + b.drop_last());
        assert((a + b).last() == b.last());
    }
}

/// A copy of a mailbox.
fn copy_entry(entry: &MailboxEntry) -> (r: MailboxEntry)
    ensures
        r@ == entry@,
{
    MailboxEntry { name: copy_opt(&entry.name), address: copy(&entry.address) }
}

/// Appends a mailbox that mail can go to.
fn push_mailbox(entry: &MailboxEntry, mailboxes: &mut Vec<MailboxEntry>) -> (r: Result<(), String>)
    ensures
        match r {
            Ok(()) => address_fault(entry.address@) is None && entry_views(final(mailboxes)@)
                == entry_views(old(mailboxes)@).push(entry@),
            Err(e) => address_fault(entry.address@) == Some(e@) && entry_views(final(mailboxes)@)
                == entry_views(old(mailboxes)@),
        },
{
    let ghost before = entry_views(mailboxes@);
    match check_address(entry.address.as_str()) {
        Some(e) => Err(e),
        None => {
            mailboxes.push(copy_entry(entry));
            assert(entry_views(mailboxes@) =~= before.push(entry@));
            Ok(())
        },
    }
}

/// Appends the mailboxes of an element of a list of addresses. Where mail cannot
/// go to one of them, those before it are appended and the fault is returned.
pub fn collect_mailboxes(address: &MailAddress, mailboxes: &mut Vec<MailboxEntry>) -> (r: Result<
    (),
    String,
>)
    ensures
        match r {
            Ok(()) => first_fault(members(*address)) is None && entry_views(final(mailboxes)@)
                == entry_views(old(mailboxes)@) + members(*address),
            Err(e) => first_fault(members(*address)) == Some(e@),
        },
{
    let ghost before = entry_views(mailboxes@);
    match address {
        MailAddress::Single(entry) => {
            proof {
                let one = seq![entry@];
                assert(one.drop_last() =~= Seq::<EntryView>::empty());
                assert(first_fault(one.drop_last()) is None);
                assert(first_fault(one) == address_fault(entry.address@));
            }
            let r = push_mailbox(entry, mailboxes);
            assert(r is Ok ==> entry_views(mailboxes@) =~= before + seq![entry@]);
            r
        },
        MailAddress::Group(entries) => {
            let ghost all = entry_views(entries@);
            let mut i: usize = 0;
            assert(all.take(0) =~= Seq::<EntryView>::empty());
            assert(entry_views(mailboxes@) =~= before + all.take(0));
            while i < entries.len()
                invariant
                    i <= entries.len(),
                    all == entry_views(entries@),
                    first_fault(all.take(i as int)) is None,
                    entry_views(mailboxes@) == before + all.take(i as int),
                    members(*address) == all,
                decreases entries.len() - i,
            {
                proof {
                    let now = all.take(i + 1);
                    assert(now.drop_last() =~= all.take(i as int));
                    assert(now.last() == entries@[i as int]@);
                    assert(all =~= now + all.skip(i + 1));
                    lemma_first_fault_add(now, all.skip(i + 1));
                }
                match push_mailbox(&entries[i], mailboxes) {
                    Ok(()) => {
                        assert(entry_views(mailboxes@) =~= before + all.take(i + 1));
                    },
                    Err(e) => {
                        return Err(e);
                    },
                }
                i = i + 1;
            }
            assert(all.take(entries.len() as int) =~= all);
            Ok(())
        },
    }
}

/// An error in a list of addresses.
pub open spec fn list_error(label: Seq<char>, error: Seq<char>) -> Seq<char> {
    label + " address error: "@ + error
}

/// The mailboxes of the elements of a list, or the first thing that is wrong with
/// one of them.
pub open spec fn checked_members(list: Seq<Seq<EntryView>>, label: Seq<char>) -> Result<
    Seq<EntryView>,
    Seq<char>,
> {
    match first_fault(all_members(list)) {
        Some(e) => Err(list_error(label, e)),
        None => Ok(all_members(list)),
    }
}

/// The mailboxes in a list of addresses, or the first thing that is wrong with it.
pub open spec fn mailbox_list(value: Seq<char>, label: Seq<char>) -> Result<
    Seq<EntryView>,
    Seq<char>,
> {
    match address_list(value) {
        Ok(list) => checked_members(list, label),
        Err(e) => Err(list_error(label, e)),
    }
}

/// The views of a list of mailboxes that was read.
pub open spec fn entries_result(r: Result<Vec<MailboxEntry>, String>) -> Result<
    Seq<EntryView>,
    Seq<char>,
> {
    match r {
        Ok(list) => Ok(entry_views(list@)),
        Err(e) => Err(e@),
    }
}

/// Computes [`checked_members`].
pub fn mailboxes_of(list: &Vec<MailAddress>, label: &str) -> (r: Result<Vec<MailboxEntry>, String>)
    ensures
        entries_result(r) == checked_members(member_lists(list@), label@),
{
    let ghost all = member_lists(list@);
    let mut mailboxes: Vec<MailboxEntry> = Vec::new();
    let mut i: usize = 0;
    assert(all.take(0) =~= Seq::<Seq<EntryView>>::empty());
    assert(entry_views(mailboxes@) =~= all_members(all.take(0)));
    while i < list.len()
        invariant
            i <= list.len(),
            all == member_lists(list@),
            entry_views(mailboxes@) == all_members(all.take(i as int)),
            first_fault(all_members(all.take(i as int))) is None,
        decreases list.len() - i,
    {
        proof {
            let now = all.take(i + 1);
            assert(now.drop_last() =~= all.take(i as int));
            assert(now.last() == members(list@[i as int]));
            lemma_first_fault_add(all_members(all.take(i as int)), members(list@[i as int]));
            lemma_members_add(now, all.skip(i + 1));
            assert(now + all.skip(i + 1) =~= all);
            lemma_first_fault_add(all_members(now), all_members(all.skip(i + 1)));
        }
        match collect_mailboxes(&list[i], &mut mailboxes) {
            Ok(()) => {},
            Err(e) => {
                return Err(cat3(label, " address error: ", e.as_str()));
            },
        }
        i = i + 1;
    }
    assert(all.take(list.len() as int) =~= all);
    Ok(mailboxes)
}

proof fn lemma_members_add(a: Seq<Seq<EntryView>>, b: Seq<Seq<EntryView>>)
    ensures
        all_members(a + b) == all_members(a) + all_members(b),
    decreases b.len(),
{
    if b.len() == 0 {
        assert(a + b =~= a);
        assert(all_members(a) + all_members(b) =~= all_members(a));
    } else {
        lemma_members_add(a, b.drop_last());
        assert((a + b).drop_last() =~= a + b.drop_last());
        assert((a + b).last() == b.last());
        assert(all_members(a + b) =~= all_members(a) + all_members(b));
    }
}

/// Computes [`mailbox_list`].
pub fn parse_mailbox_list(value: &str, label: &str) -> (r: Result<Vec<MailboxEntry>, String>)
    ensures
        entries_result(r) == mailbox_list(value@, label@),
{
    match parse_addresses(value) {
        Ok(list) => mailboxes_of(&list, label),
        Err(e) => Err(cat3(label, " address error: ", e.as_str())),
    }
}

/// The mailboxes in a list of addresses that may be missing or blank.
pub open spec fn optional_mailbox_list(value: Option<Seq<char>>, label: Seq<char>) -> Result<
    Seq<EntryView>,
    Seq<char>,
> {
    match value {
        Some(v) => if blank(v) {
            Ok(Seq::empty())
        } else {
            mailbox_list(trim(v), label)
        },
        None => Ok(Seq::empty()),
    }
}

/// Computes [`optional_mailbox_list`].
pub fn parse_optional_mailbox_list(value: Option<&str>, label: &str) -> (r: Result<
    Vec<MailboxEntry>,
    String,
>)
    ensures
        entries_result(r) == optional_mailbox_list(opt_str(value), label@),
{
    if let Some(v) = value {
        let t = trimmed(v);
        if !t.as_str().is_empty() {
            return parse_mailbox_list(t.as_str(), label);
        }
    }
    let none: Vec<MailboxEntry> = Vec::new();
    assert(entry_views(none@) =~= Seq::<EntryView>::empty());
    Ok(none)
}

// ---------------------------------------------------------------------------
// Plans
// ---------------------------------------------------------------------------
/// What a user wants to send.
pub struct SendInput {
    pub account_id: i64,
    pub to: String,
    pub cc: Option<String>,
    pub bcc: Option<String>,
    pub reply_to: Option<String>,
    pub subject: String,
    pub body: String,
    pub body_mime: String,
    pub reply_to_message_id: Option<i64>,
}

/// One step of writing a mail.
pub enum MailStep {
    From(MailboxEntry),
    Subject(String),
    MessageId(String),
    To(MailboxEntry),
    Cc(MailboxEntry),
    Bcc(MailboxEntry),
    ReplyTo(MailboxEntry),
    InReplyTo(String),
    References(String),
}

/// The view of a [`MailStep`].
pub enum StepView {
    From(EntryView),
    Subject(Seq<char>),
    MessageId(Seq<char>),
    To(EntryView),
    Cc(EntryView),
    Bcc(EntryView),
    ReplyTo(EntryView),
    InReplyTo(Seq<char>),
    References(Seq<char>),
}

impl View for MailStep {
    type V = StepView;

    open spec fn view(&self) -> StepView {
        match *self {
            MailStep::From(m) => StepView::From(m@),
            MailStep::Subject(s) => StepView::Subject(s@),
            MailStep::MessageId(s) => StepView::MessageId(s@),
            MailStep::To(m) => StepView::To(m@),
            MailStep::Cc(m) => StepView::Cc(m@),
            MailStep::Bcc(m) => StepView::Bcc(m@),
            MailStep::ReplyTo(m) => StepView::ReplyTo(m@),
            MailStep::InReplyTo(s) => StepView::InReplyTo(s@),
            MailStep::References(s) => StepView::References(s@),
        }
    }
}

/// The views of a list of steps.
pub open spec fn step_views(steps: Seq<MailStep>) -> Seq<StepView> {
    Seq::new(steps.len(), |i: int| steps[i]@)
}

/// What a mail says: plain text, or HTML with its readable text beside it.
pub enum MailBody {
    Plain(String),
    Html { plain: String, html: String },
}

/// The view of a [`MailBody`].
pub enum BodyView {
    Plain(Seq<char>),
    Html { plain: Seq<char>, html: Seq<char> },
}

impl View for MailBody {
    type V = BodyView;

    open spec fn view(&self) -> BodyView {
        match *self {
            MailBody::Plain(s) => BodyView::Plain(s@),
            MailBody::Html { plain, html } => BodyView::Html { plain: plain@, html: html@ },
        }
    }
}

/// How a mail is written.
pub struct MailPlan {
    pub steps: Vec<MailStep>,
    pub body: MailBody,
}

/// The view of a [`MailPlan`].
pub struct MailPlanView {
    pub steps: Seq<StepView>,
    pub body: BodyView,
}

impl View for MailPlan {
    type V = MailPlanView;

    open spec fn view(&self) -> MailPlanView {
        MailPlanView { steps: step_views(self.steps@), body: self.body@ }
    }
}

/// The mailbox that a text names, or what is wrong with it.
pub uninterp spec fn named_mailbox(text: Seq<char>) -> Result<EntryView, Seq<char>>;

/// `lettre::message::Mailbox`, parsed from a text: its name and its address.
#[verifier::external_body]
fn parse_mailbox(text: &str) -> (r: Result<MailboxEntry, String>)
    ensures
        match r {
            Ok(m) => named_mailbox(text@) == Ok::<EntryView, Seq<char>>(m@),
            Err(e) => named_mailbox(text@) == Err::<EntryView, Seq<char>>(e@),
        },
{
    let mailbox = text.parse::<lettre::message::Mailbox>().map_err(|e| e.to_string())?;
    Ok(MailboxEntry { name: mailbox.name, address: mailbox.email.to_string() })
}

/// The one mailbox that replies go to, where one is given.
pub open spec fn reply_to_step(value: Option<Seq<char>>) -> Result<Seq<StepView>, Seq<char>> {
    match value {
        Some(v) => if blank(v) {
            Ok(Seq::empty())
        } else {
            match mailbox_list(v, "Reply-To"@) {
                Ok(list) => if list.len() == 1 {
                    Ok(seq![StepView::ReplyTo(list[0])])
                } else {
                    Err("Reply-To must contain exactly one mailbox"@)
                },
                Err(e) => Err(e),
            }
        },
        None => Ok(Seq::empty()),
    }
}

/// What ties a reply to the message that it answers.
pub open spec fn reply_steps(reply: Option<ReplyContext>) -> Seq<StepView> {
    match reply {
        Some(r) => if blank(r.message_header_id@) {
            Seq::empty()
        } else {
            seq![
                StepView::InReplyTo(r.message_header_id@),
                StepView::References(
                    reply_references(r.references_header@, r.message_header_id@),
                ),
            ]
        },
        None => Seq::empty(),
    }
}

/// What a mail says: HTML where its type speaks of HTML.
pub open spec fn mail_body(body: Seq<char>, body_mime: Seq<char>) -> BodyView {
    if contains_ci(body_mime, "html"@) {
        BodyView::Html { plain: readable(body), html: body }
    } else {
        BodyView::Plain(body)
    }
}

/// How the mail that a user wants to send is written, or the first thing that is
/// wrong with it.
pub open spec fn mail_plan(
    email: Seq<char>,
    input: SendInput,
    reply: Option<ReplyContext>,
    message_id: Seq<char>,
) -> Result<MailPlanView, Seq<char>> {
    let from = named_mailbox(email);
    let to = mailbox_list(input.to@, "To"@);
    let cc = optional_mailbox_list(opt_text(input.cc), "Cc"@);
    let bcc = optional_mailbox_list(opt_text(input.bcc), "Bcc"@);
    let reply_to = reply_to_step(opt_text(input.reply_to));
    if from is Err {
        Err(from->Err_0)
    } else if to is Err {
        Err(to->Err_0)
    } else if to->Ok_0.len() == 0 {
        Err("To must include at least one recipient"@)
    } else if cc is Err {
        Err(cc->Err_0)
    } else if bcc is Err {
        Err(bcc->Err_0)
    } else if reply_to is Err {
        Err(reply_to->Err_0)
    } else {
        Ok(
            MailPlanView {
                steps: seq![
                    StepView::From(from->Ok_0),
                    StepView::Subject(input.subject@),
                    StepView::MessageId(message_id),
                ] + recipient_steps(RecipientKind::To, to->Ok_0) + recipient_steps(
                    RecipientKind::Cc,
                    cc->Ok_0,
                ) + recipient_steps(RecipientKind::Bcc, bcc->Ok_0) + reply_to->Ok_0 + reply_steps(
                    reply,
                ),
                body: mail_body(input.body@, input.body_mime@),
            },
        )
    }
}

/// What a recipient gets: the mail, a copy, or a copy that the others do not see.
#[derive(Clone, Copy)]
pub enum RecipientKind {
    To,
    Cc,
    Bcc,
}

/// The step that names a recipient.
pub open spec fn recipient_step(kind: RecipientKind, entry: EntryView) -> StepView {
    match kind {
        RecipientKind::To => StepView::To(entry),
        RecipientKind::Cc => StepView::Cc(entry),
        RecipientKind::Bcc => StepView::Bcc(entry),
    }
}

/// The steps that name recipients of one kind.
pub open spec fn recipient_steps(kind: RecipientKind, list: Seq<EntryView>) -> Seq<StepView> {
    Seq::new(list.len(), |i: int| recipient_step(kind, list[i]))
}

/// Appends recipients of one kind.
fn push_recipients(steps: &mut Vec<MailStep>, kind: RecipientKind, list: &Vec<MailboxEntry>)
    ensures
        step_views(final(steps)@) == step_views(old(steps)@) + recipient_steps(
            kind,
            entry_views(list@),
        ),
{
    let ghost before = step_views(steps@);
    let ghost all = recipient_steps(kind, entry_views(list@));
    let mut i: usize = 0;
    while i < list.len()
        invariant
            i <= list.len(),
            all == recipient_steps(kind, entry_views(list@)),
            step_views(steps@) == before + all.take(i as int),
        decreases list.len() - i,
    {
        let ghost had = steps@;
        let entry = copy_entry(&list[i]);
        let step = match kind {
            RecipientKind::To => MailStep::To(entry),
            RecipientKind::Cc => MailStep::Cc(entry),
            RecipientKind::Bcc => MailStep::Bcc(entry),
        };
        steps.push(step);
        assert(step_views(steps@) =~= step_views(had).push(all[i as int]));
        assert(all.take(i + 1) =~= all.take(i as int).push(all[i as int]));
        i = i + 1;
        assert(step_views(steps@) =~= before + all.take(i as int));
    }
    assert(all.take(list.len() as int) =~= all);
}

/// Appends the one mailbox that replies go to, where one is given.
fn push_reply_to(steps: &mut Vec<MailStep>, value: &Option<String>) -> (r: Result<(), String>)
    ensures
        match r {
            Ok(()) => reply_to_step(opt_text(*value)) is Ok && step_views(final(steps)@)
                == step_views(old(steps)@) + reply_to_step(opt_text(*value))->Ok_0,
            Err(e) => reply_to_step(opt_text(*value)) is Err && e@ == reply_to_step(
                opt_text(*value),
            )->Err_0,
        },
{
    let ghost before = step_views(steps@);
    if let Some(v) = value {
        if !is_blank(v.as_str()) {
            let list = match parse_mailbox_list(v.as_str(), "Reply-To") {
                Ok(list) => list,
                Err(e) => {
                    return Err(e);
                },
            };
            assert(list.len() == entry_views(list@).len());
            if list.len() != 1 {
                return Err("Reply-To must contain exactly one mailbox".to_owned());
            }
            steps.push(MailStep::ReplyTo(copy_entry(&list[0])));
            assert(entry_views(list@)[0] == list@[0]@);
            assert(step_views(steps@) =~= before + reply_to_step(opt_text(*value))->Ok_0);
            return Ok(());
        }
    }
    assert(step_views(steps@) =~= before + Seq::<StepView>::empty());
    Ok(())
}

/// Appends what ties a reply to the message that it answers.
fn push_reply(steps: &mut Vec<MailStep>, reply: &Option<ReplyContext>)
    ensures
        step_views(final(steps)@) == step_views(old(steps)@) + reply_steps(*reply),
{
    let ghost before = step_views(steps@);
    if let Some(reply) = reply {
        if !is_blank(reply.message_header_id.as_str()) {
            steps.push(MailStep::InReplyTo(copy(&reply.message_header_id)));
            steps.push(MailStep::References(reply_references_header(reply)));
        }
    }
    assert(step_views(steps@) =~= before + reply_steps(*reply));
}

/// Tells whether a text stands in another, whatever the case of ASCII letters.
fn holds_ignoring_case(text: &str, part: &str) -> (r: bool)
    ensures
        r == contains_ci(text@, part@),
{
    let t = lower_chars(&chars_of(text));
    let p = lower_chars(&chars_of(part));
    proof {
        lemma_find_from(t@, p@, 0);
    }
    match find_text(&t, &p, 0) {
        Some(i) => {
            assert(stands_at(t@, p@, i as int));
            true
        },
        None => {
            proof {
                if contains_text(t@, p@) {
                    let k = choose|k: int| stands_at(t@, p@, k);
                    assert(!stands_at(t@, p@, k));
                }
            }
            false
        },
    }
}

/// Computes [`mail_plan`].
pub fn outbound_plan(
    email: &str,
    input: &SendInput,
    reply: &Option<ReplyContext>,
    message_id: &str,
) -> (r: Result<MailPlan, String>)
    ensures
        match r {
            Ok(plan) => mail_plan(email@, *input, *reply, message_id@) == Ok::<
                MailPlanView,
                Seq<char>,
            >(plan@),
            Err(e) => mail_plan(email@, *input, *reply, message_id@) == Err::<
                MailPlanView,
                Seq<char>,
            >(e@),
        },
{
    let from = match parse_mailbox(email) {
        Ok(from) => from,
        Err(e) => {
            return Err(e);
        },
    };
    let to = match parse_mailbox_list(input.to.as_str(), "To") {
        Ok(to) => to,
        Err(e) => {
            return Err(e);
        },
    };
    assert(to.len() == entry_views(to@).len());
    if to.len() == 0 {
        return Err("To must include at least one recipient".to_owned());
    }
    let cc = match parse_optional_mailbox_list(opt_as_str(&input.cc), "Cc") {
        Ok(cc) => cc,
        Err(e) => {
            return Err(e);
        },
    };
    let bcc = match parse_optional_mailbox_list(opt_as_str(&input.bcc), "Bcc") {
        Ok(bcc) => bcc,
        Err(e) => {
            return Err(e);
        },
    };
    let ghost sender = from@;
    let mut steps: Vec<MailStep> = Vec::new();
    steps.push(MailStep::From(from));
    steps.push(MailStep::Subject(copy(&input.subject)));
    steps.push(MailStep::MessageId(message_id.to_owned()));
    assert(step_views(steps@) =~= seq![
        StepView::From(sender),
        StepView::Subject(input.subject@),
        StepView::MessageId(message_id@),
    ]);
    push_recipients(&mut steps, RecipientKind::To, &to);
    push_recipients(&mut steps, RecipientKind::Cc, &cc);
    push_recipients(&mut steps, RecipientKind::Bcc, &bcc);
    match push_reply_to(&mut steps, &input.reply_to) {
        Ok(()) => {},
        Err(e) => {
            return Err(e);
        },
    }
    push_reply(&mut steps, reply);
    let body = if holds_ignoring_case(input.body_mime.as_str(), "html") {
        MailBody::Html { plain: html_to_text(input.body.as_str()), html: copy(&input.body) }
    } else {
        MailBody::Plain(copy(&input.body))
    };
    Ok(MailPlan { steps, body })
}

// ---------------------------------------------------------------------------
// Writing
// ---------------------------------------------------------------------------
/// A mail that is being written, with `lettre`.
#[verifier::external_type_specification]
#[verifier::external_body]
pub struct ExMessageBuilder(lettre::message::MessageBuilder);

/// The mail that some steps leave, as far as it is written.
pub uninterp spec fn written(steps: Seq<StepView>) -> lettre::message::MessageBuilder;

/// A mail that is ready to be sent: its bytes, and the addresses that the server
/// is told.
pub struct ReadyMail {
    pub bytes: Vec<u8>,
    pub sender: Option<String>,
    pub recipients: Vec<String>,
}

/// The view of a [`ReadyMail`].
pub struct ReadyView {
    pub bytes: Seq<u8>,
    pub sender: Option<Seq<char>>,
    pub recipients: Seq<Seq<char>>,
}

impl View for ReadyMail {
    type V = ReadyView;

    open spec fn view(&self) -> ReadyView {
        ReadyView {
            bytes: self.bytes@,
            sender: opt_text(self.sender),
            recipients: texts(self.recipients@),
        }
    }
}

/// The views of a mail that was written.
pub open spec fn ready_result(r: Result<ReadyMail, String>) -> Result<ReadyView, Seq<char>> {
    match r {
        Ok(mail) => Ok(mail@),
        Err(e) => Err(e@),
    }
}

/// The sender and the recipients that the server is told of a mail that some steps
/// lead to, or why there is no such mail. Neither what the mail says nor when it is
/// written has a part in it.
pub uninterp spec fn mail_envelope(steps: Seq<StepView>) -> Result<
    (Option<Seq<char>>, Seq<Seq<char>>),
    Seq<char>,
>;

/// The bytes of the mail with a plain text that some steps lead to. `chance` stands
/// for the time at which the mail is written. How the headers and the text are put
/// into bytes is left to `lettre` and not spelled out here.
pub uninterp spec fn plain_bytes(steps: Seq<StepView>, body: Seq<char>, chance: Seq<u8>) -> Seq<u8>;

/// The bytes of the mail with an HTML text that some steps lead to. `chance` stands
/// for the time at which the mail is written and for the marks between its parts.
/// How the headers and the texts are put into bytes is left to `lettre` and not
/// spelled out here.
pub uninterp spec fn html_bytes(
    steps: Seq<StepView>,
    plain: Seq<char>,
    html: Seq<char>,
    chance: Seq<u8>,
) -> Seq<u8>;

/// `lettre::Message::builder`: a mail without anything in it.
#[verifier::external_body]
fn blank_mail() -> (r: lettre::message::MessageBuilder)
    ensures
        r == written(Seq::empty()),
{
    lettre::Message::builder()
}

/// A mail is what it was after one more step.
pub open spec fn one_step_on(
    before: lettre::message::MessageBuilder,
    step: StepView,
    after: lettre::message::MessageBuilder,
) -> bool {
    forall|steps: Seq<StepView>| before == #[trigger] written(steps) ==> after == written(steps.push(step))
}

/// No line break stands in the name of a mailbox, but for its two ends, which are
/// not written.
pub open spec fn one_line_name(m: EntryView) -> bool {
    m.name matches Some(n) ==> lacks(trim(n), '\r') && lacks(trim(n), '\n')
}

/// Tells whether a mailbox has a [`one_line_name`].
fn has_one_line_name(m: &MailboxEntry) -> (r: bool)
    ensures
        r == one_line_name(m@),
{
    match &m.name {
        Some(n) => {
            let v = chars_of(trimmed(n.as_str()).as_str());
            let mut i: usize = 0;
            while i < v.len()
                invariant
                    i <= v.len(),
                    m@.name == Some(n@),
                    v@ == trim(n@),
                    forall|k: int|
                        0 <= k < i ==> #[trigger] trim(n@)[k] != '\r' && trim(n@)[k] != '\n',
                decreases v.len() - i,
            {
                if v[i] == '\r' || v[i] == '\n' {
                    assert(!lacks(trim(n@), v@[i as int]));
                    return false;
                }
                i = i + 1;
            }
            true
        },
        None => true,
    }
}

/// What naming a mailbox in a mail comes to: one more step, or what is wrong with
/// the address.
pub open spec fn step_or_fault(
    before: lettre::message::MessageBuilder,
    step: StepView,
    address: Seq<char>,
    r: Result<lettre::message::MessageBuilder, String>,
) -> bool {
    match r {
        Ok(after) => address_fault(address) is None && one_step_on(before, step, after),
        Err(e) => address_fault(address) == Some(e@),
    }
}

/// `lettre`: `MessageBuilder::from`, which panics where a line break stands within the
/// name.
#[verifier::external_body]
fn add_from(mail: lettre::message::MessageBuilder, m: &MailboxEntry) -> (r: Result<
    lettre::message::MessageBuilder,
    String,
>)
    requires
        one_line_name(m@),
    ensures
        step_or_fault(mail, StepView::From(m@), m@.address, r),
{
    let address = m.address.parse::<lettre::Address>().map_err(|e| e.to_string())?;
    Ok(mail.from(lettre::message::Mailbox::new(m.name.clone(), address)))
}

/// `lettre`: `MessageBuilder::to`, which panics where a line break stands within the
/// name.
#[verifier::external_body]
fn add_to(mail: lettre::message::MessageBuilder, m: &MailboxEntry) -> (r: Result<
    lettre::message::MessageBuilder,
    String,
>)
    requires
        one_line_name(m@),
    ensures
        step_or_fault(mail, StepView::To(m@), m@.address, r),
{
    let address = m.address.parse::<lettre::Address>().map_err(|e| e.to_string())?;
    Ok(mail.to(lettre::message::Mailbox::new(m.name.clone(), address)))
}

/// `lettre`: `MessageBuilder::cc`, which panics where a line break stands within the
/// name.
#[verifier::external_body]
fn add_cc(mail: lettre::message::MessageBuilder, m: &MailboxEntry) -> (r: Result<
    lettre::message::MessageBuilder,
    String,
>)
    requires
        one_line_name(m@),
    ensures
        step_or_fault(mail, StepView::Cc(m@), m@.address, r),
{
    let address = m.address.parse::<lettre::Address>().map_err(|e| e.to_string())?;
    Ok(mail.cc(lettre::message::Mailbox::new(m.name.clone(), address)))
}

/// `lettre`: `MessageBuilder::bcc`, which panics where a line break stands within the
/// name.
#[verifier::external_body]
fn add_bcc(mail: lettre::message::MessageBuilder, m: &MailboxEntry) -> (r: Result<
    lettre::message::MessageBuilder,
    String,
>)
    requires
        one_line_name(m@),
    ensures
        step_or_fault(mail, StepView::Bcc(m@), m@.address, r),
{
    let address = m.address.parse::<lettre::Address>().map_err(|e| e.to_string())?;
    Ok(mail.bcc(lettre::message::Mailbox::new(m.name.clone(), address)))
}

/// `lettre`: `MessageBuilder::reply_to`, which panics where a line break stands within the
/// name.
#[verifier::external_body]
fn add_reply_to(mail: lettre::message::MessageBuilder, m: &MailboxEntry) -> (r: Result<
    lettre::message::MessageBuilder,
    String,
>)
    requires
        one_line_name(m@),
    ensures
        step_or_fault(mail, StepView::ReplyTo(m@), m@.address, r),
{
    let address = m.address.parse::<lettre::Address>().map_err(|e| e.to_string())?;
    Ok(mail.reply_to(lettre::message::Mailbox::new(m.name.clone(), address)))
}

/// `lettre`: `MessageBuilder::subject`.
#[verifier::external_body]
fn add_subject(mail: lettre::message::MessageBuilder, subject: &str) -> (r:
    lettre::message::MessageBuilder)
    ensures
        one_step_on(mail, StepView::Subject(subject@), r),
{
    mail.subject(subject)
}

/// `lettre`: `MessageBuilder::message_id`.
#[verifier::external_body]
fn add_message_id(mail: lettre::message::MessageBuilder, id: &str) -> (r:
    lettre::message::MessageBuilder)
    ensures
        one_step_on(mail, StepView::MessageId(id@), r),
{
    mail.message_id(Some(id.to_string()))
}

/// `lettre`: `MessageBuilder::in_reply_to`.
#[verifier::external_body]
fn add_in_reply_to(mail: lettre::message::MessageBuilder, id: &str) -> (r:
    lettre::message::MessageBuilder)
    ensures
        one_step_on(mail, StepView::InReplyTo(id@), r),
{
    mail.in_reply_to(id.to_string())
}

/// `lettre`: `MessageBuilder::references`.
#[verifier::external_body]
fn add_references(mail: lettre::message::MessageBuilder, ids: &str) -> (r:
    lettre::message::MessageBuilder)
    ensures
        one_step_on(mail, StepView::References(ids@), r),
{
    mail.references(ids.to_string())
}

/// `lettre`: `MessageBuilder::body`, and of the mail its bytes and its envelope. The
/// envelope, and whether there is a mail, come of the headers alone. The bytes say
/// when the mail was written, so they are not the same at another time.
#[verifier::external_body]
fn finish_plain(mail: lettre::message::MessageBuilder, body: &str) -> (r: Result<ReadyMail, String>)
    ensures
        forall|steps: Seq<StepView>|
            mail == #[trigger] written(steps) ==> match r {
                Ok(ready) => mail_envelope(steps) == Ok::<
                    (Option<Seq<char>>, Seq<Seq<char>>),
                    Seq<char>,
                >((opt_text(ready.sender), texts(ready.recipients@))) && exists|chance: Seq<u8>|
                    ready.bytes@ == #[trigger] plain_bytes(steps, body@, chance),
                Err(e) => mail_envelope(steps) == Err::<
                    (Option<Seq<char>>, Seq<Seq<char>>),
                    Seq<char>,
                >(e@),
            },
{
    let mail = mail.body(body.to_string()).map_err(|e| e.to_string())?;
    Ok(
        ReadyMail {
            bytes: mail.formatted(),
            sender: mail.envelope().from().map(|a| a.to_string()),
            recipients: mail.envelope().to().iter().map(|a| a.to_string()).collect(),
        },
    )
}

/// `lettre`: `MessageBuilder::multipart` with
/// `MultiPart::alternative_plain_html`, and of the mail its bytes and its
/// envelope. The envelope, and whether there is a mail, come of the headers alone.
/// The bytes say when the mail was written, and the marks between its parts are
/// drawn at random, so they are not the same another time.
#[verifier::external_body]
fn finish_html(mail: lettre::message::MessageBuilder, plain: &str, html: &str) -> (r: Result<
    ReadyMail,
    String,
>)
    ensures
        forall|steps: Seq<StepView>|
            mail == #[trigger] written(steps) ==> match r {
                Ok(ready) => mail_envelope(steps) == Ok::<
                    (Option<Seq<char>>, Seq<Seq<char>>),
                    Seq<char>,
                >((opt_text(ready.sender), texts(ready.recipients@))) && exists|chance: Seq<u8>|
                    ready.bytes@ == #[trigger] html_bytes(steps, plain@, html@, chance),
                Err(e) => mail_envelope(steps) == Err::<
                    (Option<Seq<char>>, Seq<Seq<char>>),
                    Seq<char>,
                >(e@),
            },
{
    let parts = lettre::message::MultiPart::alternative_plain_html(
        plain.to_string(),
        html.to_string(),
    );
    let mail = mail.multipart(parts).map_err(|e| e.to_string())?;
    Ok(
        ReadyMail {
            bytes: mail.formatted(),
            sender: mail.envelope().from().map(|a| a.to_string()),
            recipients: mail.envelope().to().iter().map(|a| a.to_string()).collect(),
        },
    )
}

/// The mailbox that a step names.
pub open spec fn step_mailbox(step: StepView) -> Option<EntryView> {
    match step {
        StepView::From(m) => Some(m),
        StepView::To(m) => Some(m),
        StepView::Cc(m) => Some(m),
        StepView::Bcc(m) => Some(m),
        StepView::ReplyTo(m) => Some(m),
        _ => None,
    }
}

/// What is wrong with a mailbox that a mail is to name.
pub open spec fn mailbox_fault(m: EntryView) -> Option<Seq<char>> {
    if one_line_name(m) {
        address_fault(m.address)
    } else {
        Some("Mailbox name must not contain a line break"@)
    }
}

/// The first thing that is wrong with a mailbox that a step names.
pub open spec fn step_fault(steps: Seq<StepView>) -> Option<Seq<char>>
    decreases steps.len(),
{
    if steps.len() == 0 {
        None
    } else {
        match step_fault(steps.drop_last()) {
            Some(e) => Some(e),
            None => match step_mailbox(steps.last()) {
                Some(m) => mailbox_fault(m),
                None => None,
            },
        }
    }
}

/// What writing a mail by a plan can come to. Where something is wrong with a
/// mailbox, the first such thing. Else the mail that the steps and the text lead to,
/// for the sender and the recipients of [`mail_envelope`], or why there is none.
pub open spec fn came_of_plan(plan: MailPlanView, r: Result<ReadyView, Seq<char>>) -> bool {
    match step_fault(plan.steps) {
        Some(e) => r == Err::<ReadyView, Seq<char>>(e),
        None => match r {
            Ok(mail) => {
                &&& mail_envelope(plan.steps) == Ok::<
                    (Option<Seq<char>>, Seq<Seq<char>>),
                    Seq<char>,
                >((mail.sender, mail.recipients))
                &&& match plan.body {
                    BodyView::Plain(body) => exists|chance: Seq<u8>|
                        mail.bytes == #[trigger] plain_bytes(plan.steps, body, chance),
                    BodyView::Html { plain, html } => exists|chance: Seq<u8>|
                        mail.bytes == #[trigger] html_bytes(plan.steps, plain, html, chance),
                }
            },
            Err(e) => mail_envelope(plan.steps) == Err::<
                (Option<Seq<char>>, Seq<Seq<char>>),
                Seq<char>,
            >(e),
        },
    }
}

/// Refuses a step that names a mailbox whose name spans lines.
fn check_step(step: &MailStep) -> (r: Result<(), String>)
    ensures
        match r {
            Ok(()) => step_mailbox(step@) matches Some(m) ==> one_line_name(m),
            Err(e) => step_mailbox(step@) matches Some(m) && mailbox_fault(m) == Some(e@),
        },
{
    let m = match step {
        MailStep::From(m) | MailStep::To(m) | MailStep::Cc(m) | MailStep::Bcc(m)
        | MailStep::ReplyTo(m) => m,
        _ => {
            return Ok(());
        },
    };
    if has_one_line_name(m) {
        Ok(())
    } else {
        Err("Mailbox name must not contain a line break".to_owned())
    }
}

proof fn lemma_step_fault_stays(steps: Seq<StepView>, k: int)
    requires
        0 <= k <= steps.len(),
        step_fault(steps.take(k)) is Some,
    ensures
        step_fault(steps) == step_fault(steps.take(k)),
    decreases steps.len() - k,
{
    if k == steps.len() {
        assert(steps.take(k) =~= steps);
    } else {
        assert(steps.take(k + 1).drop_last() =~= steps.take(k));
        lemma_step_fault_stays(steps, k + 1);
    }
}

/// Writes a mail by a plan.
pub fn write_mail(plan: &MailPlan) -> (r: Result<ReadyMail, String>)
    ensures
        came_of_plan(plan@, ready_result(r)),
{
    let ghost all = step_views(plan.steps@);
    let mut mail = blank_mail();
    let mut i: usize = 0;
    assert(all.take(0) =~= Seq::<StepView>::empty());
    while i < plan.steps.len()
        invariant
            i <= plan.steps.len(),
            all == step_views(plan.steps@),
            all == plan@.steps,
            step_fault(all.take(i as int)) is None,
            mail == written(all.take(i as int)),
        decreases plan.steps.len() - i,
    {
        let ghost done = all.take(i as int);
        let ghost now = all.take(i + 1);
        proof {
            assert(now =~= done.push(all[i as int]));
            assert(now.drop_last() =~= done);
            assert(now.last() == all[i as int]);
            if step_fault(now) is Some {
                lemma_step_fault_stays(all, i + 1);
            }
        }
        match check_step(&plan.steps[i]) {
            Ok(()) => {},
            Err(e) => {
                return Err(e);
            },
        }
        let next = match &plan.steps[i] {
            MailStep::From(m) => add_from(mail, m),
            MailStep::Subject(s) => Ok(add_subject(mail, s.as_str())),
            MailStep::MessageId(s) => Ok(add_message_id(mail, s.as_str())),
            MailStep::To(m) => add_to(mail, m),
            MailStep::Cc(m) => add_cc(mail, m),
            MailStep::Bcc(m) => add_bcc(mail, m),
            MailStep::ReplyTo(m) => add_reply_to(mail, m),
            MailStep::InReplyTo(s) => Ok(add_in_reply_to(mail, s.as_str())),
            MailStep::References(s) => Ok(add_references(mail, s.as_str())),
        };
        match next {
            Ok(next) => {
                mail = next;
            },
            Err(e) => {
                return Err(e);
            },
        }
        i = i + 1;
    }
    assert(all.take(plan.steps.len() as int) =~= all);
    assert(mail == written(all));
    let r = match &plan.body {
        MailBody::Plain(body) => finish_plain(mail, body.as_str()),
        MailBody::Html { plain, html } => finish_html(mail, plain.as_str(), html.as_str()),
    };
    proof {
        if r is Ok {
            let ready = r->Ok_0@;
            assert(mail_envelope(plan@.steps) == Ok::<
                (Option<Seq<char>>, Seq<Seq<char>>),
                Seq<char>,
            >((ready.sender, ready.recipients)));
            match plan@.body {
                BodyView::Plain(body) => {
                    assert(exists|chance: Seq<u8>|
                        ready.bytes == #[trigger] plain_bytes(plan@.steps, body, chance));
                },
                BodyView::Html { plain, html } => {
                    assert(exists|chance: Seq<u8>|
                        ready.bytes == #[trigger] html_bytes(plan@.steps, plain, html, chance));
                },
            }
        }
    }
    r
}

/// Writes the mail that a user wants to send.
pub fn build_outbound_message(
    email: &str,
    input: &SendInput,
    reply: &Option<ReplyContext>,
    message_id: &str,
) -> (r: Result<ReadyMail, String>)
    ensures
        match mail_plan(email@, *input, *reply, message_id@) {
            Ok(plan) => came_of_plan(plan, ready_result(r)),
            Err(e) => ready_result(r) == Err::<ReadyView, Seq<char>>(e),
        },
{
    match outbound_plan(email, input, reply, message_id) {
        Ok(plan) => write_mail(&plan),
        Err(e) => Err(e),
    }
}

// ---------------------------------------------------------------------------
// Message ids
// ---------------------------------------------------------------------------
/// A hexadecimal digit, in lower case.
pub open spec fn hex_digit(c: char) -> bool {
    ('0' <= c && c <= '9') || ('a' <= c && c <= 'f')
}

/// The text of a random identifier: five groups of hexadecimal digits with hyphens
/// between them. The third group starts with its version, and the fourth with one of
/// the digits for its variant.
pub open spec fn identifier(s: Seq<char>) -> bool {
    &&& s.len() == 36
    &&& forall|i: int|
        0 <= i < s.len() ==> if i == 8 || i == 13 || i == 18 || i == 23 {
            #[trigger] s[i] == '-'
        } else {
            hex_digit(s[i])
        }
    &&& s[14] == '4'
    &&& s[19] == '8' || s[19] == '9' || s[19] == 'a' || s[19] == 'b'
}

/// `uuid::Uuid::new_v4`, as a text: in lower case, with hyphens, of version 4 and of
/// the variant of RFC 4122. Which identifier it is is left to chance.
#[verifier::external_body]
pub(crate) fn random_identifier() -> (r: String)
    ensures
        identifier(r@),
{
    uuid::Uuid::new_v4().to_string()
}

/// The domain of an address, or one of the program's own.
pub open spec fn id_domain(email: Seq<char>) -> Seq<char> {
    match rfind_char(email, '@', email.len() as int) {
        Some(a) => if blank(email.skip(a + 1)) {
            "mailwind.local"@
        } else {
            trim(email.skip(a + 1))
        },
        None => "mailwind.local"@,
    }
}

/// The id of a message from an address.
pub open spec fn message_id_from(identifier: Seq<char>, email: Seq<char>) -> Seq<char> {
    "<"@ + identifier + "@"@ + id_domain(email) + ">"@
}

/// Computes [`message_id_from`].
pub fn message_id_for(identifier: &str, email: &str) -> (r: String)
    ensures
        r@ == message_id_from(identifier@, email@),
{
    let v = chars_of(email);
    let mut domain = "mailwind.local".to_owned();
    if let Some(a) = rfind_one(&v, '@') {
        let rest = string_of(&v, a + 1, v.len());
        assert(rest@ =~= email@.skip(a + 1));
        let t = trimmed(rest.as_str());
        if !t.as_str().is_empty() {
            domain = t;
        }
    }
    let head = cat3("<", identifier, "@");
    cat3(head.as_str(), domain.as_str(), ">")
}

/// A new identifier: of a conversation, or of a request.
pub fn new_identifier() -> (r: String)
    ensures
        identifier(r@),
{
    random_identifier()
}

/// A new id for a message from an address.
pub fn outbound_message_id(email: &str) -> (r: String)
    ensures
        exists|id: Seq<char>| identifier(id) && r@ == #[trigger] message_id_from(id, email@),
{
    let id = random_identifier();
    message_id_for(id.as_str(), email)
}

// ---------------------------------------------------------------------------
// What is stored
// ---------------------------------------------------------------------------
/// The stored message for a mail that was sent. A reply belongs to the
/// conversation of the message that it answers, any other mail to a new one.
pub open spec fn sent_view(
    email: Seq<char>,
    input: SendInput,
    reply: Option<ReplyContext>,
    message_id: Seq<char>,
    new_thread: Seq<char>,
    now: i64,
) -> MessageView {
    MessageView {
        provider_message_id: "local-sent:"@ + message_id,
        thread_id: match reply {
            Some(r) => r.thread_id@,
            None => new_thread,
        },
        message_header_id: message_id,
        in_reply_to: match reply {
            Some(r) => r.message_header_id@,
            None => Seq::empty(),
        },
        references_header: match reply {
            Some(r) => reply_references(r.references_header@, r.message_header_id@),
            None => Seq::empty(),
        },
        normalized_subject: subject_key(input.subject@),
        folder: "Sent"@,
        subject: clean(input.subject@),
        from_addr: email,
        to_addr: input.to@,
        cc_addr: match input.cc {
            Some(cc) => cc@,
            None => Seq::empty(),
        },
        date_ts: now,
        snippet: snippet(input.body@, input.body_mime@),
        body: input.body@,
        body_mime: input.body_mime@,
        is_read: true,
        attachments: Seq::empty(),
    }
}

/// Computes [`sent_view`].
pub fn sent_message(
    email: &str,
    input: &SendInput,
    reply: &Option<ReplyContext>,
    message_id: &str,
    new_thread: &str,
    now: i64,
) -> (r: NewMessage)
    ensures
        r@ == sent_view(email@, *input, *reply, message_id@, new_thread@, now),
{
    let (thread_id, in_reply_to, references_header): (String, String, String) = match reply {
        Some(r) => (copy(&r.thread_id), copy(&r.message_header_id), reply_references_header(r)),
        None => (new_thread.to_owned(), String::new(), String::new()),
    };
    let attachments: Vec<NewAttachment> = Vec::new();
    assert(attachment_views(attachments@) =~= Seq::<AttachmentView>::empty());
    NewMessage {
        provider_message_id: cat("local-sent:", message_id),
        thread_id,
        message_header_id: message_id.to_owned(),
        in_reply_to,
        references_header,
        normalized_subject: normalize_subject_key(input.subject.as_str()),
        folder: "Sent".to_owned(),
        subject: clean_header_value(input.subject.as_str()),
        from_addr: email.to_owned(),
        to_addr: copy(&input.to),
        cc_addr: match &input.cc {
            Some(cc) => copy(cc),
            None => String::new(),
        },
        date_ts: now,
        snippet: snippet_for_body(input.body.as_str(), input.body_mime.as_str()),
        body: copy(&input.body),
        body_mime: copy(&input.body_mime),
        is_read: true,
        attachments,
    }
}

// ---------------------------------------------------------------------------
// Laws
// ---------------------------------------------------------------------------
/// Law: whenever a mail is written by a plan, the server is told the same sender and
/// the same recipients of it, or there is no mail for the same reason.
pub proof fn a_plan_has_one_envelope(
    plan: MailPlanView,
    first: Result<ReadyView, Seq<char>>,
    second: Result<ReadyView, Seq<char>>,
)
    requires
        came_of_plan(plan, first),
        came_of_plan(plan, second),
    ensures
        match first {
            Ok(mail) => second is Ok && second->Ok_0.sender == mail.sender
                && second->Ok_0.recipients == mail.recipients,
            Err(_) => second == first,
        },
{
}

/// Law: a mail that is to name a mailbox whose name spans lines is not written.
pub proof fn names_that_span_lines_are_refused(
    plan: MailPlanView,
    k: int,
    r: Result<ReadyView, Seq<char>>,
)
    requires
        0 <= k < plan.steps.len(),
        step_mailbox(plan.steps[k]) matches Some(m) && !one_line_name(m),
        came_of_plan(plan, r),
    ensures
        r is Err,
{
    let now = plan.steps.take(k + 1);
    assert(now.last() == plan.steps[k]);
    lemma_step_fault_stays(plan.steps, k + 1);
}

/// Law: the id of a message from here is read back as it was written, whatever
/// the address, so long as no closing bracket stands in it.
pub proof fn outbound_ids_are_canonical(id: Seq<char>, email: Seq<char>)
    requires
        identifier(id),
        lacks(email, '>'),
    ensures
        canonical(message_id_from(id, email)),
{
    reveal_strlit("<");
    reveal_strlit("@");
    reveal_strlit(">");
    reveal_strlit("mailwind.local");
    let d = id_domain(email);
    let inner = id + "@"@ + d;
    let p = message_id_from(id, email);
    lemma_rfind_char(email, '@', email.len() as int);
    assert(d.len() > 0 && !white(d.last()) && forall|i: int| 0 <= i < d.len() ==> #[trigger] d[i] != '>')
        by {
        match rfind_char(email, '@', email.len() as int) {
            Some(a) => {
                let rest = email.skip(a + 1);
                if !blank(rest) {
                    lemma_trimmed(rest);
                    lemma_trim_range(rest);
                    assert forall|i: int| 0 <= i < d.len() implies #[trigger] d[i] != '>' by {
                        let k = crate::text::skip_white(rest, 0);
                        assert(d[i] == rest[k + i]);
                        assert(rest[k + i] == email[a + 1 + k + i]);
                    }
                } else {
                    assert(d.last() == 'l');
                }
            },
            None => {
                assert(d.last() == 'l');
            },
        }
    }
    assert(p =~= seq!['<'] + inner + seq!['>']);
    assert(p.subrange(1, p.len() - 1) =~= inner);
    assert(inner[0] == id[0]);
    assert(inner.last() == d.last());
    assert(!white(inner[0]));
    crate::text::lemma_already_trimmed(inner);
    assert forall|i: int| 0 <= i < p.len() - 1 implies #[trigger] p[i] != '>' by {
        if 1 <= i <= 36 {
            assert(p[i] == id[i - 1]);
        } else if i > 37 {
            assert(p[i] == d[i - 38]);
        }
    }
}

/// Law: a reply that was sent stays in the conversation of the message that it
/// answers, and is tied to it by the id that its mail names.
pub proof fn sent_reply_stays_in_its_conversation(
    email: Seq<char>,
    input: SendInput,
    reply: ReplyContext,
    message_id: Seq<char>,
    new_thread: Seq<char>,
    now: i64,
)
    ensures
        ({
            let sent = sent_view(email, input, Some(reply), message_id, new_thread, now);
            &&& sent.thread_id == reply.thread_id@
            &&& !blank(reply.message_header_id@) ==> reply_steps(Some(reply)) == seq![
                StepView::InReplyTo(sent.in_reply_to),
                StepView::References(sent.references_header),
            ]
        }),
{
}

/// Law: when a mail that was sent comes back from an IMAP server with its message
/// id, it takes the place of the message that was stored when it was sent.
pub proof fn returned_mail_replaces_what_was_stored(
    id: Seq<char>,
    email: Seq<char>,
    input: SendInput,
    reply: Option<ReplyContext>,
    new_thread: Seq<char>,
    now: i64,
    folder: Seq<char>,
    uid: u32,
)
    requires
        identifier(id),
        lacks(email, '>'),
        lacks(folder, '<'),
    ensures
        ({
            let message_id = message_id_from(id, email);
            let stored = sent_view(email, input, reply, message_id, new_thread, now);
            &&& stored.message_header_id == message_id
            &&& superseded_copy(stored.folder, provider_id(folder, uid, Some(message_id))) == Some(
                stored.provider_message_id,
            )
        }),
{
    outbound_ids_are_canonical(id, email);
    returned_message_supersedes_its_copy(folder, uid, message_id_from(id, email));
}

proof fn lemma_filter_all(s: Seq<StepView>, pred: spec_fn(StepView) -> bool)
    requires
        forall|i: int| 0 <= i < s.len() ==> pred(#[trigger] s[i]),
    ensures
        s.filter(pred) == s,
    decreases s.len(),
{
    reveal(Seq::filter);
    if s.len() > 0 {
        let front = s.drop_last();
        assert forall|i: int| 0 <= i < front.len() implies pred(#[trigger] front[i]) by {
            assert(pred(s[i]));
        }
        lemma_filter_all(front, pred);
        assert(pred(s[s.len() - 1]));
        assert(front.push(s.last()) =~= s);
    }
}

proof fn lemma_filter_none(s: Seq<StepView>, pred: spec_fn(StepView) -> bool)
    requires
        forall|i: int| 0 <= i < s.len() ==> !pred(#[trigger] s[i]),
    ensures
        s.filter(pred) == Seq::<StepView>::empty(),
    decreases s.len(),
{
    reveal(Seq::filter);
    if s.len() > 0 {
        let front = s.drop_last();
        assert forall|i: int| 0 <= i < front.len() implies !pred(#[trigger] front[i]) by {
            assert(!pred(s[i]));
        }
        lemma_filter_none(front, pred);
        assert(!pred(s[s.len() - 1]));
    }
}

proof fn lemma_filter_six(
    a: Seq<StepView>,
    b: Seq<StepView>,
    c: Seq<StepView>,
    d: Seq<StepView>,
    e: Seq<StepView>,
    f: Seq<StepView>,
    pred: spec_fn(StepView) -> bool,
)
    ensures
        (a + b + c + d + e + f).filter(pred) == a.filter(pred) + b.filter(pred) + c.filter(pred)
            + d.filter(pred) + e.filter(pred) + f.filter(pred),
{
    Seq::filter_distributes_over_add(a, b, pred);
    Seq::filter_distributes_over_add(a + b, c, pred);
    Seq::filter_distributes_over_add(a + b + c, d, pred);
    Seq::filter_distributes_over_add(a + b + c + d, e, pred);
    Seq::filter_distributes_over_add(a + b + c + d + e, f, pred);
}

/// None of some steps names a recipient.
spec fn names_nobody(steps: Seq<StepView>) -> bool {
    forall|i: int|
        0 <= i < steps.len() ==> !(#[trigger] steps[i] is To || steps[i] is Cc || steps[i] is Bcc)
}

proof fn lemma_to_steps(
    a: Seq<StepView>,
    to: Seq<EntryView>,
    cc: Seq<EntryView>,
    bcc: Seq<EntryView>,
    e: Seq<StepView>,
    f: Seq<StepView>,
)
    requires
        names_nobody(a),
        names_nobody(e),
        names_nobody(f),
    ensures
        (a + recipient_steps(RecipientKind::To, to) + recipient_steps(RecipientKind::Cc, cc)
            + recipient_steps(RecipientKind::Bcc, bcc) + e + f).filter(|s: StepView| s is To)
            == to.map_values(|m: EntryView| StepView::To(m)),
{
    let b = recipient_steps(RecipientKind::To, to);
    let c = recipient_steps(RecipientKind::Cc, cc);
    let d = recipient_steps(RecipientKind::Bcc, bcc);
    let pred = |s: StepView| s is To;
    lemma_filter_six(a, b, c, d, e, f, pred);
    lemma_filter_none(a, pred);
    lemma_filter_all(b, pred);
    lemma_filter_none(c, pred);
    lemma_filter_none(d, pred);
    lemma_filter_none(e, pred);
    lemma_filter_none(f, pred);
    let none = Seq::<StepView>::empty();
    assert(none + b + none + none + none + none =~= b);
    assert(b =~= to.map_values(|m: EntryView| StepView::To(m)));
}

proof fn lemma_cc_steps(
    a: Seq<StepView>,
    to: Seq<EntryView>,
    cc: Seq<EntryView>,
    bcc: Seq<EntryView>,
    e: Seq<StepView>,
    f: Seq<StepView>,
)
    requires
        names_nobody(a),
        names_nobody(e),
        names_nobody(f),
    ensures
        (a + recipient_steps(RecipientKind::To, to) + recipient_steps(RecipientKind::Cc, cc)
            + recipient_steps(RecipientKind::Bcc, bcc) + e + f).filter(|s: StepView| s is Cc)
            == cc.map_values(|m: EntryView| StepView::Cc(m)),
{
    let b = recipient_steps(RecipientKind::To, to);
    let c = recipient_steps(RecipientKind::Cc, cc);
    let d = recipient_steps(RecipientKind::Bcc, bcc);
    let pred = |s: StepView| s is Cc;
    lemma_filter_six(a, b, c, d, e, f, pred);
    lemma_filter_none(a, pred);
    lemma_filter_none(b, pred);
    lemma_filter_all(c, pred);
    lemma_filter_none(d, pred);
    lemma_filter_none(e, pred);
    lemma_filter_none(f, pred);
    let none = Seq::<StepView>::empty();
    assert(none + none + c + none + none + none =~= c);
    assert(c =~= cc.map_values(|m: EntryView| StepView::Cc(m)));
}

proof fn lemma_bcc_steps(
    a: Seq<StepView>,
    to: Seq<EntryView>,
    cc: Seq<EntryView>,
    bcc: Seq<EntryView>,
    e: Seq<StepView>,
    f: Seq<StepView>,
)
    requires
        names_nobody(a),
        names_nobody(e),
        names_nobody(f),
    ensures
        (a + recipient_steps(RecipientKind::To, to) + recipient_steps(RecipientKind::Cc, cc)
            + recipient_steps(RecipientKind::Bcc, bcc) + e + f).filter(|s: StepView| s is Bcc)
            == bcc.map_values(|m: EntryView| StepView::Bcc(m)),
{
    let b = recipient_steps(RecipientKind::To, to);
    let c = recipient_steps(RecipientKind::Cc, cc);
    let d = recipient_steps(RecipientKind::Bcc, bcc);
    let pred = |s: StepView| s is Bcc;
    lemma_filter_six(a, b, c, d, e, f, pred);
    lemma_filter_none(a, pred);
    lemma_filter_none(b, pred);
    lemma_filter_none(c, pred);
    lemma_filter_all(d, pred);
    lemma_filter_none(e, pred);
    lemma_filter_none(f, pred);
    let none = Seq::<StepView>::empty();
    assert(none + none + none + d + none + none =~= d);
    assert(d =~= bcc.map_values(|m: EntryView| StepView::Bcc(m)));
}

/// The mailboxes that the address parser finds in what a user entered for copies.
pub open spec fn entered(value: Option<Seq<char>>) -> Seq<EntryView> {
    match value {
        Some(text) => if blank(text) {
            Seq::empty()
        } else {
            all_members(address_list(trim(text))->Ok_0)
        },
        None => Seq::empty(),
    }
}

/// Law: a mail goes to everyone whom the user entered. The recipients of a plan are,
/// one for one and in order, all mailboxes that the address parser finds in what was
/// entered for them; nobody is left out, nobody is added, and nobody who gets a hidden
/// copy is named to the others.
pub proof fn every_recipient_is_in_the_plan(
    email: Seq<char>,
    input: SendInput,
    reply: Option<ReplyContext>,
    message_id: Seq<char>,
)
    requires
        mail_plan(email, input, reply, message_id) is Ok,
    ensures
        ({
            let steps = mail_plan(email, input, reply, message_id)->Ok_0.steps;
            &&& address_list(input.to@) is Ok
            &&& steps.filter(|s: StepView| s is To) == all_members(
                address_list(input.to@)->Ok_0,
            ).map_values(|m: EntryView| StepView::To(m))
            &&& steps.filter(|s: StepView| s is Cc) == entered(opt_text(input.cc)).map_values(
                |m: EntryView| StepView::Cc(m),
            )
            &&& steps.filter(|s: StepView| s is Bcc) == entered(opt_text(input.bcc)).map_values(
                |m: EntryView| StepView::Bcc(m),
            )
            &&& (opt_text(input.cc) matches Some(cc) && !blank(cc)) ==> address_list(
                trim(input.cc->Some_0@),
            ) is Ok
            &&& (opt_text(input.bcc) matches Some(bcc) && !blank(bcc)) ==> address_list(
                trim(input.bcc->Some_0@),
            ) is Ok
        }),
{
    let to = mailbox_list(input.to@, "To"@)->Ok_0;
    let cc = optional_mailbox_list(opt_text(input.cc), "Cc"@)->Ok_0;
    let bcc = optional_mailbox_list(opt_text(input.bcc), "Bcc"@)->Ok_0;
    let a = seq![
        StepView::From(named_mailbox(email)->Ok_0),
        StepView::Subject(input.subject@),
        StepView::MessageId(message_id),
    ];
    let e = reply_to_step(opt_text(input.reply_to))->Ok_0;
    let f = reply_steps(reply);
    assert(names_nobody(a));
    assert(names_nobody(e));
    assert(names_nobody(f));
    lemma_to_steps(a, to, cc, bcc, e, f);
    lemma_cc_steps(a, to, cc, bcc, e, f);
    lemma_bcc_steps(a, to, cc, bcc, e, f);
    assert(to == all_members(address_list(input.to@)->Ok_0));
    assert(cc =~= entered(opt_text(input.cc)));
    assert(bcc =~= entered(opt_text(input.bcc)));
}

/// What none of six stretches has from the second on.
proof fn lemma_only_in_front(
    a: Seq<StepView>,
    b: Seq<StepView>,
    c: Seq<StepView>,
    d: Seq<StepView>,
    e: Seq<StepView>,
    f: Seq<StepView>,
    pred: spec_fn(StepView) -> bool,
)
    requires
        forall|i: int| 0 <= i < b.len() ==> !pred(#[trigger] b[i]),
        forall|i: int| 0 <= i < c.len() ==> !pred(#[trigger] c[i]),
        forall|i: int| 0 <= i < d.len() ==> !pred(#[trigger] d[i]),
        forall|i: int| 0 <= i < e.len() ==> !pred(#[trigger] e[i]),
        forall|i: int| 0 <= i < f.len() ==> !pred(#[trigger] f[i]),
    ensures
        forall|i: int|
            a.len() <= i < (a + b + c + d + e + f).len() ==> !pred(
                #[trigger] (a + b + c + d + e + f)[i],
            ),
{
    let s = a + b + c + d + e + f;
    assert forall|i: int| a.len() <= i < s.len() implies !pred(#[trigger] s[i]) by {
        let n = i - a.len();
        if n < b.len() {
            assert(s[i] == b[n]);
        } else if n < b.len() + c.len() {
            assert(s[i] == c[n - b.len()]);
        } else if n < b.len() + c.len() + d.len() {
            assert(s[i] == d[n - b.len() - c.len()]);
        } else if n < b.len() + c.len() + d.len() + e.len() {
            assert(s[i] == e[n - b.len() - c.len() - d.len()]);
        } else {
            assert(s[i] == f[n - b.len() - c.len() - d.len() - e.len()]);
        }
    }
}

/// None of some steps says where answers go.
spec fn names_no_answer(steps: Seq<StepView>) -> bool {
    forall|i: int| 0 <= i < steps.len() ==> !(#[trigger] steps[i] is ReplyTo)
}

proof fn lemma_answer_steps(
    a: Seq<StepView>,
    to: Seq<EntryView>,
    cc: Seq<EntryView>,
    bcc: Seq<EntryView>,
    e: Seq<StepView>,
    f: Seq<StepView>,
)
    requires
        names_no_answer(a),
        names_no_answer(f),
        forall|i: int| 0 <= i < e.len() ==> #[trigger] e[i] is ReplyTo,
    ensures
        (a + recipient_steps(RecipientKind::To, to) + recipient_steps(RecipientKind::Cc, cc)
            + recipient_steps(RecipientKind::Bcc, bcc) + e + f).filter(|s: StepView| s is ReplyTo)
            == e,
{
    let b = recipient_steps(RecipientKind::To, to);
    let c = recipient_steps(RecipientKind::Cc, cc);
    let d = recipient_steps(RecipientKind::Bcc, bcc);
    let pred = |s: StepView| s is ReplyTo;
    lemma_filter_six(a, b, c, d, e, f, pred);
    lemma_filter_none(a, pred);
    lemma_filter_none(b, pred);
    lemma_filter_none(c, pred);
    lemma_filter_none(d, pred);
    lemma_filter_all(e, pred);
    lemma_filter_none(f, pred);
    let none = Seq::<StepView>::empty();
    assert(none + none + none + none + e + none =~= e);
}

/// Law: a mail is sent by the account that sends it, under the subject and the id
/// that it was given, each named once, and with what the user wrote: as plain text, or
/// as HTML with its readable text beside it.
pub proof fn plans_say_what_the_user_wrote(
    email: Seq<char>,
    input: SendInput,
    reply: Option<ReplyContext>,
    message_id: Seq<char>,
)
    requires
        mail_plan(email, input, reply, message_id) is Ok,
    ensures
        ({
            let plan = mail_plan(email, input, reply, message_id)->Ok_0;
            &&& named_mailbox(email) is Ok
            &&& plan.steps.len() > 3
            &&& plan.steps[0] == StepView::From(named_mailbox(email)->Ok_0)
            &&& plan.steps[1] == StepView::Subject(input.subject@)
            &&& plan.steps[2] == StepView::MessageId(message_id)
            &&& forall|i: int|
                3 <= i < plan.steps.len() ==> !(#[trigger] plan.steps[i] is From
                    || plan.steps[i] is Subject || plan.steps[i] is MessageId)
            &&& contains_ci(input.body_mime@, "html"@) ==> plan.body == (BodyView::Html {
                plain: readable(input.body@),
                html: input.body@,
            })
            &&& !contains_ci(input.body_mime@, "html"@) ==> plan.body == BodyView::Plain(
                input.body@,
            )
        }),
{
    let to = mailbox_list(input.to@, "To"@)->Ok_0;
    let cc = optional_mailbox_list(opt_text(input.cc), "Cc"@)->Ok_0;
    let bcc = optional_mailbox_list(opt_text(input.bcc), "Bcc"@)->Ok_0;
    let a = seq![
        StepView::From(named_mailbox(email)->Ok_0),
        StepView::Subject(input.subject@),
        StepView::MessageId(message_id),
    ];
    let b = recipient_steps(RecipientKind::To, to);
    let c = recipient_steps(RecipientKind::Cc, cc);
    let d = recipient_steps(RecipientKind::Bcc, bcc);
    let e = reply_to_step(opt_text(input.reply_to))->Ok_0;
    let f = reply_steps(reply);
    lemma_only_in_front(
        a,
        b,
        c,
        d,
        e,
        f,
        |s: StepView| s is From || s is Subject || s is MessageId,
    );
}

/// Law: a reply ends by naming the message that it answers and, before that message,
/// those which that one named; a mail that is no reply names none.
pub proof fn replies_end_with_what_they_answer(
    email: Seq<char>,
    input: SendInput,
    reply: Option<ReplyContext>,
    message_id: Seq<char>,
)
    requires
        mail_plan(email, input, reply, message_id) is Ok,
    ensures
        ({
            let steps = mail_plan(email, input, reply, message_id)->Ok_0.steps;
            let n = steps.len() as int;
            &&& (reply matches Some(r) && !blank(r.message_header_id@)) ==> n >= 2 && steps[n - 2]
                == StepView::InReplyTo(reply->Some_0.message_header_id@) && steps[n - 1]
                == StepView::References(
                reply_references(
                    reply->Some_0.references_header@,
                    reply->Some_0.message_header_id@,
                ),
            )
            &&& (reply is None || blank(reply->Some_0.message_header_id@)) ==> forall|i: int|
                0 <= i < n ==> !(#[trigger] steps[i] is InReplyTo || steps[i] is References)
        }),
{
    let to = mailbox_list(input.to@, "To"@)->Ok_0;
    let cc = optional_mailbox_list(opt_text(input.cc), "Cc"@)->Ok_0;
    let bcc = optional_mailbox_list(opt_text(input.bcc), "Bcc"@)->Ok_0;
    let a = seq![
        StepView::From(named_mailbox(email)->Ok_0),
        StepView::Subject(input.subject@),
        StepView::MessageId(message_id),
    ];
    let b = recipient_steps(RecipientKind::To, to);
    let c = recipient_steps(RecipientKind::Cc, cc);
    let d = recipient_steps(RecipientKind::Bcc, bcc);
    let e = reply_to_step(opt_text(input.reply_to))->Ok_0;
    let f = reply_steps(reply);
    if f.len() == 0 {
        lemma_only_in_front(a, b, c, d, e, f, |s: StepView| s is InReplyTo || s is References);
    }
}

/// Law: answers go to the one mailbox that the user entered for them, and where none
/// was entered none is named.
pub proof fn answers_go_to_what_was_entered(
    email: Seq<char>,
    input: SendInput,
    reply: Option<ReplyContext>,
    message_id: Seq<char>,
)
    requires
        mail_plan(email, input, reply, message_id) is Ok,
    ensures
        ({
            let steps = mail_plan(email, input, reply, message_id)->Ok_0.steps;
            let answers = steps.filter(|s: StepView| s is ReplyTo);
            &&& (input.reply_to is None || blank(input.reply_to->Some_0@)) ==> answers.len() == 0
            &&& (input.reply_to is Some && !blank(input.reply_to->Some_0@)) ==> ({
                let list = all_members(address_list(input.reply_to->Some_0@)->Ok_0);
                &&& address_list(input.reply_to->Some_0@) is Ok
                &&& list.len() == 1 && answers.len() == 1
                &&& answers[0] == StepView::ReplyTo(list[0])
            })
        }),
{
    let to = mailbox_list(input.to@, "To"@)->Ok_0;
    let cc = optional_mailbox_list(opt_text(input.cc), "Cc"@)->Ok_0;
    let bcc = optional_mailbox_list(opt_text(input.bcc), "Bcc"@)->Ok_0;
    let a = seq![
        StepView::From(named_mailbox(email)->Ok_0),
        StepView::Subject(input.subject@),
        StepView::MessageId(message_id),
    ];
    let e = reply_to_step(opt_text(input.reply_to))->Ok_0;
    let f = reply_steps(reply);
    assert(names_no_answer(a));
    assert(names_no_answer(f));
    lemma_answer_steps(a, to, cc, bcc, e, f);
}

/// Law: the mailboxes of a list are those of its elements, one element after the
/// other, groups and single mailboxes alike.
pub proof fn lists_hold_every_member(
    a: Seq<Seq<EntryView>>,
    b: Seq<Seq<EntryView>>,
    one: Seq<EntryView>,
)
    ensures
        all_members(a + b) == all_members(a) + all_members(b),
        all_members(seq![one]) == one,
{
    lemma_members_add(a, b);
    let single = seq![one];
    assert(all_members(single.drop_last()) == Seq::<EntryView>::empty());
    assert(single.last() == one);
    assert(all_members(single) == all_members(single.drop_last()) + single.last());
    assert(Seq::<EntryView>::empty() + one =~= one);
}

/// Law: a list is refused exactly where mail cannot go to one of its mailboxes, and
/// then for what is wrong with the first such one.
pub proof fn one_bad_address_is_enough(entries: Seq<EntryView>, k: int)
    requires
        0 <= k <= entries.len(),
        forall|j: int| 0 <= j < k ==> address_fault((#[trigger] entries[j]).address) is None,
        k < entries.len() ==> address_fault(entries[k].address) is Some,
    ensures
        first_fault(entries) == if k < entries.len() {
            address_fault(entries[k].address)
        } else {
            None
        },
    decreases entries.len(),
{
    if entries.len() > 0 {
        let front = entries.drop_last();
        if k < front.len() {
            assert forall|j: int| 0 <= j < k implies address_fault((#[trigger] front[j]).address) is None by {
                assert(address_fault(entries[j].address) is None);
            }
            one_bad_address_is_enough(front, k);
        } else {
            assert forall|j: int| 0 <= j < front.len() implies address_fault(
                (#[trigger] front[j]).address,
            ) is None by {
                assert(address_fault(entries[j].address) is None);
            }
            one_bad_address_is_enough(front, front.len() as int);
            if k == entries.len() {
                assert(address_fault(entries[entries.len() - 1].address) is None);
            }
        }
    }
}

/// Law: the id of a message names the domain of its sender, the program's own where
/// the sender has none, and it holds the identifier that it was made from.
pub proof fn ids_name_the_sending_domain(id: Seq<char>, local: Seq<char>, domain: Seq<char>)
    requires
        lacks(domain, '@'),
    ensures
        !blank(domain) ==> message_id_from(id, local + seq!['@'] + domain) == "<"@ + id + "@"@ + trim(
            domain,
        ) + ">"@,
        blank(domain) ==> message_id_from(id, local + seq!['@'] + domain) == "<"@ + id + "@"@
            + "mailwind.local"@ + ">"@,
        lacks(local, '@') ==> message_id_from(id, local) == "<"@ + id + "@"@ + "mailwind.local"@
            + ">"@,
{
    let email = local + seq!['@'] + domain;
    let n = local.len() as int;
    lemma_rfind_char(email, '@', email.len() as int);
    lemma_rfind_char(local, '@', local.len() as int);
    assert(email[n] == '@');
    match rfind_char(email, '@', email.len() as int) {
        Some(a) => {
            if a > n {
                assert(email[a] == domain[a - n - 1]);
            }
            assert(a == n);
            assert(email.skip(a + 1) =~= domain);
        },
        None => {},
    }
}

/// Law: what is stored of a mail that was sent is what was sent: from the account
/// that sent it, to whom the user entered, with subject and text, read, in the folder
/// of sent mail, and in the conversation of the message that it answers.
pub proof fn sent_mail_is_stored_as_it_was_sent(
    email: Seq<char>,
    input: SendInput,
    reply: Option<ReplyContext>,
    message_id: Seq<char>,
    new_thread: Seq<char>,
    now: i64,
)
    ensures
        ({
            let m = sent_view(email, input, reply, message_id, new_thread, now);
            &&& m.provider_message_id == "local-sent:"@ + message_id
            &&& m.message_header_id == message_id
            &&& m.folder == "Sent"@ && m.is_read && m.date_ts == now
            &&& m.from_addr == email
            &&& m.to_addr == input.to@
            &&& input.cc matches Some(cc) ==> m.cc_addr == cc@
            &&& input.cc is None ==> m.cc_addr.len() == 0
            &&& m.subject == clean(input.subject@)
            &&& m.normalized_subject == subject_key(input.subject@)
            &&& m.body == input.body@ && m.body_mime == input.body_mime@
            &&& m.snippet == snippet(input.body@, input.body_mime@)
            &&& m.attachments.len() == 0
            &&& reply matches Some(r) ==> m.thread_id == r.thread_id@ && m.in_reply_to
                == r.message_header_id@ && m.references_header == reply_references(
                r.references_header@,
                r.message_header_id@,
            )
            &&& reply is None ==> m.thread_id == new_thread && m.in_reply_to.len() == 0
                && m.references_header.len() == 0
        }),
{
}

/// Mail can go to each of some mailboxes.
pub open spec fn reachable(entries: Seq<EntryView>) -> bool {
    forall|i: int| 0 <= i < entries.len() ==> address_fault((#[trigger] entries[i]).address) is None
}

proof fn lemma_reachable(entries: Seq<EntryView>)
    ensures
        first_fault(entries) is None <==> reachable(entries),
    decreases entries.len(),
{
    if entries.len() > 0 {
        let front = entries.drop_last();
        lemma_reachable(front);
        if reachable(front) && address_fault(entries.last().address) is None {
            assert forall|i: int| 0 <= i < entries.len() implies address_fault(
                (#[trigger] entries[i]).address,
            ) is None by {
                if i < front.len() {
                    assert(address_fault(front[i].address) is None);
                }
            }
        }
        if reachable(entries) {
            assert forall|i: int| 0 <= i < front.len() implies address_fault(
                (#[trigger] front[i]).address,
            ) is None by {
                assert(address_fault(entries[i].address) is None);
            }
            assert(address_fault(entries[entries.len() - 1].address) is None);
        }
    }
}

/// What a user entered for copies is missing, blank, or a list of mailboxes that mail
/// can go to.
pub open spec fn well_entered(value: Option<Seq<char>>) -> bool {
    value matches Some(text) && !blank(text) ==> address_list(trim(value->Some_0)) is Ok
        && reachable(entered(value))
}

/// Law: a mail can be sent exactly where its sender has a mailbox, where at least one
/// recipient was entered, where mail can go to all of them and to those who get copies,
/// and where answers go to one mailbox, if to any.
pub proof fn good_mail_can_be_sent(
    email: Seq<char>,
    input: SendInput,
    reply: Option<ReplyContext>,
    message_id: Seq<char>,
)
    ensures
        mail_plan(email, input, reply, message_id) is Ok <==> {
            &&& named_mailbox(email) is Ok
            &&& address_list(input.to@) is Ok
            &&& all_members(address_list(input.to@)->Ok_0).len() > 0
            &&& reachable(all_members(address_list(input.to@)->Ok_0))
            &&& well_entered(opt_text(input.cc))
            &&& well_entered(opt_text(input.bcc))
            &&& input.reply_to is None || blank(input.reply_to->Some_0@) || {
                &&& address_list(input.reply_to->Some_0@) is Ok
                &&& all_members(address_list(input.reply_to->Some_0@)->Ok_0).len() == 1
                &&& reachable(all_members(address_list(input.reply_to->Some_0@)->Ok_0))
            }
        },
{
    lemma_reachable(all_members(address_list(input.to@)->Ok_0));
    lemma_reachable(entered(opt_text(input.cc)));
    lemma_reachable(entered(opt_text(input.bcc)));
    lemma_reachable(all_members(address_list(input.reply_to->Some_0@)->Ok_0));
}

} // verus!
