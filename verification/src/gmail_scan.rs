//! Going through the messages of a Gmail account: all of them for a sync, the
//! newest of the inbox for a poll.
//!
//! A scan does no input or output itself. It says what is to be done next, is
//! told what came of it, and goes on from there.
use vstd::hash_set::StringHashSet;
use vstd::prelude::*;

use crate::fetched::row_views;
use crate::folder_pass::plus;
use crate::codec::percent_encoded;
use crate::gmail::{gmail_is_read, gmail_message, gmail_to_message};
use crate::gmail_api::{
    gmail_full_message_url, gmail_list_url, gmail_next_page, gmail_page_ids, list_url, message_url,
    page_ids,
};
use crate::imap_id::{is_local_sent_id, local_sent};
use crate::json::{text_field, Json};
use crate::message::{MessageView, NewMessage};
use crate::number::decimal;
use crate::text::{copy, opt_as_str, opt_str, opt_text, texts};

verus! {

// ---------------------------------------------------------------------------
// What is gone
// ---------------------------------------------------------------------------
/// The texts of a list, as a set.
pub open spec fn text_set(list: Seq<Seq<char>>) -> Set<Seq<char>> {
    Set::new(|t: Seq<char>| list.contains(t))
}

/// Computes [`text_set`].
pub fn string_set(list: &Vec<String>) -> (r: StringHashSet)
    ensures
        r@ == text_set(texts(list@)),
{
    let ghost all = texts(list@);
    let mut r = StringHashSet::new();
    let mut i: usize = 0;
    assert(r@ =~= text_set(all.take(0)));
    while i < list.len()
        invariant
            i <= list.len(),
            all == texts(list@),
            r@ == text_set(all.take(i as int)),
        decreases list.len() - i,
    {
        let ghost before = all.take(i as int);
        let ghost now = all.take(i + 1);
        proof {
            assert(now =~= before.push(all[i as int]));
            assert forall|t: Seq<char>| now.contains(t) <==> (before.contains(t) || t
                == all[i as int]) by {
                if before.contains(t) {
                    let k = choose|k: int| 0 <= k < before.len() && before[k] == t;
                    assert(now[k] == t);
                }
                if t == all[i as int] {
                    assert(now[i as int] == t);
                }
            }
        }
        r.insert(copy(&list[i]));
        assert(r@ =~= text_set(now));
        i = i + 1;
    }
    assert(all.take(list.len() as int) =~= all);
    r
}

/// The rows whose messages are not among those in `keep`. The rows of messages that
/// were sent from here are not among them: Gmail knows no message by their names.
pub open spec fn not_in(rows: Seq<(i64, Seq<char>)>, keep: Set<Seq<char>>) -> Seq<i64>
    decreases rows.len(),
{
    if rows.len() == 0 {
        Seq::empty()
    } else {
        let rest = not_in(rows.drop_last(), keep);
        if keep.contains(rows.last().1) || local_sent(rows.last().1) {
            rest
        } else {
            rest.push(rows.last().0)
        }
    }
}

/// Computes [`not_in`].
pub fn missing_rows(rows: &Vec<(i64, String)>, keep: &StringHashSet) -> (r: Vec<i64>)
    ensures
        r@ == not_in(row_views(rows@), keep@),
{
    let ghost all = row_views(rows@);
    let mut r: Vec<i64> = Vec::new();
    let mut i: usize = 0;
    assert(all.take(0) =~= Seq::<(i64, Seq<char>)>::empty());
    while i < rows.len()
        invariant
            i <= rows.len(),
            all == row_views(rows@),
            r@ == not_in(all.take(i as int), keep@),
        decreases rows.len() - i,
    {
        proof {
            assert(all.take(i + 1).drop_last() =~= all.take(i as int));
            assert(all.take(i + 1).last() == (rows@[i as int].0, rows@[i as int].1@));
        }
        if !keep.contains(rows[i].1.as_str()) && !is_local_sent_id(rows[i].1.as_str()) {
            r.push(rows[i].0);
        }
        i = i + 1;
    }
    assert(all.take(rows.len() as int) =~= all);
    r
}

// ---------------------------------------------------------------------------
// Labels
// ---------------------------------------------------------------------------
/// The folders of a Gmail account, in the order of a sync.
pub open spec fn folder_at(i: int) -> Seq<char> {
    if i == 0 {
        "Inbox"@
    } else if i == 1 {
        "Sent"@
    } else if i == 2 {
        "Trash"@
    } else {
        "Archive"@
    }
}

/// The label of the messages of a folder. The archive has none.
pub open spec fn label_at(i: int) -> Option<Seq<char>> {
    if i == 0 {
        Some("INBOX"@)
    } else if i == 1 {
        Some("SENT"@)
    } else if i == 2 {
        Some("TRASH"@)
    } else {
        None
    }
}

/// The query for the messages of a folder that has no label.
pub open spec fn query_at(i: int) -> Option<Seq<char>> {
    if i == 0 || i == 1 || i == 2 {
        None
    } else {
        Some("-in:inbox -in:sent -in:trash"@)
    }
}

/// How many folders there are.
pub open spec fn folder_count() -> int {
    4
}

/// Computes [`folder_at`].
fn folder_name(i: usize) -> (r: &'static str)
    ensures
        r@ == folder_at(i as int),
{
    if i == 0 {
        "Inbox"
    } else if i == 1 {
        "Sent"
    } else if i == 2 {
        "Trash"
    } else {
        "Archive"
    }
}

/// Computes [`label_at`].
fn label_name(i: usize) -> (r: Option<&'static str>)
    ensures
        opt_str(r) == label_at(i as int),
{
    if i == 0 {
        Some("INBOX")
    } else if i == 1 {
        Some("SENT")
    } else if i == 2 {
        Some("TRASH")
    } else {
        None
    }
}

/// Computes [`query_at`].
fn query_text(i: usize) -> (r: Option<&'static str>)
    ensures
        opt_str(r) == query_at(i as int),
{
    if i == 0 || i == 1 || i == 2 {
        None
    } else {
        Some("-in:inbox -in:sent -in:trash")
    }
}

// ---------------------------------------------------------------------------
// What is told and what is asked
// ---------------------------------------------------------------------------
/// What a scan is told.
pub enum GmailEvent {
    /// What was to be done is done.
    Done,
    /// The ids of the messages that are stored for the folder.
    Known(Vec<String>),
    /// A page of the list of messages.
    Page(Json),
    /// A message, and the time at which it came.
    Message(Json, i64),
    /// Whether the read state that is stored was another.
    Updated(bool),
    /// The rows that are stored for the folder, those of messages that were sent
    /// from here among them or not.
    Rows(Vec<(i64, String)>),
}

/// The view of a [`GmailEvent`].
pub enum GmailEventView {
    Done,
    Known(Seq<Seq<char>>),
    Page(Json),
    Message(Json, i64),
    Updated(bool),
    Rows(Seq<(i64, Seq<char>)>),
}

impl View for GmailEvent {
    type V = GmailEventView;

    open spec fn view(&self) -> GmailEventView {
        match *self {
            GmailEvent::Done => GmailEventView::Done,
            GmailEvent::Known(ids) => GmailEventView::Known(texts(ids@)),
            GmailEvent::Page(page) => GmailEventView::Page(page),
            GmailEvent::Message(raw, now) => GmailEventView::Message(raw, now),
            GmailEvent::Updated(changed) => GmailEventView::Updated(changed),
            GmailEvent::Rows(rows) => GmailEventView::Rows(row_views(rows@)),
        }
    }
}

/// What is to be done next.
pub enum GmailAction {
    /// Load the ids of the messages that are stored for a folder.
    LoadKnown { folder: String },
    /// Ask for a page of the list of messages.
    List { url: String },
    /// Ask for a message.
    Fetch { url: String },
    /// Store a message.
    Store(NewMessage),
    /// Set the read state of a stored message.
    UpdateRead { id: String, is_read: bool },
    /// Load the rows that are stored for a folder.
    LoadRows { folder: String },
    /// Delete rows.
    DeleteRows(Vec<i64>),
    /// Nothing: the scan is over.
    Finished,
}

/// The view of a [`GmailAction`].
pub enum GmailActionView {
    LoadKnown { folder: Seq<char> },
    List { url: Seq<char> },
    Fetch { url: Seq<char> },
    Store(MessageView),
    UpdateRead { id: Seq<char>, is_read: bool },
    LoadRows { folder: Seq<char> },
    DeleteRows(Seq<i64>),
    Finished,
}

impl View for GmailAction {
    type V = GmailActionView;

    open spec fn view(&self) -> GmailActionView {
        match *self {
            GmailAction::LoadKnown { folder } => GmailActionView::LoadKnown { folder: folder@ },
            GmailAction::List { url } => GmailActionView::List { url: url@ },
            GmailAction::Fetch { url } => GmailActionView::Fetch { url: url@ },
            GmailAction::Store(message) => GmailActionView::Store(message@),
            GmailAction::UpdateRead { id, is_read } => GmailActionView::UpdateRead {
                id: id@,
                is_read,
            },
            GmailAction::LoadRows { folder } => GmailActionView::LoadRows { folder: folder@ },
            GmailAction::DeleteRows(ids) => GmailActionView::DeleteRows(ids@),
            GmailAction::Finished => GmailActionView::Finished,
        }
    }
}

// ---------------------------------------------------------------------------
// The state of a scan
// ---------------------------------------------------------------------------
/// What a scan waits for.
#[derive(Clone, Copy, PartialEq, Eq, Structural)]
pub enum GmailWait {
    Known,
    Page,
    Message,
    Store,
    Update,
    Rows,
    Delete,
    Finished,
}

/// A scan of a Gmail account.
pub struct GmailScan {
    poll: bool,
    folder: usize,
    known: StringHashSet,
    upstream: StringHashSet,
    ids: Vec<String>,
    at: usize,
    next_page: Option<String>,
    wait: GmailWait,
    stored: usize,
    changed: usize,
}

/// The view of a [`GmailScan`].
pub struct GmailScanView {
    /// A poll rather than a sync.
    pub poll: bool,
    /// Which folder is being gone through.
    pub folder: int,
    /// The messages that are stored for the folder.
    pub known: Set<Seq<char>>,
    /// The messages of the folder that Gmail listed so far.
    pub upstream: Set<Seq<char>>,
    /// The messages on the page at hand.
    pub ids: Seq<Seq<char>>,
    /// How many messages of the page are done.
    pub at: int,
    /// What asks for the next page.
    pub next_page: Option<Seq<char>>,
    pub wait: GmailWait,
    /// How many messages were stored.
    pub stored: usize,
    /// How many stored messages got another read state.
    pub changed: usize,
}

impl View for GmailScan {
    type V = GmailScanView;

    closed spec fn view(&self) -> GmailScanView {
        GmailScanView {
            poll: self.poll,
            folder: self.folder as int,
            known: self.known@,
            upstream: self.upstream@,
            ids: texts(self.ids@),
            at: self.at as int,
            next_page: opt_text(self.next_page),
            wait: self.wait,
            stored: self.stored,
            changed: self.changed,
        }
    }
}

impl GmailScanView {
    /// A state that a scan can be in.
    pub open spec fn wf(self) -> bool {
        &&& 0 <= self.folder < folder_count()
        &&& 0 <= self.at <= self.ids.len()
        &&& match self.wait {
            GmailWait::Message => self.at < self.ids.len(),
            GmailWait::Store => self.at < self.ids.len(),
            GmailWait::Update => self.poll && self.at < self.ids.len(),
            GmailWait::Rows => !self.poll,
            GmailWait::Delete => !self.poll,
            _ => true,
        }
    }

    /// The asking for the ids of the stored messages.
    pub open spec fn load_known(self) -> (GmailScanView, GmailActionView) {
        (
            GmailScanView { wait: GmailWait::Known, ..self },
            GmailActionView::LoadKnown { folder: folder_at(self.folder) },
        )
    }

    /// The asking for the first page, or the one that a token stands for. A poll
    /// asks for thirty messages, a sync for a hundred.
    pub open spec fn list(self, token: Option<Seq<char>>) -> (GmailScanView, GmailActionView) {
        (
            GmailScanView { wait: GmailWait::Page, ..self },
            GmailActionView::List {
                url: list_url(
                    if self.poll {
                        30
                    } else {
                        100
                    },
                    label_at(self.folder),
                    query_at(self.folder),
                    token,
                ),
            },
        )
    }

    /// The end of the list: a poll is over; a sync asks for the rows, to delete
    /// those whose messages were not listed.
    pub open spec fn list_is_done(self) -> (GmailScanView, GmailActionView) {
        if self.poll {
            (
                GmailScanView { wait: GmailWait::Finished, ..self },
                GmailActionView::Finished,
            )
        } else {
            (
                GmailScanView { wait: GmailWait::Rows, ..self },
                GmailActionView::LoadRows { folder: folder_at(self.folder) },
            )
        }
    }

    /// What comes next: the rest of the page, the next page, which a poll does not
    /// ask for, or the end of the list.
    pub open spec fn go_on(self) -> (GmailScanView, GmailActionView) {
        if self.at < self.ids.len() {
            (
                GmailScanView {
                    upstream: self.upstream.insert(self.ids[self.at]),
                    wait: GmailWait::Message,
                    ..self
                },
                GmailActionView::Fetch { url: message_url(self.ids[self.at]) + "?format=full"@ },
            )
        } else if self.next_page is Some && !self.poll {
            self.list(self.next_page)
        } else {
            self.list_is_done()
        }
    }

    /// The next folder, or the end.
    pub open spec fn next_folder(self) -> (GmailScanView, GmailActionView) {
        if self.folder + 1 < folder_count() {
            GmailScanView { folder: self.folder + 1, ..self }.load_known()
        } else {
            (
                GmailScanView { wait: GmailWait::Finished, ..self },
                GmailActionView::Finished,
            )
        }
    }

    /// The event is one that the scan waits for.
    pub open spec fn expects(self, event: GmailEventView) -> bool {
        match (self.wait, event) {
            (GmailWait::Known, GmailEventView::Known(_)) => true,
            (GmailWait::Page, GmailEventView::Page(_)) => true,
            (GmailWait::Message, GmailEventView::Message(_, _)) => true,
            (GmailWait::Store, GmailEventView::Done) => true,
            (GmailWait::Update, GmailEventView::Updated(_)) => true,
            (GmailWait::Rows, GmailEventView::Rows(_)) => true,
            (GmailWait::Delete, GmailEventView::Done) => true,
            _ => false,
        }
    }

    /// The state behind an event that the scan waits for, and what is to be done
    /// then.
    pub open spec fn after(self, event: GmailEventView) -> (GmailScanView, GmailActionView) {
        match (self.wait, event) {
            (GmailWait::Known, GmailEventView::Known(ids)) => if self.poll {
                GmailScanView { known: text_set(ids), ..self }.go_on()
            } else {
                GmailScanView {
                    known: text_set(ids),
                    upstream: Set::empty(),
                    ids: Seq::empty(),
                    at: 0,
                    next_page: None,
                    ..self
                }.list(None)
            },
            (GmailWait::Page, GmailEventView::Page(page)) => match page_ids(page) {
                None => self.list_is_done(),
                Some(ids) => {
                    let next = GmailScanView {
                        ids,
                        at: 0,
                        next_page: text_field(page, "nextPageToken"@),
                        ..self
                    };
                    if self.poll {
                        next.load_known()
                    } else {
                        next.go_on()
                    }
                },
            },
            // A poll leaves a message that is stored already as it is but for its
            // read state.
            (GmailWait::Message, GmailEventView::Message(raw, now)) => {
                let message = gmail_message(folder_at(self.folder), raw, now);
                let id = self.ids[self.at];
                if self.poll && self.known.contains(id) {
                    (
                        GmailScanView { wait: GmailWait::Update, ..self },
                        GmailActionView::UpdateRead { id, is_read: message.is_read },
                    )
                } else {
                    (
                        GmailScanView { wait: GmailWait::Store, ..self },
                        GmailActionView::Store(message),
                    )
                }
            },
            (GmailWait::Store, GmailEventView::Done) => GmailScanView {
                at: self.at + 1,
                stored: plus(self.stored, 1),
                ..self
            }.go_on(),
            (GmailWait::Update, GmailEventView::Updated(changed)) => GmailScanView {
                at: self.at + 1,
                changed: if changed {
                    plus(self.changed, 1)
                } else {
                    self.changed
                },
                ..self
            }.go_on(),
            (GmailWait::Rows, GmailEventView::Rows(rows)) => (
                GmailScanView { wait: GmailWait::Delete, ..self },
                GmailActionView::DeleteRows(not_in(rows, self.upstream)),
            ),
            (GmailWait::Delete, GmailEventView::Done) => self.next_folder(),
            _ => (self, GmailActionView::Finished),
        }
    }
}

/// The state in which a scan starts.
pub open spec fn fresh_gmail_scan(poll: bool) -> GmailScanView {
    GmailScanView {
        poll,
        folder: 0,
        known: Set::empty(),
        upstream: Set::empty(),
        ids: Seq::empty(),
        at: 0,
        next_page: None,
        wait: GmailWait::Finished,
        stored: 0,
        changed: 0,
    }
}

impl GmailScan {
    /// Starts a sync of the whole account, and says what is to be done first.
    pub fn sync() -> (r: (GmailScan, GmailAction))
        ensures
            (r.0@, r.1@) == fresh_gmail_scan(false).load_known(),
            r.0@.wf(),
    {
        let mut scan = GmailScan::fresh(false);
        let action = scan.load_known();
        (scan, action)
    }

    /// Starts a poll of the inbox, and says what is to be done first.
    pub fn poll() -> (r: (GmailScan, GmailAction))
        ensures
            (r.0@, r.1@) == fresh_gmail_scan(true).list(None),
            r.0@.wf(),
    {
        let mut scan = GmailScan::fresh(true);
        let action = scan.list(None);
        (scan, action)
    }

    /// Computes [`fresh_gmail_scan`].
    fn fresh(poll: bool) -> (r: GmailScan)
        ensures
            r@ == fresh_gmail_scan(poll),
    {
        let scan = GmailScan {
            poll,
            folder: 0,
            known: StringHashSet::new(),
            upstream: StringHashSet::new(),
            ids: Vec::new(),
            at: 0,
            next_page: None,
            wait: GmailWait::Finished,
            stored: 0,
            changed: 0,
        };
        assert(scan@.ids =~= Seq::<Seq<char>>::empty());
        scan
    }

    /// Computes [`GmailScanView::load_known`].
    fn load_known(&mut self) -> (r: GmailAction)
        ensures
            (final(self)@, r@) == old(self)@.load_known(),
    {
        self.wait = GmailWait::Known;
        GmailAction::LoadKnown { folder: folder_name(self.folder).to_owned() }
    }

    /// Computes [`GmailScanView::list`].
    fn list(&mut self, token: Option<&str>) -> (r: GmailAction)
        ensures
            (final(self)@, r@) == old(self)@.list(opt_str(token)),
    {
        self.wait = GmailWait::Page;
        let page_size: u64 = if self.poll {
            30
        } else {
            100
        };
        GmailAction::List {
            url: gmail_list_url(
                page_size,
                label_name(self.folder),
                query_text(self.folder),
                token,
            ),
        }
    }

    /// Computes [`GmailScanView::list_is_done`].
    fn list_is_done(&mut self) -> (r: GmailAction)
        ensures
            (final(self)@, r@) == old(self)@.list_is_done(),
    {
        if self.poll {
            self.wait = GmailWait::Finished;
            GmailAction::Finished
        } else {
            self.wait = GmailWait::Rows;
            GmailAction::LoadRows { folder: folder_name(self.folder).to_owned() }
        }
    }

    /// Computes [`GmailScanView::go_on`].
    fn go_on(&mut self) -> (r: GmailAction)
        ensures
            (final(self)@, r@) == old(self)@.go_on(),
    {
        if self.at < self.ids.len() {
            let id = copy(&self.ids[self.at]);
            assert(id@ == self@.ids[self@.at]);
            let url = gmail_full_message_url(id.as_str());
            self.upstream.insert(id);
            self.wait = GmailWait::Message;
            return GmailAction::Fetch { url };
        }
        if !self.poll {
            let token = crate::text::copy_opt(&self.next_page);
            if token.is_some() {
                return self.list(opt_as_str(&token));
            }
        }
        self.list_is_done()
    }

    /// Tells the scan what happened. It says what is to be done next; an event
    /// that it does not wait for it ignores.
    pub fn step(&mut self, event: GmailEvent) -> (r: Option<GmailAction>)
        requires
            old(self)@.wf(),
        ensures
            final(self)@.wf(),
            match r {
                Some(action) => old(self)@.expects(event@) && (final(self)@, action@) == (old(
                    self)@.after(event@)),
                None => !old(self)@.expects(event@) && final(self)@ == old(self)@,
            },
    {
        assert(self.ids.len() == self@.ids.len());
        let action = match (self.wait, event) {
            (GmailWait::Known, GmailEvent::Known(ids)) => {
                self.known = string_set(&ids);
                if self.poll {
                    self.go_on()
                } else {
                    self.upstream = StringHashSet::new();
                    self.ids = Vec::new();
                    self.at = 0;
                    self.next_page = None;
                    assert(self@.ids =~= Seq::<Seq<char>>::empty());
                    self.list(None)
                }
            },
            (GmailWait::Page, GmailEvent::Page(page)) => match gmail_page_ids(&page) {
                None => self.list_is_done(),
                Some(ids) => {
                    self.ids = ids;
                    self.at = 0;
                    self.next_page = gmail_next_page(&page);
                    if self.poll {
                        self.load_known()
                    } else {
                        self.go_on()
                    }
                },
            },
            (GmailWait::Message, GmailEvent::Message(raw, now)) => {
                let message = gmail_to_message(folder_name(self.folder), &raw, now);
                assert(self.ids@[self.at as int]@ == self@.ids[self@.at]);
                if self.poll && self.known.contains(self.ids[self.at].as_str()) {
                    self.wait = GmailWait::Update;
                    GmailAction::UpdateRead { id: copy(&self.ids[self.at]), is_read: message.is_read }
                } else {
                    self.wait = GmailWait::Store;
                    GmailAction::Store(message)
                }
            },
            (GmailWait::Store, GmailEvent::Done) => {
                self.at = self.at + 1;
                self.stored = self.stored.saturating_add(1);
                self.go_on()
            },
            (GmailWait::Update, GmailEvent::Updated(changed)) => {
                self.at = self.at + 1;
                if changed {
                    self.changed = self.changed.saturating_add(1);
                }
                self.go_on()
            },
            (GmailWait::Rows, GmailEvent::Rows(rows)) => {
                self.wait = GmailWait::Delete;
                GmailAction::DeleteRows(missing_rows(&rows, &self.upstream))
            },
            (GmailWait::Delete, GmailEvent::Done) => {
                if self.folder < 3 {
                    self.folder = self.folder + 1;
                    self.load_known()
                } else {
                    self.wait = GmailWait::Finished;
                    GmailAction::Finished
                }
            },
            _ => {
                return None;
            },
        };
        Some(action)
    }

    /// How many messages were stored.
    pub fn stored(&self) -> (r: usize)
        ensures
            r == self@.stored,
    {
        self.stored
    }

    /// How many stored messages got another read state.
    pub fn changed(&self) -> (r: usize)
        ensures
            r == self@.changed,
    {
        self.changed
    }
}

// ---------------------------------------------------------------------------
// Laws
// ---------------------------------------------------------------------------
/// Law: every message that Gmail lists on a page is fetched, in order, and counts
/// as one that Gmail has; no listed message is passed over.
pub proof fn listed_messages_are_fetched(scan: GmailScanView, event: GmailEventView)
    requires
        scan.wf(),
        scan.expects(event),
    ensures
        ({
            let (next, action) = scan.after(event);
            &&& next.wait == GmailWait::Message ==> {
                &&& action == (GmailActionView::Fetch {
                    url: message_url(next.ids[next.at]) + "?format=full"@,
                })
                &&& next.upstream.contains(next.ids[next.at])
            }
            &&& scan.wait == GmailWait::Store || scan.wait == GmailWait::Update ==> next.at
                == scan.at + 1 && next.ids == scan.ids
            &&& scan.wait != GmailWait::Known ==> scan.upstream.subset_of(next.upstream)
            &&& next.wait == GmailWait::Page || next.wait == GmailWait::Rows || (next.poll
                && next.wait == GmailWait::Finished) ==> next.at == next.ids.len() || scan.wait
                == GmailWait::Page || scan.wait == GmailWait::Known
        }),
{
}

/// Law: a poll stores only messages that were not stored yet, and deletes nothing.
pub proof fn a_poll_only_adds(scan: GmailScanView, event: GmailEventView)
    requires
        scan.wf(),
        scan.poll,
        scan.expects(event),
    ensures
        ({
            let (next, action) = scan.after(event);
            &&& next.poll
            &&& !(action is DeleteRows)
            &&& !(action is LoadRows)
            &&& action is Store ==> !scan.known.contains(scan.ids[scan.at])
            &&& action matches GmailActionView::UpdateRead { id, .. } ==> scan.known.contains(id)
        }),
{
}

/// Law: a sync goes through the folders in order, and leaves a folder only when
/// the rows of messages that Gmail did not list are deleted, those of messages
/// that were sent from here aside.
pub proof fn a_sync_prunes_every_folder(scan: GmailScanView, event: GmailEventView)
    requires
        scan.wf(),
        !scan.poll,
        scan.expects(event),
    ensures
        ({
            let (next, action) = scan.after(event);
            &&& next.folder == scan.folder || next.folder == scan.folder + 1
            &&& next.folder != scan.folder ==> scan.wait == GmailWait::Delete
            &&& next.wait == GmailWait::Finished ==> scan.wait == GmailWait::Delete && scan.folder
                == folder_count() - 1
            &&& next.wait == GmailWait::Delete ==> (event matches GmailEventView::Rows(rows)
                && action == GmailActionView::DeleteRows(not_in(rows, scan.upstream)))
        }),
{
}

/// Law: the rows that a sync deletes are those of the messages that Gmail did not
/// list and that were not sent from here, all of them and no others.
pub proof fn a_sync_deletes_what_is_gone(rows: Seq<(i64, Seq<char>)>, keep: Set<Seq<char>>, id: i64)
    ensures
        not_in(rows, keep).contains(id) <==> exists|k: int|
            0 <= k < rows.len() && (#[trigger] rows[k]).0 == id && !keep.contains(rows[k].1)
                && !local_sent(rows[k].1),
    decreases rows.len(),
{
    if rows.len() > 0 {
        let front = rows.drop_last();
        let rest = not_in(front, keep);
        let all = not_in(rows, keep);
        let end = rows.len() - 1;
        a_sync_deletes_what_is_gone(front, keep, id);
        if all.contains(id) {
            let j = choose|j: int| 0 <= j < all.len() && all[j] == id;
            if j < rest.len() {
                assert(rest[j] == id);
                let k = choose|k: int|
                    0 <= k < front.len() && (#[trigger] front[k]).0 == id && !keep.contains(
                        front[k].1,
                    ) && !local_sent(front[k].1);
                assert(rows[k] == front[k]);
            } else {
                assert(rows[end].0 == id);
            }
        }
        assert forall|k: int|
            0 <= k < rows.len() && (#[trigger] rows[k]).0 == id && !keep.contains(rows[k].1)
                && !local_sent(rows[k].1) implies all.contains(id) by {
            if k == end {
                assert(all.last() == id);
            } else {
                assert(front[k] == rows[k]);
                let j = choose|j: int| 0 <= j < rest.len() && rest[j] == id;
                assert(all[j] == id);
            }
        }
    }
}

/// Law: a sync keeps the rows of the messages that were sent from here.
pub proof fn a_sync_keeps_sent_messages(
    rows: Seq<(i64, Seq<char>)>,
    keep: Set<Seq<char>>,
    k: int,
)
    requires
        0 <= k < rows.len(),
        local_sent(rows[k].1),
        forall|i: int| 0 <= i < rows.len() && i != k ==> (#[trigger] rows[i]).0 != rows[k].0,
    ensures
        !not_in(rows, keep).contains(rows[k].0),
{
    a_sync_deletes_what_is_gone(rows, keep, rows[k].0);
}

/// A request for a page of `size` messages, chosen by `by` and by nothing else but
/// the token of the page.
pub open spec fn lists_by(url: Seq<char>, size: nat, by: Seq<char>, token: Option<Seq<char>>) -> bool {
    url == "https://gmail.googleapis.com/gmail/v1/users/me/messages"@ + "?maxResults="@ + decimal(
        size,
    ) + by + (match token {
        Some(t) => "&pageToken="@ + percent_encoded(t),
        None => Seq::empty(),
    })
}

/// Law: a folder is listed by Gmail's label of that very folder, the archive by the
/// absence of the others; and what is loaded and stored while it is listed belongs to
/// that folder.
pub proof fn folders_are_listed_by_their_labels(scan: GmailScanView, event: GmailEventView)
    requires
        scan.wf(),
        scan.expects(event),
    ensures
        ({
            let (next, action) = scan.after(event);
            let folder = folder_at(next.folder);
            let size: nat = if scan.poll {
                30
            } else {
                100
            };
            let token = if event is Known {
                None
            } else {
                next.next_page
            };
            &&& action matches GmailActionView::List { url } ==> {
                &&& folder == "Inbox"@ || folder == "Sent"@ || folder == "Trash"@ || folder
                    == "Archive"@
                &&& folder == "Inbox"@ ==> lists_by(
                    url,
                    size,
                    "&labelIds="@ + percent_encoded("INBOX"@),
                    token,
                )
                &&& folder == "Sent"@ ==> lists_by(
                    url,
                    size,
                    "&labelIds="@ + percent_encoded("SENT"@),
                    token,
                )
                &&& folder == "Trash"@ ==> lists_by(
                    url,
                    size,
                    "&labelIds="@ + percent_encoded("TRASH"@),
                    token,
                )
                &&& folder == "Archive"@ ==> lists_by(
                    url,
                    size,
                    "&q="@ + percent_encoded("-in:inbox -in:sent -in:trash"@),
                    token,
                )
            }
            &&& action matches GmailActionView::LoadKnown { folder: f } ==> f == folder
            &&& action matches GmailActionView::LoadRows { folder: f } ==> f == folder
            &&& action matches GmailActionView::Store(message) ==> message.folder == folder
                && next.folder == scan.folder
            &&& action is List ==> next.folder == scan.folder
        }),
{
    reveal_strlit("Inbox");
    reveal_strlit("Sent");
    reveal_strlit("Trash");
    reveal_strlit("Archive");
    let (next, action) = scan.after(event);
    if action is List {
        let size: nat = if scan.poll {
            30
        } else {
            100
        };
        let token = if event is Known {
            None
        } else {
            next.next_page
        };
        assert(action->List_url == list_url(size, label_at(next.folder), query_at(next.folder), token));
        lemma_listed_by_label(size, "INBOX"@, token);
        lemma_listed_by_label(size, "SENT"@, token);
        lemma_listed_by_label(size, "TRASH"@, token);
        lemma_listed_by_query(size, "-in:inbox -in:sent -in:trash"@, token);
        assert("Sent"@[0] != "Inbox"@[0]);
        assert("Trash"@[0] != "Inbox"@[0]);
        assert("Archive"@[0] != "Inbox"@[0]);
        assert("Trash"@[0] != "Sent"@[0]);
        assert("Archive"@[0] != "Sent"@[0]);
        assert("Archive"@[0] != "Trash"@[0]);
    }
}

proof fn lemma_listed_by_label(size: nat, label: Seq<char>, token: Option<Seq<char>>)
    ensures
        lists_by(
            list_url(size, Some(label), None, token),
            size,
            "&labelIds="@ + percent_encoded(label),
            token,
        ),
{
    let base = "https://gmail.googleapis.com/gmail/v1/users/me/messages"@ + "?maxResults="@
        + decimal(size);
    let by = "&labelIds="@ + percent_encoded(label);
    let rest = match token {
        Some(t) => "&pageToken="@ + percent_encoded(t),
        None => Seq::<char>::empty(),
    };
    assert(base + by + Seq::<char>::empty() + rest =~= base + by + rest);
}

proof fn lemma_listed_by_query(size: nat, query: Seq<char>, token: Option<Seq<char>>)
    ensures
        lists_by(
            list_url(size, None, Some(query), token),
            size,
            "&q="@ + percent_encoded(query),
            token,
        ),
{
    let base = "https://gmail.googleapis.com/gmail/v1/users/me/messages"@ + "?maxResults="@
        + decimal(size);
    let by = "&q="@ + percent_encoded(query);
    let rest = match token {
        Some(t) => "&pageToken="@ + percent_encoded(t),
        None => Seq::<char>::empty(),
    };
    assert(base + Seq::<char>::empty() + by + rest =~= base + by + rest);
}

/// Law: a scan starts with the inbox, and a sync comes to all four folders.
pub proof fn a_sync_covers_every_folder(poll: bool)
    ensures
        folder_at(fresh_gmail_scan(poll).folder) == "Inbox"@,
        fresh_gmail_scan(poll).folder == 0,
        exists|i: int| 0 <= i < folder_count() && #[trigger] folder_at(i) == "Inbox"@,
        exists|i: int| 0 <= i < folder_count() && #[trigger] folder_at(i) == "Sent"@,
        exists|i: int| 0 <= i < folder_count() && #[trigger] folder_at(i) == "Trash"@,
        exists|i: int| 0 <= i < folder_count() && #[trigger] folder_at(i) == "Archive"@,
{
    assert(folder_at(0) == "Inbox"@);
    assert(folder_at(1) == "Sent"@);
    assert(folder_at(2) == "Trash"@);
    assert(folder_at(3) == "Archive"@);
}

/// Law: a poll never leaves the inbox, and it looks at one page of it.
pub proof fn a_poll_stays_in_the_inbox(scan: GmailScanView, event: GmailEventView)
    requires
        scan.wf(),
        scan.poll,
        scan.expects(event),
    ensures
        scan.after(event).0.folder == scan.folder,
        !(scan.after(event).1 is List),
{
}

/// Law: the ids on a page are gone through one after the other, and behind the last
/// one a sync asks for the next page, where the page names one. Only then the rows
/// are looked at.
pub proof fn every_page_is_gone_through(scan: GmailScanView, event: GmailEventView)
    requires
        scan.wf(),
        scan.expects(event),
    ensures
        ({
            let (next, action) = scan.after(event);
            &&& scan.wait == GmailWait::Page ==> (event matches GmailEventView::Page(page)
                && match page_ids(page) {
                Some(ids) => next.ids == ids && next.at == 0 && next.next_page == text_field(
                    page,
                    "nextPageToken"@,
                ),
                None => action is LoadRows || action is Finished,
            })
            &&& scan.wait == GmailWait::Store || scan.wait == GmailWait::Update ==> {
                &&& scan.at + 1 < scan.ids.len() ==> action is Fetch
                &&& (scan.at + 1 == scan.ids.len() && !scan.poll && scan.next_page is Some) ==> (
                action is List && next.next_page == scan.next_page && next.folder == scan.folder)
                &&& (scan.at + 1 == scan.ids.len() && !scan.poll && scan.next_page is None)
                    ==> action is LoadRows
            }
            &&& action is LoadRows ==> !(scan.wait == GmailWait::Store || scan.wait
                == GmailWait::Update) || (scan.at + 1 == scan.ids.len() && scan.next_page is None)
        }),
{
}

/// Law: every message that is stored counts, and nothing else does.
pub proof fn stored_messages_are_counted(scan: GmailScanView, event: GmailEventView)
    requires
        scan.wf(),
        scan.expects(event),
    ensures
        ({
            let next = scan.after(event).0;
            &&& scan.wait == GmailWait::Store && scan.stored < usize::MAX ==> next.stored
                == scan.stored + 1
            &&& scan.wait != GmailWait::Store ==> next.stored == scan.stored
            &&& next.changed == scan.changed || (event == GmailEventView::Updated(true)
                && next.changed == scan.changed + 1)
            &&& event == GmailEventView::Updated(true) && scan.changed < usize::MAX ==> next.changed
                == scan.changed + 1
        }),
{
}

/// Law: what is done to a message is done with what Gmail said of it: it is stored
/// as it came, or the message that was asked for takes over its read state.
pub proof fn messages_are_taken_as_they_come(scan: GmailScanView, raw: Json, now: i64)
    requires
        scan.wf(),
        scan.wait == GmailWait::Message,
    ensures
        ({
            let (next, action) = scan.after(GmailEventView::Message(raw, now));
            &&& action is Store || action is UpdateRead
            &&& !scan.poll ==> action is Store
            &&& action matches GmailActionView::Store(message) ==> message == gmail_message(
                message.folder,
                raw,
                now,
            )
            &&& action matches GmailActionView::UpdateRead { id, is_read } ==> id
                == scan.ids[scan.at] && is_read == gmail_is_read(raw)
        }),
{
}

/// Law: the messages that are known are those whose ids were loaded.
pub proof fn loaded_ids_are_known(scan: GmailScanView, ids: Seq<Seq<char>>, id: Seq<char>)
    requires
        scan.wf(),
        scan.wait == GmailWait::Known,
    ensures
        scan.after(GmailEventView::Known(ids)).0.known.contains(id) <==> ids.contains(id),
{
}

} // verus!
