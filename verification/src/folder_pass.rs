//! One pass over a folder on an IMAP server: compare what is stored with what is
//! there, take over flags, drop what is gone, fetch what is new.
//!
//! The pass does no input or output itself. It says what is to be done next, is
//! told what came of it, and goes on from there.
use vstd::hash_set::StringHashSet;
use vstd::prelude::*;

use crate::fetched::{
    changes_for, drop_deleted, fetch_views, fetched_messages, flag_changes, gone, imap_locations,
    messages_from_fetches, missing_imap_rows, places, places_in, row_views, still_there, uid_or,
    BodyFetch, BodyFetchView, FetchQuery, FlagChange, FlagFetch,
};
use crate::imap_id::{imap_location_key, location, location_of};
use crate::message::{message_views, MessageView, NewMessage};
use crate::text::texts;

verus! {

// ---------------------------------------------------------------------------
// What is told and what is asked
// ---------------------------------------------------------------------------
/// What a pass is told.
pub enum PassEvent {
    /// What was to be done is done.
    Done,
    /// The server refused the fetch.
    Failed,
    /// The flags that were fetched.
    Flags(Vec<FlagFetch>),
    /// The messages that were fetched, and the time at which that was.
    Bodies(Vec<BodyFetch>, i64),
    /// The changes are made: how many rows are gone, how many have another read
    /// state.
    Applied { deleted: usize, updated: usize },
    /// The rows stored for the folder, each with its id and the name of the
    /// message.
    Rows(Vec<(i64, String)>),
}

/// The view of a [`PassEvent`].
pub enum PassEventView {
    Done,
    Failed,
    Flags(Seq<FlagFetch>),
    Bodies(Seq<BodyFetchView>, i64),
    Applied { deleted: usize, updated: usize },
    Rows(Seq<(i64, Seq<char>)>),
}

impl View for PassEvent {
    type V = PassEventView;

    open spec fn view(&self) -> PassEventView {
        match *self {
            PassEvent::Done => PassEventView::Done,
            PassEvent::Failed => PassEventView::Failed,
            PassEvent::Flags(list) => PassEventView::Flags(list@),
            PassEvent::Bodies(list, now) => PassEventView::Bodies(fetch_views(list@), now),
            PassEvent::Applied { deleted, updated } => PassEventView::Applied { deleted, updated },
            PassEvent::Rows(rows) => PassEventView::Rows(row_views(rows@)),
        }
    }
}

/// What is to be done next.
pub enum PassAction {
    /// Fetch some messages.
    Fetch { uids: Vec<u32>, query: FetchQuery },
    /// Connect again and select the folder again.
    Reopen,
    /// Make changes to what is stored.
    Apply(Vec<FlagChange>),
    /// Load the rows that are stored for the folder.
    LoadRows,
    /// Delete rows.
    DeleteRows(Vec<i64>),
    /// Store messages.
    Store(Vec<NewMessage>),
    /// Nothing: the pass is over.
    Finished,
}

/// The view of a [`PassAction`].
pub enum PassActionView {
    Fetch { uids: Seq<u32>, query: FetchQuery },
    Reopen,
    Apply(Seq<FlagChange>),
    LoadRows,
    DeleteRows(Seq<i64>),
    Store(Seq<MessageView>),
    Finished,
}

impl View for PassAction {
    type V = PassActionView;

    open spec fn view(&self) -> PassActionView {
        match *self {
            PassAction::Fetch { uids, query } => PassActionView::Fetch { uids: uids@, query },
            PassAction::Reopen => PassActionView::Reopen,
            PassAction::Apply(changes) => PassActionView::Apply(changes@),
            PassAction::LoadRows => PassActionView::LoadRows,
            PassAction::DeleteRows(ids) => PassActionView::DeleteRows(ids@),
            PassAction::Store(messages) => PassActionView::Store(message_views(messages@)),
            PassAction::Finished => PassActionView::Finished,
        }
    }
}

// ---------------------------------------------------------------------------
// The state of a pass
// ---------------------------------------------------------------------------
/// How a pass goes about its work.
#[derive(Clone, Copy)]
pub struct PassRules {
    /// For how many messages at once flags are fetched.
    pub flag_chunk: usize,
    /// How many messages are fetched at once.
    pub body_chunk: usize,
    /// Whether rows go whose messages are gone.
    pub prune: bool,
    /// Whether the folder is opened again after a message could not even be
    /// fetched in pieces.
    pub reopen_after_text: bool,
}

/// What a pass waits for.
#[derive(Clone, Copy, PartialEq, Eq, Structural)]
pub enum Wait {
    /// Flags, or whole messages.
    Fetch,
    /// The folder to be open again.
    Reopen,
    /// The folder to be open again, to fetch a message in pieces.
    ReopenForText,
    /// A message in pieces.
    Text,
    /// Changes to be made.
    Apply,
    /// The stored rows.
    Rows,
    /// So many rows to be gone.
    Delete(usize),
    /// So many messages to be stored.
    Store(usize),
    /// Nothing more.
    Finished,
}

/// A pass over a folder.
pub struct FolderPass {
    rules: PassRules,
    role: String,
    folder: String,
    existing: Vec<u32>,
    missing: Vec<u32>,
    upstream: StringHashSet,
    bodies: bool,
    at: usize,
    until: usize,
    wait: Wait,
    checked: usize,
    deleted: usize,
    updated: usize,
    removed: usize,
    stored: usize,
}

/// The view of a [`FolderPass`].
pub struct PassView {
    pub rules: PassRules,
    /// Under which name the messages of the folder are kept.
    pub role: Seq<char>,
    /// The name of the folder on the server.
    pub folder: Seq<char>,
    /// The messages that are stored already.
    pub existing: Seq<u32>,
    /// The messages that are not stored yet.
    pub missing: Seq<u32>,
    /// The places at which messages are on the server.
    pub upstream: Set<Seq<char>>,
    /// Whether the flags are done and whole messages are fetched.
    pub bodies: bool,
    /// How many messages are done, of those that are stored already or of those
    /// that are not.
    pub at: int,
    /// Up to where messages are fetched one by one.
    pub until: int,
    pub wait: Wait,
    /// For how many messages flags came.
    pub checked: usize,
    /// How many rows went because their messages were flagged as deleted.
    pub deleted: usize,
    /// How many rows got another read state.
    pub updated: usize,
    /// How many rows went because their messages were gone.
    pub removed: usize,
    /// How many messages were stored.
    pub stored: usize,
}

impl View for FolderPass {
    type V = PassView;

    closed spec fn view(&self) -> PassView {
        PassView {
            rules: self.rules,
            role: self.role@,
            folder: self.folder@,
            existing: self.existing@,
            missing: self.missing@,
            upstream: self.upstream@,
            bodies: self.bodies,
            at: self.at as int,
            until: self.until as int,
            wait: self.wait,
            checked: self.checked,
            deleted: self.deleted,
            updated: self.updated,
            removed: self.removed,
            stored: self.stored,
        }
    }
}

/// A sum of counts, which stops at the largest count there is.
pub open spec fn plus(a: usize, b: nat) -> usize {
    if a + b > usize::MAX {
        usize::MAX
    } else {
        (a + b) as usize
    }
}

impl PassView {
    /// The messages that are being worked through.
    pub open spec fn queue(self) -> Seq<u32> {
        if self.bodies {
            self.missing
        } else {
            self.existing
        }
    }

    /// How many messages are fetched at once.
    pub open spec fn chunk(self) -> int {
        if self.bodies {
            self.rules.body_chunk as int
        } else {
            self.rules.flag_chunk as int
        }
    }

    /// Where the next fetch ends: behind one message while messages are fetched
    /// one by one, and otherwise behind as many as are fetched at once.
    pub open spec fn batch_end(self) -> int {
        if self.at < self.until {
            self.at + 1
        } else if self.at + self.chunk() < self.queue().len() {
            self.at + self.chunk()
        } else {
            self.queue().len() as int
        }
    }

    /// A state that a pass can be in.
    pub open spec fn wf(self) -> bool {
        &&& self.rules.flag_chunk > 0
        &&& self.rules.body_chunk > 0
        &&& 0 <= self.at <= self.queue().len()
        &&& 0 <= self.until <= self.queue().len()
        &&& match self.wait {
            Wait::Fetch => self.at < self.queue().len(),
            Wait::Reopen => true,
            Wait::ReopenForText => self.bodies && self.at < self.until,
            Wait::Text => self.bodies && self.at < self.until,
            Wait::Apply => !self.bodies,
            Wait::Rows => !self.bodies && self.at == self.existing.len(),
            Wait::Delete(_) => !self.bodies && self.at == self.existing.len(),
            Wait::Store(_) => self.bodies,
            Wait::Finished => self.bodies && self.at == self.missing.len(),
        }
    }

    /// The state in which the fetching of whole messages starts.
    pub open spec fn with_bodies(self) -> PassView {
        PassView { bodies: true, at: 0, until: 0, ..self }
    }

    /// The next fetch.
    pub open spec fn fetch_next(self) -> (PassView, PassActionView) {
        (
            PassView { wait: Wait::Fetch, ..self },
            PassActionView::Fetch {
                uids: self.queue().subrange(self.at, self.batch_end()),
                query: if self.bodies {
                    FetchQuery::Body
                } else {
                    FetchQuery::Flags
                },
            },
        )
    }

    /// The end of the pass.
    pub open spec fn end(self) -> (PassView, PassActionView) {
        (PassView { wait: Wait::Finished, ..self }, PassActionView::Finished)
    }

    /// The fetching of whole messages, from the first.
    pub open spec fn start_bodies(self) -> (PassView, PassActionView) {
        if self.missing.len() > 0 {
            self.with_bodies().fetch_next()
        } else {
            self.with_bodies().end()
        }
    }

    /// What comes next: the rest of the messages; behind the flags the rows, where
    /// these are pruned; then the whole messages; and then the end.
    pub open spec fn go_on(self) -> (PassView, PassActionView) {
        if self.at < self.queue().len() {
            self.fetch_next()
        } else if self.bodies {
            self.end()
        } else if self.rules.prune {
            (PassView { wait: Wait::Rows, ..self }, PassActionView::LoadRows)
        } else {
            self.start_bodies()
        }
    }

    /// The storing of messages, where there are any.
    pub open spec fn store(self, messages: Seq<MessageView>) -> (PassView, PassActionView) {
        if messages.len() == 0 {
            self.go_on()
        } else {
            (
                PassView { wait: Wait::Store(messages.len() as usize), ..self },
                PassActionView::Store(messages),
            )
        }
    }

    /// The event is one that the pass waits for.
    pub open spec fn expects(self, event: PassEventView) -> bool {
        match (self.wait, event) {
            (Wait::Fetch, PassEventView::Flags(_)) => !self.bodies,
            (Wait::Fetch, PassEventView::Bodies(_, _)) => self.bodies,
            (Wait::Fetch, PassEventView::Failed) => true,
            (Wait::Reopen, PassEventView::Done) => true,
            (Wait::ReopenForText, PassEventView::Done) => true,
            (Wait::Text, PassEventView::Bodies(_, _)) => true,
            (Wait::Text, PassEventView::Failed) => true,
            (Wait::Apply, PassEventView::Applied { .. }) => true,
            (Wait::Rows, PassEventView::Rows(_)) => true,
            (Wait::Delete(_), PassEventView::Done) => true,
            (Wait::Store(_), PassEventView::Done) => true,
            _ => false,
        }
    }

    /// The state behind an event that the pass waits for, and what is to be done
    /// then.
    pub open spec fn after(self, event: PassEventView) -> (PassView, PassActionView) {
        match (self.wait, event) {
            // Flags came: deleted messages are no longer on the server.
            (Wait::Fetch, PassEventView::Flags(list)) => {
                let next = PassView {
                    at: self.batch_end(),
                    upstream: still_there(self.folder, self.upstream, list),
                    checked: plus(self.checked, list.len()),
                    ..self
                };
                if list.len() == 0 {
                    next.go_on()
                } else {
                    (
                        PassView { wait: Wait::Apply, ..next },
                        PassActionView::Apply(changes_for(list)),
                    )
                }
            },
            // Messages came.
            (Wait::Fetch, PassEventView::Bodies(list, now)) => PassView {
                at: self.batch_end(),
                ..self
            }.store(fetched_messages(self.role, self.folder, list, false, now)),
            // A fetch failed: several messages are tried one by one, a single
            // one in pieces; flags of a single one are left as they are.
            (Wait::Fetch, PassEventView::Failed) => if self.at < self.until {
                if self.bodies {
                    (
                        PassView { wait: Wait::ReopenForText, ..self },
                        PassActionView::Reopen,
                    )
                } else {
                    (
                        PassView { at: self.at + 1, wait: Wait::Reopen, ..self },
                        PassActionView::Reopen,
                    )
                }
            } else {
                (
                    PassView { until: self.batch_end(), wait: Wait::Reopen, ..self },
                    PassActionView::Reopen,
                )
            },
            (Wait::Reopen, PassEventView::Done) => self.go_on(),
            (Wait::ReopenForText, PassEventView::Done) => (
                PassView { wait: Wait::Text, ..self },
                PassActionView::Fetch {
                    uids: seq![self.missing[self.at]],
                    query: FetchQuery::HeaderText,
                },
            ),
            (Wait::Text, PassEventView::Bodies(list, now)) => PassView {
                at: self.at + 1,
                ..self
            }.store(fetched_messages(self.role, self.folder, list, true, now)),
            (Wait::Text, PassEventView::Failed) => {
                let next = PassView { at: self.at + 1, ..self };
                if self.rules.reopen_after_text {
                    (PassView { wait: Wait::Reopen, ..next }, PassActionView::Reopen)
                } else {
                    next.go_on()
                }
            },
            (Wait::Apply, PassEventView::Applied { deleted, updated }) => PassView {
                deleted: plus(self.deleted, deleted as nat),
                updated: plus(self.updated, updated as nat),
                ..self
            }.go_on(),
            // The rows came: those of messages that are gone go too.
            (Wait::Rows, PassEventView::Rows(rows)) => {
                let ids = gone(rows, self.upstream);
                (
                    PassView { wait: Wait::Delete(ids.len() as usize), ..self },
                    PassActionView::DeleteRows(ids),
                )
            },
            (Wait::Delete(n), PassEventView::Done) => PassView {
                removed: plus(self.removed, n as nat),
                ..self
            }.start_bodies(),
            (Wait::Store(n), PassEventView::Done) => PassView {
                stored: plus(self.stored, n as nat),
                ..self
            }.go_on(),
            _ => (self, PassActionView::Finished),
        }
    }
}

/// The state in which a pass over some messages starts. `known` are the names of
/// the messages that are stored for the folder.
pub open spec fn fresh_pass(
    rules: PassRules,
    role: Seq<char>,
    folder: Seq<char>,
    selected: Seq<u32>,
    known: Seq<Seq<char>>,
) -> PassView {
    PassView {
        rules,
        role,
        folder,
        existing: selected.filter(|uid: u32| places(known).contains(location(folder, uid))),
        missing: selected.filter(|uid: u32| !places(known).contains(location(folder, uid))),
        upstream: places_in(folder, selected),
        bodies: false,
        at: 0,
        until: 0,
        wait: Wait::Reopen,
        checked: 0,
        deleted: 0,
        updated: 0,
        removed: 0,
        stored: 0,
    }
}

impl FolderPass {
    /// Starts a pass over the messages `selected` of a folder, and says what is to
    /// be done first.
    pub fn start(
        rules: PassRules,
        role: &str,
        folder: &str,
        selected: &Vec<u32>,
        known: &Vec<String>,
    ) -> (r: (FolderPass, PassAction))
        requires
            rules.flag_chunk > 0,
            rules.body_chunk > 0,
        ensures
            (r.0@, r.1@) == fresh_pass(
                rules,
                role@,
                folder@,
                selected@,
                texts(known@),
            ).go_on(),
            r.0@.wf(),
    {
        let locations = imap_locations(known);
        let mut existing: Vec<u32> = Vec::new();
        let mut missing: Vec<u32> = Vec::new();
        let mut upstream = StringHashSet::new();
        let ghost stored = |uid: u32| places(texts(known@)).contains(location(folder@, uid));
        let ghost unstored = |uid: u32| !places(texts(known@)).contains(location(folder@, uid));
        let mut i: usize = 0;
        proof {
            reveal(Seq::filter);
            assert(selected@.take(0) =~= Seq::<u32>::empty());
            assert(upstream@ =~= places_in(folder@, selected@.take(0)));
        }
        while i < selected.len()
            invariant
                i <= selected.len(),
                locations@ == places(texts(known@)),
                stored == (|uid: u32| places(texts(known@)).contains(location(folder@, uid))),
                unstored == (|uid: u32| !places(texts(known@)).contains(location(folder@, uid))),
                existing@ == selected@.take(i as int).filter(stored),
                missing@ == selected@.take(i as int).filter(unstored),
                upstream@ == places_in(folder@, selected@.take(i as int)),
            decreases selected.len() - i,
        {
            let uid: u32 = selected[i];
            let key = imap_location_key(folder, uid);
            let ghost before = selected@.take(i as int);
            let ghost now = selected@.take(i + 1);
            proof {
                reveal(Seq::filter);
                assert(now.drop_last() =~= before);
                assert(now.last() == uid);
                assert(places_in(folder@, now) =~= places_in(folder@, before).insert(key@)) by {
                    assert forall|l: Seq<char>| places_in(folder@, now).contains(l) <==> places_in(
                        folder@,
                        before,
                    ).insert(key@).contains(l) by {
                        if places_in(folder@, now).contains(l) {
                            let k = choose|k: int|
                                0 <= k < now.len() && location(folder@, #[trigger] now[k]) == l;
                            if k < i {
                                assert(location(folder@, before[k]) == l);
                            }
                        }
                        if places_in(folder@, before).contains(l) {
                            let k = choose|k: int|
                                0 <= k < before.len() && location(folder@, #[trigger] before[k])
                                    == l;
                            assert(location(folder@, now[k]) == l);
                        }
                        if l == key@ {
                            assert(location(folder@, now[i as int]) == l);
                        }
                    }
                }
            }
            if locations.contains(key.as_str()) {
                existing.push(uid);
            } else {
                missing.push(uid);
            }
            upstream.insert(key);
            i = i + 1;
        }
        assert(selected@.take(selected.len() as int) =~= selected@);
        let mut pass = FolderPass {
            rules,
            role: role.to_owned(),
            folder: folder.to_owned(),
            existing,
            missing,
            upstream,
            bodies: false,
            at: 0,
            until: 0,
            wait: Wait::Reopen,
            checked: 0,
            deleted: 0,
            updated: 0,
            removed: 0,
            stored: 0,
        };
        assert(pass@ == fresh_pass(rules, role@, folder@, selected@, texts(known@)));
        let action = pass.next();
        (pass, action)
    }

    /// How many messages are being worked through.
    fn queue_len(&self) -> (r: usize)
        ensures
            r == self@.queue().len(),
    {
        if self.bodies {
            self.missing.len()
        } else {
            self.existing.len()
        }
    }

    /// Computes [`PassView::batch_end`].
    fn batch_end(&self) -> (r: usize)
        requires
            self@.at <= self@.queue().len(),
            self@.until <= self@.queue().len(),
        ensures
            r == self@.batch_end(),
    {
        let len = self.queue_len();
        let chunk: usize = if self.bodies {
            self.rules.body_chunk
        } else {
            self.rules.flag_chunk
        };
        if self.at < self.until {
            self.at + 1
        } else if chunk < len - self.at {
            self.at + chunk
        } else {
            len
        }
    }

    /// Computes [`PassView::fetch_next`].
    fn fetch(&mut self) -> (r: PassAction)
        requires
            old(self)@.at < old(self)@.queue().len(),
            old(self)@.until <= old(self)@.queue().len(),
        ensures
            (final(self)@, r@) == old(self)@.fetch_next(),
    {
        let end = self.batch_end();
        let mut uids: Vec<u32> = Vec::new();
        let ghost queue = self@.queue();
        let mut i: usize = self.at;
        while i < end
            invariant
                self.at <= i <= end <= queue.len(),
                queue == (if self.bodies {
                    self.missing@
                } else {
                    self.existing@
                }),
                uids@ == queue.subrange(self.at as int, i as int),
            decreases end - i,
        {
            let uid: u32 = if self.bodies {
                self.missing[i]
            } else {
                self.existing[i]
            };
            uids.push(uid);
            i = i + 1;
            assert(uids@ =~= queue.subrange(self.at as int, i as int));
        }
        let query = if self.bodies {
            FetchQuery::Body
        } else {
            FetchQuery::Flags
        };
        self.wait = Wait::Fetch;
        PassAction::Fetch { uids, query }
    }

    /// Computes [`PassView::start_bodies`].
    fn fetch_bodies(&mut self) -> (r: PassAction)
        ensures
            (final(self)@, r@) == old(self)@.start_bodies(),
    {
        self.bodies = true;
        self.at = 0;
        self.until = 0;
        assert(self@ == old(self)@.with_bodies());
        if self.missing.len() > 0 {
            self.fetch()
        } else {
            self.wait = Wait::Finished;
            PassAction::Finished
        }
    }

    /// Computes [`PassView::go_on`].
    fn next(&mut self) -> (r: PassAction)
        requires
            old(self)@.at <= old(self)@.queue().len(),
            old(self)@.until <= old(self)@.queue().len(),
        ensures
            (final(self)@, r@) == old(self)@.go_on(),
    {
        if self.at < self.queue_len() {
            self.fetch()
        } else if self.bodies {
            self.wait = Wait::Finished;
            PassAction::Finished
        } else if self.rules.prune {
            self.wait = Wait::Rows;
            PassAction::LoadRows
        } else {
            self.fetch_bodies()
        }
    }

    /// Computes [`PassView::store`].
    fn store(&mut self, messages: Vec<NewMessage>) -> (r: PassAction)
        requires
            old(self)@.at <= old(self)@.queue().len(),
            old(self)@.until <= old(self)@.queue().len(),
        ensures
            (final(self)@, r@) == old(self)@.store(message_views(messages@)),
    {
        if messages.len() == 0 {
            self.next()
        } else {
            self.wait = Wait::Store(messages.len());
            PassAction::Store(messages)
        }
    }

    /// Tells the pass what happened. It says what is to be done next; an event
    /// that it does not wait for it ignores.
    pub fn step(&mut self, event: PassEvent) -> (r: Option<PassAction>)
        requires
            old(self)@.wf(),
        ensures
            final(self)@.wf(),
            match r {
                Some(action) => old(self)@.expects(event@) && (final(self)@, action@) == old(
                    self,
                )@.after(event@),
                None => !old(self)@.expects(event@) && final(self)@ == old(self)@,
            },
    {
        let action = match (self.wait, event) {
            (Wait::Fetch, PassEvent::Flags(list)) => {
                if self.bodies {
                    return None;
                }
                self.at = self.batch_end();
                drop_deleted(self.folder.as_str(), &mut self.upstream, &list);
                self.checked = self.checked.saturating_add(list.len());
                if list.len() == 0 {
                    self.next()
                } else {
                    self.wait = Wait::Apply;
                    PassAction::Apply(flag_changes(&list))
                }
            },
            (Wait::Fetch, PassEvent::Bodies(list, now)) => {
                if !self.bodies {
                    return None;
                }
                self.at = self.batch_end();
                let messages = messages_from_fetches(
                    self.role.as_str(),
                    self.folder.as_str(),
                    &list,
                    false,
                    now,
                );
                self.store(messages)
            },
            (Wait::Fetch, PassEvent::Failed) => {
                if self.at < self.until {
                    if self.bodies {
                        self.wait = Wait::ReopenForText;
                    } else {
                        self.at = self.at + 1;
                        self.wait = Wait::Reopen;
                    }
                } else {
                    self.until = self.batch_end();
                    self.wait = Wait::Reopen;
                }
                PassAction::Reopen
            },
            (Wait::Reopen, PassEvent::Done) => self.next(),
            (Wait::ReopenForText, PassEvent::Done) => {
                let mut uids: Vec<u32> = Vec::new();
                uids.push(self.missing[self.at]);
                self.wait = Wait::Text;
                assert(uids@ =~= seq![self@.missing[self@.at]]);
                PassAction::Fetch { uids, query: FetchQuery::HeaderText }
            },
            (Wait::Text, PassEvent::Bodies(list, now)) => {
                self.at = self.at + 1;
                let messages = messages_from_fetches(
                    self.role.as_str(),
                    self.folder.as_str(),
                    &list,
                    true,
                    now,
                );
                self.store(messages)
            },
            (Wait::Text, PassEvent::Failed) => {
                self.at = self.at + 1;
                if self.rules.reopen_after_text {
                    self.wait = Wait::Reopen;
                    PassAction::Reopen
                } else {
                    self.next()
                }
            },
            (Wait::Apply, PassEvent::Applied { deleted, updated }) => {
                self.deleted = self.deleted.saturating_add(deleted);
                self.updated = self.updated.saturating_add(updated);
                self.next()
            },
            (Wait::Rows, PassEvent::Rows(rows)) => {
                let ids = missing_imap_rows(&rows, &self.upstream);
                self.wait = Wait::Delete(ids.len());
                PassAction::DeleteRows(ids)
            },
            (Wait::Delete(n), PassEvent::Done) => {
                self.removed = self.removed.saturating_add(n);
                self.fetch_bodies()
            },
            (Wait::Store(n), PassEvent::Done) => {
                self.stored = self.stored.saturating_add(n);
                self.next()
            },
            _ => {
                return None;
            },
        };
        Some(action)
    }

    /// How many messages were stored.
    pub fn stored(&self) -> (r: usize)
        ensures
            r == self@.stored,
    {
        self.stored
    }

    /// How many rows changed: those that went because their messages were flagged
    /// as deleted, and those that got another read state.
    pub fn changed(&self) -> (r: usize)
        ensures
            r == plus(self@.deleted, self@.updated as nat),
    {
        self.deleted.saturating_add(self.updated)
    }
}

// ---------------------------------------------------------------------------
// Laws
// ---------------------------------------------------------------------------
impl PassView {
    /// How far a pass is from its end: flags come first, then rows, then whole
    /// messages.
    pub open spec fn stage(self) -> nat {
        match self.wait {
            Wait::Rows => 1,
            Wait::Delete(_) => 1,
            _ => if self.bodies {
                0
            } else {
                2
            },
        }
    }

    /// How many messages are left.
    pub open spec fn left(self) -> nat {
        (self.queue().len() - self.at) as nat
    }

    /// Messages are fetched several at once rather than one by one.
    pub open spec fn at_once(self) -> nat {
        if self.at < self.until {
            0
        } else {
            1
        }
    }

    /// How many events can follow before messages are done.
    pub open spec fn rank(self) -> nat {
        match self.wait {
            Wait::Apply => 4,
            Wait::Store(_) => 4,
            Wait::Reopen => 4,
            Wait::Fetch => 3,
            Wait::ReopenForText => 2,
            Wait::Rows => 2,
            Wait::Text => 1,
            Wait::Delete(_) => 1,
            Wait::Finished => 0,
        }
    }

    /// The messages that are being fetched.
    pub open spec fn fetching(self) -> Seq<u32> {
        if self.wait == Wait::Text {
            seq![self.missing[self.at]]
        } else {
            self.queue().subrange(self.at, self.batch_end())
        }
    }
}

/// Law: every event that a pass waits for brings it nearer to its end, so a pass
/// ends.
pub proof fn pass_comes_to_an_end(pass: PassView, event: PassEventView)
    requires
        pass.wf(),
        pass.expects(event),
    ensures
        ({
            let next = pass.after(event).0;
            decreases_to!(
                pass.stage(), pass.left(), pass.at_once(), pass.rank()
                => next.stage(), next.left(), next.at_once(), next.rank()
            )
        }),
{
}

/// Law: a pass stays in a state that it can be in.
pub proof fn pass_stays_well_formed(pass: PassView, event: PassEventView)
    requires
        pass.wf(),
        pass.expects(event),
    ensures
        pass.after(event).0.wf(),
{
}

/// Law: no message is passed over. The messages that an event finishes are those
/// that were being fetched; and where the fetch failed, it was for a single
/// message: one whose flags could not be fetched alone, or one that could not be
/// fetched even in pieces.
pub proof fn no_message_is_passed_over(pass: PassView, event: PassEventView)
    requires
        pass.wf(),
        pass.expects(event),
    ensures
        ({
            let next = pass.after(event).0;
            next.bodies == pass.bodies && next.at != pass.at ==> {
                &&& (pass.wait == Wait::Fetch || pass.wait == Wait::Text)
                &&& pass.at < next.at <= pass.queue().len()
                &&& pass.queue().subrange(pass.at, next.at) == pass.fetching()
                &&& event is Failed ==> pass.fetching().len() == 1 && (pass.bodies ==> pass.wait
                    == Wait::Text)
            }
        }),
        ({
            let next = pass.after(event).0;
            next.bodies != pass.bodies ==> next.bodies && (pass.wait == Wait::Fetch
                && pass.batch_end() == pass.existing.len() || pass.at == pass.existing.len())
        }),
{
    let next = pass.after(event).0;
    if pass.wait == Wait::Text {
        assert(pass.queue().subrange(pass.at, pass.at + 1) =~= seq![pass.missing[pass.at]]);
    }
}

/// Law: a finished pass has fetched, or tried, every message.
pub proof fn finished_pass_has_tried_everything(pass: PassView)
    requires
        pass.wf(),
        pass.wait == Wait::Finished,
    ensures
        pass.bodies,
        pass.at == pass.missing.len(),
{
}

proof fn lemma_still_there(folder: Seq<char>, all: Set<Seq<char>>, list: Seq<FlagFetch>, l: Seq<char>)
    ensures
        still_there(folder, all, list).contains(l) == (all.contains(l) && !exists|i: int|
            0 <= i < list.len() && (#[trigger] list[i]).deleted && location(
                folder,
                uid_or(list[i].uid, list[i].message),
            ) == l),
    decreases list.len(),
{
    if list.len() > 0 {
        let front = list.drop_last();
        lemma_still_there(folder, all, front, l);
        let f = list.last();
        if f.deleted && location(folder, uid_or(f.uid, f.message)) == l {
            assert(list[list.len() - 1].deleted);
        } else {
            if exists|i: int|
                0 <= i < list.len() && (#[trigger] list[i]).deleted && location(
                    folder,
                    uid_or(list[i].uid, list[i].message),
                ) == l {
                let i = choose|i: int|
                    0 <= i < list.len() && (#[trigger] list[i]).deleted && location(
                        folder,
                        uid_or(list[i].uid, list[i].message),
                    ) == l;
                assert(front[i].deleted);
            }
            if exists|i: int|
                0 <= i < front.len() && (#[trigger] front[i]).deleted && location(
                    folder,
                    uid_or(front[i].uid, front[i].message),
                ) == l {
                let i = choose|i: int|
                    0 <= i < front.len() && (#[trigger] front[i]).deleted && location(
                        folder,
                        uid_or(front[i].uid, front[i].message),
                    ) == l;
                assert(list[i].deleted);
            }
        }
    }
}

/// Law: a place counts as one on the server until its message is reported as
/// deleted, and no longer.
pub proof fn only_deleted_messages_leave(pass: PassView, event: PassEventView, l: Seq<char>)
    requires
        pass.wf(),
        pass.expects(event),
    ensures
        pass.after(event).0.upstream.contains(l) == (pass.upstream.contains(l) && !(event matches
            PassEventView::Flags(list) && exists|i: int|
            0 <= i < list.len() && (#[trigger] list[i]).deleted && location(
                pass.folder,
                uid_or(list[i].uid, list[i].message),
            ) == l)),
{
    match event {
        PassEventView::Flags(list) => {
            lemma_still_there(pass.folder, pass.upstream, list, l);
        },
        _ => {},
    }
}

proof fn lemma_gone(rows: Seq<(i64, Seq<char>)>, keep: Set<Seq<char>>, k: int)
    requires
        0 <= k < rows.len(),
    ensures
        location_of(rows[k].1) matches Some(l) && !keep.contains(l) ==> gone(
            rows,
            keep,
        ).contains(rows[k].0),
    decreases rows.len(),
{
    let front = rows.drop_last();
    let g = gone(rows, keep);
    if k < rows.len() - 1 {
        lemma_gone(front, keep, k);
        assert(front[k] == rows[k]);
        if gone(front, keep).contains(rows[k].0) {
            let i = choose|i: int| 0 <= i < gone(front, keep).len() && gone(front, keep)[i] == rows[k].0;
            assert(g[i] == rows[k].0);
        }
    } else {
        match location_of(rows[k].1) {
            Some(l) => if !keep.contains(l) {
                assert(g[g.len() - 1] == rows[k].0);
            },
            None => {},
        }
    }
}

proof fn lemma_gone_rows(rows: Seq<(i64, Seq<char>)>, keep: Set<Seq<char>>, id: i64)
    requires
        gone(rows, keep).contains(id),
    ensures
        exists|k: int|
            0 <= k < rows.len() && (#[trigger] rows[k]).0 == id && (location_of(
                rows[k].1,
            ) matches Some(l) && !keep.contains(l)),
    decreases rows.len(),
{
    let front = rows.drop_last();
    if rows.len() > 0 {
        let g = gone(rows, keep);
        let i = choose|i: int| 0 <= i < g.len() && g[i] == id;
        if i < gone(front, keep).len() {
            assert(gone(front, keep)[i] == id);
            lemma_gone_rows(front, keep, id);
            let k = choose|k: int|
                0 <= k < front.len() && (#[trigger] front[k]).0 == id && (
                location_of(front[k].1) matches Some(l) && !keep.contains(l));
            assert(rows[k].0 == id);
        } else {
            assert(rows[rows.len() - 1].0 == id);
        }
    }
}

/// Law: pruning deletes exactly the rows whose messages are at no place that is
/// still on the server.
pub proof fn pruning_deletes_what_is_gone(rows: Seq<(i64, Seq<char>)>, keep: Set<Seq<char>>)
    ensures
        forall|k: int|
            0 <= k < rows.len() && (location_of((#[trigger] rows[k]).1) matches Some(l)
                && !keep.contains(l)) ==> gone(rows, keep).contains(rows[k].0),
        forall|id: i64|
            gone(rows, keep).contains(id) ==> exists|k: int|
                0 <= k < rows.len() && (#[trigger] rows[k]).0 == id && (
                location_of(rows[k].1) matches Some(l) && !keep.contains(l)),
{
    assert forall|k: int|
        0 <= k < rows.len() && (location_of((#[trigger] rows[k]).1) matches Some(l)
            && !keep.contains(l)) implies gone(rows, keep).contains(rows[k].0) by {
        lemma_gone(rows, keep, k);
    }
    assert forall|id: i64| gone(rows, keep).contains(id) implies exists|k: int|
        0 <= k < rows.len() && (#[trigger] rows[k]).0 == id && (location_of(
            rows[k].1,
        ) matches Some(l) && !keep.contains(l)) by {
        lemma_gone_rows(rows, keep, id);
    }
}

proof fn lemma_filter_only(s: Seq<u32>, pred: spec_fn(u32) -> bool, x: u32)
    requires
        !pred(x),
    ensures
        !s.filter(pred).contains(x),
{
    if s.filter(pred).contains(x) {
        let k = choose|k: int| 0 <= k < s.filter(pred).len() && s.filter(pred)[k] == x;
        s.lemma_filter_pred(pred, k);
    }
}

/// Law: a pass starts with every selected message among those that are stored or
/// among those that are not, and with every one of them on the server.
pub proof fn every_selected_message_is_covered(
    rules: PassRules,
    role: Seq<char>,
    folder: Seq<char>,
    selected: Seq<u32>,
    known: Seq<Seq<char>>,
    i: int,
)
    requires
        0 <= i < selected.len(),
    ensures
        ({
            let pass = fresh_pass(rules, role, folder, selected, known);
            &&& pass.existing.contains(selected[i]) != pass.missing.contains(selected[i])
            &&& pass.existing.contains(selected[i]) == places(known).contains(
                location(folder, selected[i]),
            )
            &&& pass.upstream.contains(location(folder, selected[i]))
        }),
{
    let stored = |uid: u32| places(known).contains(location(folder, uid));
    let unstored = |uid: u32| !places(known).contains(location(folder, uid));
    let uid = selected[i];
    if stored(uid) {
        selected.lemma_filter_contains(stored, i);
        lemma_filter_only(selected, unstored, uid);
    } else {
        selected.lemma_filter_contains(unstored, i);
        lemma_filter_only(selected, stored, uid);
    }
}

/// Law: a pass waits for what it asked for, and for nothing once it is over.
pub proof fn a_pass_waits_for_what_it_asked_for(pass: PassView, event: PassEventView)
    requires
        pass.wf(),
        pass.expects(event),
    ensures
        ({
            let (next, action) = pass.after(event);
            &&& action matches PassActionView::Fetch { query, .. } ==> {
                &&& next.expects(PassEventView::Failed)
                &&& query is Flags <==> !next.bodies
                &&& query is Flags ==> forall|list: Seq<FlagFetch>|
                    #[trigger] next.expects(PassEventView::Flags(list))
                &&& !(query is Flags) ==> forall|list: Seq<BodyFetchView>, now: i64|
                    #[trigger] next.expects(PassEventView::Bodies(list, now))
            }
            &&& action is Reopen ==> next.expects(PassEventView::Done)
            &&& action is Store ==> next.expects(PassEventView::Done)
            &&& action is DeleteRows ==> next.expects(PassEventView::Done)
            &&& action is Apply ==> forall|deleted: usize, updated: usize|
                #[trigger] next.expects(PassEventView::Applied { deleted, updated })
            &&& action is LoadRows ==> forall|rows: Seq<(i64, Seq<char>)>|
                #[trigger] next.expects(PassEventView::Rows(rows))
            &&& action is Finished ==> forall|e: PassEventView| !(#[trigger] next.expects(e))
        }),
{
}

/// Law: what is fetched is what comes next in line: as many messages as are fetched
/// at once, or all that are left, and single ones after a fetch failed. Of messages
/// that are stored the flags are fetched, of others all, in pieces only after the
/// whole could not be fetched.
pub proof fn fetches_follow_the_line(pass: PassView, event: PassEventView)
    requires
        pass.wf(),
        pass.expects(event),
        pass.after(event).1 is Fetch,
    ensures
        ({
            let next = pass.after(event).0;
            let uids = pass.after(event).1->uids;
            let query = pass.after(event).1->query;
            let line = if next.bodies { next.missing } else { next.existing };
            let many = if next.bodies {
                next.rules.body_chunk as int
            } else {
                next.rules.flag_chunk as int
            };
            &&& 0 < uids.len() <= line.len() - next.at
            &&& forall|k: int| 0 <= k < uids.len() ==> #[trigger] uids[k] == line[next.at + k]
            &&& next.at < next.until ==> uids.len() == 1
            &&& next.at >= next.until && many <= line.len() - next.at ==> uids.len() == many
            &&& next.at >= next.until && many > line.len() - next.at ==> uids.len() == line.len()
                - next.at
            &&& query == FetchQuery::Flags <==> !next.bodies
            &&& query == FetchQuery::HeaderText <==> pass.wait == Wait::ReopenForText
        }),
{
}

/// Law: flags that came are taken over for each of the messages, and mails that came
/// are stored as messages of the folder, whole or in pieces as they were fetched.
/// Nothing is stored or changed otherwise.
pub proof fn what_came_is_taken_over(pass: PassView, event: PassEventView)
    requires
        pass.wf(),
        pass.expects(event),
    ensures
        ({
            let (next, action) = pass.after(event);
            &&& (event is Flags && (event->Flags_0).len() > 0) ==> action == PassActionView::Apply(
                changes_for(event->Flags_0),
            )
            &&& event matches PassEventView::Bodies(list, now) ==> {
                let messages = fetched_messages(
                    pass.role,
                    pass.folder,
                    list,
                    pass.wait == Wait::Text,
                    now,
                );
                &&& messages.len() > 0 ==> action == PassActionView::Store(messages)
                &&& messages.len() > 0 ==> next.wait == Wait::Store(messages.len() as usize)
                &&& messages.len() == 0 ==> !(action is Store)
            }
            &&& event matches PassEventView::Rows(rows) ==> {
                &&& action == PassActionView::DeleteRows(gone(rows, pass.upstream))
                &&& next.wait == Wait::Delete(gone(rows, pass.upstream).len() as usize)
            }
            &&& action is Apply ==> event is Flags
            &&& action is Store ==> event is Bodies
            &&& action is DeleteRows ==> event is Rows
        }),
{
}

/// Law: a pass counts what was done, each thing once and nothing else, and it keeps
/// to its folder and to the messages that it started with.
pub proof fn a_pass_counts_what_was_done(pass: PassView, event: PassEventView)
    requires
        pass.wf(),
        pass.expects(event),
    ensures
        ({
            let next = pass.after(event).0;
            &&& next.rules == pass.rules
            &&& next.role == pass.role && next.folder == pass.folder
            &&& next.existing == pass.existing && next.missing == pass.missing
            &&& event matches PassEventView::Applied { deleted, updated } ==> {
                &&& pass.deleted + deleted <= usize::MAX ==> next.deleted == pass.deleted + deleted
                &&& pass.updated + updated <= usize::MAX ==> next.updated == pass.updated + updated
            }
            &&& !(event is Applied) ==> next.deleted == pass.deleted && next.updated
                == pass.updated
            &&& (event is Flags && pass.checked + (event->Flags_0).len() <= usize::MAX)
                ==> next.checked == pass.checked + (event->Flags_0).len()
            &&& !(event is Flags) ==> next.checked == pass.checked
            &&& (pass.wait is Store && pass.stored + pass.wait->Store_0 <= usize::MAX)
                ==> next.stored == pass.stored + pass.wait->Store_0
            &&& !(pass.wait is Store) ==> next.stored == pass.stored
            &&& (pass.wait is Delete && pass.removed + pass.wait->Delete_0 <= usize::MAX)
                ==> next.removed == pass.removed + pass.wait->Delete_0
            &&& !(pass.wait is Delete) ==> next.removed == pass.removed
        }),
{
}

/// Law: rows are pruned where that was asked for, once the flags of all stored
/// messages are done and before anything else is fetched; otherwise they are not.
pub proof fn rows_are_pruned_where_asked(pass: PassView, event: PassEventView)
    requires
        pass.wf(),
        pass.expects(event),
    ensures
        pass.after(event).1 is LoadRows ==> pass.rules.prune && pass.after(event).0.at
            == pass.existing.len(),
        pass.rules.prune && !pass.bodies && pass.after(event).0.bodies ==> pass.wait is Delete,
{
}

/// Law: where messages could not be fetched together, the folder is opened again and
/// each of them is tried alone; a message that could not be fetched alone is tried in
/// pieces.
pub proof fn failed_fetches_are_tried_again(pass: PassView)
    requires
        pass.wf(),
        pass.wait == Wait::Fetch,
    ensures
        ({
            let (next, action) = pass.after(PassEventView::Failed);
            &&& action is Reopen
            &&& pass.at >= pass.until ==> next.at == pass.at && next.until == pass.at
                + pass.fetching().len()
            &&& pass.at < pass.until && pass.bodies ==> next.at == pass.at && next.after(
                PassEventView::Done,
            ).1 == (PassActionView::Fetch {
                uids: seq![pass.missing[pass.at]],
                query: FetchQuery::HeaderText,
            })
            &&& pass.at < pass.until && !pass.bodies ==> next.at == pass.at + 1
        }),
{
}

/// Law: a pass starts with the flags of the messages that are stored; where there are
/// none it prunes, if asked to, or else fetches the messages that are not stored; and
/// with nothing to do it is over at once.
pub proof fn passes_start_with_what_is_stored(
    rules: PassRules,
    role: Seq<char>,
    folder: Seq<char>,
    selected: Seq<u32>,
    known: Seq<Seq<char>>,
)
    requires
        rules.flag_chunk > 0,
        rules.body_chunk > 0,
    ensures
        ({
            let fresh = fresh_pass(rules, role, folder, selected, known);
            let (pass, action) = fresh.go_on();
            &&& pass.rules == rules && pass.role == role && pass.folder == folder
            &&& pass.stored == 0 && pass.checked == 0 && pass.deleted == 0 && pass.updated == 0
                && pass.removed == 0
            &&& fresh.existing.len() > 0 ==> {
                &&& action matches PassActionView::Fetch { uids, query }
                &&& query == FetchQuery::Flags
                &&& uids[0] == fresh.existing[0]
                &&& uids.len() == rules.flag_chunk || uids.len() == fresh.existing.len()
            }
            &&& fresh.existing.len() == 0 && rules.prune ==> action is LoadRows
            &&& fresh.existing.len() == 0 && !rules.prune && fresh.missing.len() > 0 ==> {
                &&& action matches PassActionView::Fetch { uids, query }
                &&& query == FetchQuery::Body
                &&& uids[0] == fresh.missing[0]
                &&& uids.len() == rules.body_chunk || uids.len() == fresh.missing.len()
            }
            &&& fresh.existing.len() == 0 && !rules.prune && fresh.missing.len() == 0 ==> action
                is Finished
        }),
{
}

} // verus!
