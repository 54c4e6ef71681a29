//! Changing messages on their server and here: deleting, archiving, marking as
//! read.
//!
//! A change does no input or output itself. It says what is to be done next, is
//! told what came of it, and goes on from there. The server comes first: a row here
//! changes only once the server has done what was asked of it.
use vstd::prelude::*;

use crate::actions::{
    archived_messages_go_to_the_archive, archive_plan, archived_row, archiving, deleted_row, deletion_is_permanent,
    mark_imap_message_read, read_command, remote, remote_of, row_after_archive, row_after_delete,
    FlagCommand, Remote, RowChange, RowChangeView,
};
use crate::imap_id::{
    lacks, local_sent, names_are_read_back, provider_id, provider_parts, server_names_are_not_local,
};
use crate::moves::{
    archive_folders, archive_targets, delete_imap_message, fresh_move, move_comes_to_an_end,
    move_imap_message_to_folder, opt_location, steps_left, trash_folders, ImapMove,
    ImapMovedLocation, LocationView, MoveAction, MoveActionView, MoveEvent, MoveEventView, MoveView,
    MoveWait, Otherwise,
};
use crate::text::{copy, opt_text, texts};

verus! {

// ---------------------------------------------------------------------------
// Deleting and archiving
// ---------------------------------------------------------------------------
/// What is to become of a message.
#[derive(Clone, Copy, PartialEq, Eq, Structural)]
pub enum Goal {
    Delete,
    Archive,
}

/// What a relocation is told.
pub enum RelocationEvent {
    /// Gmail did what was asked.
    Done,
    /// Gmail refused, or there is no connection to the IMAP server.
    Refused(String),
    /// What the IMAP server answered.
    Imap(MoveEvent),
}

/// The view of a [`RelocationEvent`].
pub enum RelocationEventView {
    Done,
    Refused(Seq<char>),
    Imap(MoveEventView),
}

impl View for RelocationEvent {
    type V = RelocationEventView;

    open spec fn view(&self) -> RelocationEventView {
        match *self {
            RelocationEvent::Done => RelocationEventView::Done,
            RelocationEvent::Refused(e) => RelocationEventView::Refused(e@),
            RelocationEvent::Imap(event) => RelocationEventView::Imap(event@),
        }
    }
}

/// What is to be done next.
pub enum RelocationAction {
    /// Have Gmail delete the message, for good or not.
    GmailDelete { permanent: bool },
    /// Have Gmail archive the message.
    GmailArchive,
    /// Have the IMAP server do something.
    Imap(MoveAction),
    /// Change the row of the message. That is all.
    Row(RowChange),
    /// Nothing: the message is where it should be.
    Unchanged,
    /// Nothing: the row stays as it is.
    Stopped(String),
}

/// The view of a [`RelocationAction`].
pub enum RelocationActionView {
    GmailDelete { permanent: bool },
    GmailArchive,
    Imap(MoveActionView),
    Row(RowChangeView),
    Unchanged,
    Stopped(Seq<char>),
}

impl View for RelocationAction {
    type V = RelocationActionView;

    open spec fn view(&self) -> RelocationActionView {
        match *self {
            RelocationAction::GmailDelete { permanent } => RelocationActionView::GmailDelete {
                permanent,
            },
            RelocationAction::GmailArchive => RelocationActionView::GmailArchive,
            RelocationAction::Imap(action) => RelocationActionView::Imap(action@),
            RelocationAction::Row(change) => RelocationActionView::Row(change@),
            RelocationAction::Unchanged => RelocationActionView::Unchanged,
            RelocationAction::Stopped(e) => RelocationActionView::Stopped(e@),
        }
    }
}

/// The deleting or archiving of a message.
pub struct Relocation {
    goal: Goal,
    at: Remote,
    folder: String,
    header_id: String,
    imap: Option<ImapMove>,
    over: bool,
}

/// The view of a [`Relocation`].
pub struct RelocationView {
    pub goal: Goal,
    /// The server that knows the message.
    pub at: Remote,
    /// The folder that the message is in.
    pub folder: Seq<char>,
    /// The message id that is stored.
    pub header_id: Seq<char>,
    /// The move on the IMAP server.
    pub imap: Option<MoveView>,
    /// Nothing is left to be done.
    pub over: bool,
}

/// The view of a move that may be missing.
pub open spec fn opt_move(m: Option<ImapMove>) -> Option<MoveView> {
    match m {
        Some(m) => Some(m@),
        None => None,
    }
}

impl View for Relocation {
    type V = RelocationView;

    closed spec fn view(&self) -> RelocationView {
        RelocationView {
            goal: self.goal,
            at: self.at,
            folder: self.folder@,
            header_id: self.header_id@,
            imap: opt_move(self.imap),
            over: self.over,
        }
    }
}

impl RelocationView {
    /// A state that a relocation can be in.
    pub open spec fn wf(self) -> bool {
        if self.over {
            self.imap is None
        } else {
            &&& self.at != Remote::Nowhere
            &&& self.at == Remote::Imap <==> self.imap is Some
            &&& self.imap matches Some(m) ==> m.wf() && m.wait != MoveWait::Over
        }
    }

    /// The end of the relocation.
    pub open spec fn end(self, action: RelocationActionView) -> (
        RelocationView,
        RelocationActionView,
    ) {
        (RelocationView { over: true, imap: None, ..self }, action)
    }

    /// The server has done its part: the row follows. `found` is where an IMAP
    /// message was found again, `lookup` the message id by which it was.
    pub open spec fn settle(self, found: Option<LocationView>, lookup: Option<Seq<char>>) -> (
        RelocationView,
        RelocationActionView,
    ) {
        match self.goal {
            Goal::Delete => self.end(
                RelocationActionView::Row(deleted_row(self.folder, self.at, found, lookup)),
            ),
            Goal::Archive => match archived_row(self.at, found, self.header_id) {
                Ok(change) => self.end(RelocationActionView::Row(change)),
                Err(e) => self.end(RelocationActionView::Stopped(e)),
            },
        }
    }

    /// The move on the IMAP server goes on, until it is at its end.
    pub open spec fn go_on(self, moved: (MoveView, MoveActionView)) -> (
        RelocationView,
        RelocationActionView,
    ) {
        match moved.1 {
            MoveActionView::Finished(found) => self.settle(found, moved.0.lookup),
            MoveActionView::Stopped(e) => self.end(RelocationActionView::Stopped(e)),
            action => (
                RelocationView { imap: Some(moved.0), ..self },
                RelocationActionView::Imap(action),
            ),
        }
    }

    /// The start on the server that knows the message. A message that none knows is
    /// changed here alone.
    pub open spec fn begin(self, name: Seq<char>) -> (RelocationView, RelocationActionView) {
        match self.at {
            Remote::Nowhere => self.settle(None, None),
            Remote::Gmail => match self.goal {
                Goal::Delete => (
                    self,
                    RelocationActionView::GmailDelete { permanent: self.folder == "Trash"@ },
                ),
                Goal::Archive => (self, RelocationActionView::GmailArchive),
            },
            Remote::Imap => {
                let started = match self.goal {
                    Goal::Delete => fresh_move(
                        name,
                        self.header_id,
                        if self.folder == "Trash"@ {
                            Seq::empty()
                        } else {
                            trash_folders()
                        },
                        Otherwise::Vanish,
                    ),
                    Goal::Archive => fresh_move(
                        name,
                        self.header_id,
                        archive_folders(),
                        Otherwise::Stay,
                    ),
                };
                match started {
                    Ok(moved) => self.go_on(moved),
                    Err(e) => self.end(RelocationActionView::Stopped(e)),
                }
            },
        }
    }

    /// The event is one that the relocation waits for.
    pub open spec fn expects(self, event: RelocationEventView) -> bool {
        !self.over && match (self.imap, event) {
            (_, RelocationEventView::Refused(_)) => true,
            (None, RelocationEventView::Done) => true,
            (Some(m), RelocationEventView::Imap(event)) => m.expects(event),
            _ => false,
        }
    }

    /// The state behind an event that the relocation waits for, and what is to be
    /// done then.
    pub open spec fn after(self, event: RelocationEventView) -> (
        RelocationView,
        RelocationActionView,
    ) {
        match (self.imap, event) {
            (_, RelocationEventView::Refused(e)) => self.end(RelocationActionView::Stopped(e)),
            (None, RelocationEventView::Done) => self.settle(None, None),
            (Some(m), RelocationEventView::Imap(event)) => self.go_on(m.after(event)),
            _ => (self, RelocationActionView::Unchanged),
        }
    }
}

/// The start of the deleting or archiving of a message of an account.
pub open spec fn fresh_relocation(
    goal: Goal,
    provider: Seq<char>,
    name: Seq<char>,
    folder: Seq<char>,
    header_id: Seq<char>,
) -> (RelocationView, RelocationActionView) {
    let fresh = RelocationView {
        goal,
        at: remote(provider, name),
        folder,
        header_id,
        imap: None,
        over: false,
    };
    match goal {
        Goal::Delete => fresh.begin(name),
        Goal::Archive => match archiving(folder, fresh.at) {
            Ok(Some(_)) => fresh.begin(name),
            Ok(None) => fresh.end(RelocationActionView::Unchanged),
            Err(e) => fresh.end(RelocationActionView::Stopped(e)),
        },
    }
}

impl Relocation {
    /// Starts the deleting or archiving of a message, which has a name, is in a
    /// folder and has a message id, and says what is to be done first.
    pub fn start(
        goal: Goal,
        provider: &str,
        provider_message_id: &str,
        folder: &str,
        message_header_id: &str,
    ) -> (r: (Relocation, RelocationAction))
        ensures
            (r.0@, r.1@) == fresh_relocation(
                goal,
                provider@,
                provider_message_id@,
                folder@,
                message_header_id@,
            ),
            r.0@.wf(),
    {
        let at = remote_of(provider, provider_message_id);
        let mut fresh = Relocation {
            goal,
            at,
            folder: folder.to_owned(),
            header_id: message_header_id.to_owned(),
            imap: None,
            over: false,
        };
        let action = match goal {
            Goal::Delete => fresh.begin(provider_message_id),
            Goal::Archive => match archive_plan(folder, at) {
                Ok(Some(_)) => fresh.begin(provider_message_id),
                Ok(None) => fresh.end(RelocationAction::Unchanged),
                Err(e) => fresh.end(RelocationAction::Stopped(e)),
            },
        };
        (fresh, action)
    }

    /// Computes [`RelocationView::end`].
    fn end(&mut self, action: RelocationAction) -> (r: RelocationAction)
        ensures
            (final(self)@, r@) == old(self)@.end(action@),
    {
        self.over = true;
        self.imap = None;
        action
    }

    /// Computes [`RelocationView::settle`].
    fn settle(&mut self, found: Option<ImapMovedLocation>, lookup: Option<String>) -> (r:
        RelocationAction)
        ensures
            (final(self)@, r@) == old(self)@.settle(opt_location(found), opt_text(lookup)),
    {
        match self.goal {
            Goal::Delete => {
                let change = row_after_delete(self.folder.as_str(), self.at, &found, &lookup);
                self.end(RelocationAction::Row(change))
            },
            Goal::Archive => match row_after_archive(self.at, &found, self.header_id.as_str()) {
                Ok(change) => self.end(RelocationAction::Row(change)),
                Err(e) => self.end(RelocationAction::Stopped(e)),
            },
        }
    }

    /// Computes [`RelocationView::go_on`].
    fn go_on(&mut self, moved: ImapMove, action: MoveAction) -> (r: RelocationAction)
        ensures
            (final(self)@, r@) == old(self)@.go_on((moved@, action@)),
    {
        match action {
            MoveAction::Finished(found) => {
                let lookup = moved.lookup();
                self.settle(found, lookup)
            },
            MoveAction::Stopped(e) => self.end(RelocationAction::Stopped(e)),
            action => {
                self.imap = Some(moved);
                RelocationAction::Imap(action)
            },
        }
    }

    /// Computes [`RelocationView::begin`].
    fn begin(&mut self, provider_message_id: &str) -> (r: RelocationAction)
        requires
            !old(self)@.over,
            old(self)@.imap is None,
        ensures
            (final(self)@, r@) == old(self)@.begin(provider_message_id@),
            final(self)@.wf(),
    {
        match self.at {
            Remote::Nowhere => self.settle(None, None),
            Remote::Gmail => match self.goal {
                Goal::Delete => RelocationAction::GmailDelete {
                    permanent: deletion_is_permanent(self.folder.as_str()),
                },
                Goal::Archive => RelocationAction::GmailArchive,
            },
            Remote::Imap => {
                let started = match self.goal {
                    Goal::Delete => delete_imap_message(
                        provider_message_id,
                        deletion_is_permanent(self.folder.as_str()),
                        self.header_id.as_str(),
                    ),
                    Goal::Archive => move_imap_message_to_folder(
                        provider_message_id,
                        archive_targets(),
                        self.header_id.as_str(),
                    ),
                };
                match started {
                    Ok((moved, action)) => self.go_on(moved, action),
                    Err(e) => self.end(RelocationAction::Stopped(e)),
                }
            },
        }
    }

    /// Tells the relocation what happened. It says what is to be done next; an event
    /// that it does not wait for it ignores.
    pub fn step(&mut self, event: RelocationEvent) -> (r: Option<RelocationAction>)
        requires
            old(self)@.wf(),
        ensures
            final(self)@.wf(),
            match r {
                Some(action) => old(self)@.expects(event@) && (final(self)@, action@) == old(
                    self,
                )@.after(event@),
                None => !old(self)@.expects(event@) && final(self)@ == old(self)@,
            },
    {
        if self.over {
            return None;
        }
        match event {
            RelocationEvent::Refused(e) => Some(self.end(RelocationAction::Stopped(e))),
            RelocationEvent::Done => {
                if self.imap.is_some() {
                    return None;
                }
                Some(self.settle(None, None))
            },
            RelocationEvent::Imap(event) => {
                let mut moved = match self.imap.take() {
                    Some(moved) => moved,
                    None => {
                        return None;
                    },
                };
                let ghost before = moved@;
                proof {
                    if before.expects(event@) {
                        move_comes_to_an_end(before, event@);
                    }
                }
                match moved.step(event) {
                    Some(action) => Some(self.go_on(moved, action)),
                    None => {
                        self.imap = Some(moved);
                        None
                    },
                }
            },
        }
    }
}

// ---------------------------------------------------------------------------
// Marking as read
// ---------------------------------------------------------------------------
/// What a marking is told.
pub enum MarkEvent {
    /// The server did what was asked.
    Done,
    /// The server refused.
    Refused(String),
}

/// The view of a [`MarkEvent`].
pub enum MarkEventView {
    Done,
    Refused(Seq<char>),
}

impl View for MarkEvent {
    type V = MarkEventView;

    open spec fn view(&self) -> MarkEventView {
        match *self {
            MarkEvent::Done => MarkEventView::Done,
            MarkEvent::Refused(e) => MarkEventView::Refused(e@),
        }
    }
}

/// What is to be done next.
pub enum MarkAction {
    /// Have Gmail mark the message with a name.
    Gmail(String),
    /// Have the IMAP server change flags.
    Imap(FlagCommand),
    /// Mark the rows. That is all.
    Rows,
    /// Nothing: the rows stay as they are.
    Stopped(String),
}

/// The view of a [`MarkAction`].
pub enum MarkActionView {
    Gmail(Seq<char>),
    Imap { folder: Seq<char>, uid: u32, command: Seq<char> },
    Rows,
    Stopped(Seq<char>),
}

impl View for MarkAction {
    type V = MarkActionView;

    open spec fn view(&self) -> MarkActionView {
        match *self {
            MarkAction::Gmail(name) => MarkActionView::Gmail(name@),
            MarkAction::Imap(c) => MarkActionView::Imap {
                folder: c.folder@,
                uid: c.uid,
                command: c.command@,
            },
            MarkAction::Rows => MarkActionView::Rows,
            MarkAction::Stopped(e) => MarkActionView::Stopped(e@),
        }
    }
}

/// The marking of messages of an account as read or as unread.
pub struct Marking {
    provider: String,
    names: Vec<String>,
    is_read: bool,
    at: usize,
    over: bool,
}

/// The view of a [`Marking`].
pub struct MarkingView {
    pub provider: Seq<char>,
    /// The names of the messages.
    pub names: Seq<Seq<char>>,
    pub is_read: bool,
    /// The message that the server is being asked to mark.
    pub at: int,
    /// Nothing is left to be done.
    pub over: bool,
}

impl View for Marking {
    type V = MarkingView;

    closed spec fn view(&self) -> MarkingView {
        MarkingView {
            provider: self.provider@,
            names: texts(self.names@),
            is_read: self.is_read,
            at: self.at as int,
            over: self.over,
        }
    }
}

impl MarkingView {
    /// A state that a marking can be in.
    pub open spec fn wf(self) -> bool {
        &&& 0 <= self.at <= self.names.len()
        &&& !self.over ==> self.at < self.names.len()
    }

    /// The end of the marking.
    pub open spec fn end(self, action: MarkActionView) -> (MarkingView, MarkActionView) {
        (MarkingView { over: true, ..self }, action)
    }

    /// The server is asked to mark the next message that it knows. Where none is
    /// left, the rows follow.
    pub open spec fn ask(self) -> (MarkingView, MarkActionView)
        decreases self.names.len() - self.at,
    {
        if self.at < 0 || self.at >= self.names.len() {
            self.end(MarkActionView::Rows)
        } else {
            let name = self.names[self.at];
            match remote(self.provider, name) {
                Remote::Nowhere => MarkingView { at: self.at + 1, ..self }.ask(),
                Remote::Gmail => (self, MarkActionView::Gmail(name)),
                Remote::Imap => match read_command(name, self.is_read) {
                    Ok((folder, uid, command)) => (
                        self,
                        MarkActionView::Imap { folder, uid, command },
                    ),
                    Err(e) => self.end(MarkActionView::Stopped(e)),
                },
            }
        }
    }

    /// The state behind an event, and what is to be done then.
    pub open spec fn after(self, event: MarkEventView) -> (MarkingView, MarkActionView) {
        match event {
            MarkEventView::Done => MarkingView { at: self.at + 1, ..self }.ask(),
            MarkEventView::Refused(e) => self.end(MarkActionView::Stopped(e)),
        }
    }
}

/// A marking of which nothing is done yet.
pub open spec fn fresh_marking(provider: Seq<char>, names: Seq<Seq<char>>, is_read: bool) -> MarkingView {
    MarkingView { provider, names, is_read, at: 0, over: false }
}

impl Marking {
    /// Starts the marking of the messages with some names, and says what is to be
    /// done first.
    pub fn start(provider: &str, names: Vec<String>, is_read: bool) -> (r: (Marking, MarkAction))
        ensures
            (r.0@, r.1@) == fresh_marking(provider@, texts(names@), is_read).ask(),
            r.0@.wf(),
    {
        let mut marking = Marking {
            provider: provider.to_owned(),
            names,
            is_read,
            at: 0,
            over: false,
        };
        let action = marking.ask();
        (marking, action)
    }

    /// Computes [`MarkingView::ask`].
    fn ask(&mut self) -> (r: MarkAction)
        requires
            !old(self)@.over,
            0 <= old(self)@.at <= old(self)@.names.len(),
        ensures
            (final(self)@, r@) == old(self)@.ask(),
            final(self)@.wf(),
    {
        let ghost start = self@;
        assert(texts(self.names@).len() == self.names@.len());
        while self.at < self.names.len()
            invariant
                !self.over,
                start == old(self)@,
                self.at <= self.names@.len(),
                texts(self.names@).len() == self.names@.len(),
                self@.ask() == start.ask(),
            decreases self.names.len() - self.at,
        {
            assert(self@.names[self@.at] == self.names@[self.at as int]@);
            match remote_of(self.provider.as_str(), self.names[self.at].as_str()) {
                Remote::Nowhere => {
                    self.at = self.at + 1;
                },
                Remote::Gmail => {
                    return MarkAction::Gmail(copy(&self.names[self.at]));
                },
                Remote::Imap => match mark_imap_message_read(
                    self.names[self.at].as_str(),
                    self.is_read,
                ) {
                    Ok(command) => {
                        return MarkAction::Imap(command);
                    },
                    Err(e) => {
                        self.over = true;
                        return MarkAction::Stopped(e);
                    },
                },
            }
        }
        self.over = true;
        MarkAction::Rows
    }

    /// Tells the marking what happened. It says what is to be done next; when it is
    /// over it ignores what it is told.
    pub fn step(&mut self, event: MarkEvent) -> (r: Option<MarkAction>)
        requires
            old(self)@.wf(),
        ensures
            final(self)@.wf(),
            match r {
                Some(action) => !old(self)@.over && (final(self)@, action@) == old(self)@.after(
                    event@,
                ),
                None => old(self)@.over && final(self)@ == old(self)@,
            },
    {
        if self.over {
            return None;
        }
        match event {
            MarkEvent::Done => {
                assert(texts(self.names@).len() == self.names@.len());
                assert(self.at < self.names.len());
                self.at = self.at + 1;
                Some(self.ask())
            },
            MarkEvent::Refused(e) => {
                self.over = true;
                Some(MarkAction::Stopped(e))
            },
        }
    }
}

// ---------------------------------------------------------------------------
// Laws
// ---------------------------------------------------------------------------
/// How far a relocation is from its end.
pub open spec fn relocation_left(c: RelocationView) -> int {
    if c.over {
        0
    } else {
        match c.imap {
            Some(m) => steps_left(m) + 1,
            None => 1,
        }
    }
}

/// Law: whatever the server answers, a relocation comes to an end, and behind its
/// end nothing is asked.
pub proof fn relocation_comes_to_an_end(c: RelocationView, event: RelocationEventView)
    requires
        c.wf(),
        c.expects(event),
    ensures
        ({
            let (next, action) = c.after(event);
            &&& next.wf()
            &&& 0 <= relocation_left(next) < relocation_left(c)
            &&& next.over <==> (action is Row || action is Stopped)
            &&& next.over ==> forall|later: RelocationEventView| !next.expects(later)
        }),
{
    if let (Some(m), RelocationEventView::Imap(e)) = (c.imap, event) {
        move_comes_to_an_end(m, e);
    }
}

/// Law: the server is asked before the row changes. The first thing that a
/// relocation asks for is a change of the row only where no server knows the
/// message.
pub proof fn the_server_comes_first(
    goal: Goal,
    provider: Seq<char>,
    name: Seq<char>,
    folder: Seq<char>,
    header_id: Seq<char>,
)
    ensures
        ({
            let (fresh, action) = fresh_relocation(goal, provider, name, folder, header_id);
            &&& action is Row ==> local_sent(name)
            &&& !fresh.over ==> !local_sent(name) && (action is GmailDelete || action is GmailArchive
                || action is Imap)
        }),
{
}

/// Law: a row changes only where the server has done its part: Gmail what was asked
/// of it, an IMAP server all of the move.
pub proof fn rows_follow_the_server(c: RelocationView, event: RelocationEventView)
    requires
        c.wf(),
        c.expects(event),
        c.after(event).1 is Row,
    ensures
        match c.imap {
            Some(m) => event matches RelocationEventView::Imap(e) && m.after(e).1 is Finished,
            None => c.at == Remote::Gmail && event is Done,
        },
{
}

/// Law: a refusal leaves the row as it is, and the user is told of it: by Gmail, of
/// a connection, or of a step of a move that has to be.
pub proof fn a_refusal_leaves_the_row(c: RelocationView, event: RelocationEventView)
    requires
        c.wf(),
        c.expects(event),
    ensures
        event matches RelocationEventView::Refused(e) ==> c.after(event).1
            == RelocationActionView::Stopped(e),
        event matches RelocationEventView::Imap(answer) ==> (c.imap->Some_0.after(answer).1 matches
            MoveActionView::Stopped(e) ==> c.after(event).1 == RelocationActionView::Stopped(e)),
{
}

/// Law: a marking comes to an end, and it ends by marking the rows or by an error.
pub proof fn marking_comes_to_an_end(m: MarkingView, event: MarkEventView)
    requires
        m.wf(),
        !m.over,
    ensures
        ({
            let (next, action) = m.after(event);
            &&& next.wf()
            &&& next.names == m.names
            &&& next.over || next.at > m.at
            &&& next.over <==> (action is Rows || action is Stopped)
        }),
{
    lemma_ask(MarkingView { at: m.at + 1, ..m });
}

proof fn lemma_ask(m: MarkingView)
    requires
        0 <= m.at <= m.names.len(),
        !m.over,
    ensures
        ({
            let (next, action) = m.ask();
            &&& next.wf()
            &&& next.names == m.names
            &&& next.at >= m.at
            &&& next.over <==> (action is Rows || action is Stopped)
            &&& action is Rows ==> next.at == m.names.len()
            &&& forall|k: int| m.at <= k < next.at ==> local_sent(#[trigger] m.names[k])
            &&& !next.over ==> !local_sent(m.names[next.at])
        }),
    decreases m.names.len() - m.at,
{
    if m.at < m.names.len() && remote(m.provider, m.names[m.at]) == Remote::Nowhere {
        lemma_ask(MarkingView { at: m.at + 1, ..m });
    }
}

/// Law: the rows are marked last. When a marking starts to mark them, the server has
/// marked the message that it was asked for before, and no message is left that it
/// knows.
pub proof fn rows_are_marked_last(m: MarkingView, event: MarkEventView)
    requires
        m.wf(),
        !m.over,
        m.after(event).1 is Rows,
    ensures
        event is Done,
        forall|k: int| m.at < k < m.names.len() ==> local_sent(#[trigger] m.names[k]),
{
    lemma_ask(MarkingView { at: m.at + 1, ..m });
}

/// Law: the server is asked for every message that it knows, one after the other:
/// those that are passed over were sent from here.
pub proof fn no_message_is_passed_over(m: MarkingView)
    requires
        0 <= m.at <= m.names.len(),
        !m.over,
    ensures
        ({
            let (next, action) = m.ask();
            &&& m.at <= next.at <= m.names.len()
            &&& forall|k: int| m.at <= k < next.at ==> local_sent(#[trigger] m.names[k])
            &&& action is Rows ==> next.at == m.names.len()
            &&& !next.over ==> !local_sent(m.names[next.at])
        }),
{
    lemma_ask(m);
}

/// Law: a refusal leaves all rows as they are, and the user is told of it.
pub proof fn a_refused_mark_leaves_the_rows(m: MarkingView, e: Seq<char>)
    ensures
        m.after(MarkEventView::Refused(e)).1 == MarkActionView::Stopped(e),
        m.after(MarkEventView::Refused(e)).0.over,
{
}

/// Law: Gmail is asked for what the user wants: to delete for good what is in the
/// trash, to delete other messages in a way that can be taken back, or to archive. Once
/// it has done so, the row is gone, in the trash or in the archive.
pub proof fn gmail_is_asked_for_what_is_wanted(
    name: Seq<char>,
    folder: Seq<char>,
    header_id: Seq<char>,
)
    requires
        !local_sent(name),
    ensures
        ({
            let (c, first) = fresh_relocation(Goal::Delete, "gmail"@, name, folder, header_id);
            let done = c.after(RelocationEventView::Done).1;
            &&& folder == "Trash"@ ==> first == (RelocationActionView::GmailDelete {
                permanent: true,
            }) && done == RelocationActionView::Row(RowChangeView::Delete)
            &&& folder != "Trash"@ ==> first == (RelocationActionView::GmailDelete {
                permanent: false,
            }) && done == RelocationActionView::Row(
                RowChangeView::Refile { folder: "Trash"@, name: None },
            )
            &&& c.expects(RelocationEventView::Done)
        }),
        ({
            let (c, first) = fresh_relocation(Goal::Archive, "gmail"@, name, folder, header_id);
            let done = c.after(RelocationEventView::Done).1;
            &&& folder == "Archive"@ ==> first is Unchanged
            &&& folder == "Trash"@ ==> first is Stopped
            &&& folder != "Archive"@ && folder != "Trash"@ ==> first is GmailArchive && c.expects(
                RelocationEventView::Done,
            ) && done == RelocationActionView::Row(
                RowChangeView::Refile { folder: "Archive"@, name: None },
            )
        }),
{
    reveal_strlit("Trash");
    reveal_strlit("Archive");
    assert("Trash"@ != "Archive"@) by {
        assert("Trash"@.len() != "Archive"@.len());
    }
}

/// Law: on an IMAP server the message is taken from the folder that its name holds.
/// What is deleted goes to the trash, or for good from there; what is archived goes to
/// the archive, and stays where it is if there is none. A colon in the folder ends the
/// folder early, so such folders are left out.
pub proof fn imap_messages_are_taken_from_their_folder(
    provider: Seq<char>,
    place: Seq<char>,
    uid: u32,
    id: Option<Seq<char>>,
    folder: Seq<char>,
    header_id: Seq<char>,
)
    requires
        lacks(place, ':'),
        provider != "gmail"@,
    ensures
        ({
            let name = provider_id(place, uid, id);
            let (c, first) = fresh_relocation(Goal::Delete, provider, name, folder, header_id);
            &&& first == RelocationActionView::Imap(MoveActionView::Select(place))
            &&& c.imap is Some && c.imap->Some_0.uid == uid
            &&& c.imap->Some_0.otherwise == Otherwise::Vanish
            &&& folder == "Trash"@ ==> c.imap->Some_0.targets.len() == 0
            &&& folder != "Trash"@ ==> c.imap->Some_0.targets == seq![
                "Trash"@,
                "Deleted Items"@,
                "[Gmail]/Trash"@,
            ]
        }),
        folder != "Archive"@ && folder != "Trash"@ ==> ({
            let name = provider_id(place, uid, id);
            let (c, first) = fresh_relocation(Goal::Archive, provider, name, folder, header_id);
            &&& first == RelocationActionView::Imap(MoveActionView::Select(place))
            &&& c.imap is Some && c.imap->Some_0.uid == uid
            &&& c.imap->Some_0.otherwise == Otherwise::Stay
            &&& c.imap->Some_0.targets == seq!["Archive"@, "Archives"@]
        }),
{
    let name = provider_id(place, uid, id);
    names_are_read_back(place, uid, id);
    server_names_are_not_local(place, uid, id);
}

/// Law: once a message on an IMAP server is where it should be, its row is filed under
/// the place at which the message was found; and what else is asked of the server is
/// what the move asks for.
pub proof fn rows_are_filed_where_messages_were_found(c: RelocationView, event: MoveEventView)
    requires
        c.wf(),
        c.expects(RelocationEventView::Imap(event)),
        c.folder != "Trash"@,
    ensures
        ({
            let (next, action) = c.after(RelocationEventView::Imap(event));
            let (moved, step) = c.imap->Some_0.after(event);
            &&& step matches MoveActionView::Finished(found) ==> match found {
                Some(l) => action == RelocationActionView::Row(
                    RowChangeView::Refile {
                        folder: if c.goal == Goal::Delete {
                            "Trash"@
                        } else {
                            "Archive"@
                        },
                        name: Some(
                            provider_id(
                                l.folder,
                                l.uid,
                                if c.goal == Goal::Delete {
                                    moved.lookup
                                } else {
                                    Some(c.header_id)
                                },
                            ),
                        ),
                    },
                ),
                None => if c.goal == Goal::Delete {
                    action == RelocationActionView::Row(RowChangeView::Delete)
                } else {
                    action is Stopped
                },
            }
            &&& !(step is Finished) && !(step is Stopped) ==> action == RelocationActionView::Imap(
                step,
            ) && next.imap == Some(moved) && next.goal == c.goal && next.folder == c.folder
                && next.header_id == c.header_id && next.at == c.at
        }),
{
    if c.goal == Goal::Archive {
        match c.imap->Some_0.after(event).1 {
            MoveActionView::Finished(Some(l)) => {
                archived_messages_go_to_the_archive(c.folder, c.at, l.folder, l.uid, c.header_id);
            },
            _ => {},
        }
    }
}

/// Law: the server is asked for the message that comes next, and for the mark that
/// the user wants: on an IMAP server by setting the flag or by taking it away.
pub proof fn marks_are_what_the_user_wants(m: MarkingView)
    requires
        0 <= m.at <= m.names.len(),
        !m.over,
    ensures
        ({
            let (next, action) = m.ask();
            &&& next.is_read == m.is_read && next.provider == m.provider
            &&& action matches MarkActionView::Gmail(name) ==> m.provider == "gmail"@
                && next.at < m.names.len() && name == m.names[next.at]
            &&& action is Imap ==> m.provider != "gmail"@ && next.at < m.names.len()
            &&& action is Imap && m.is_read ==> action->command == "+FLAGS.SILENT (\\Seen)"@
            &&& action is Imap && !m.is_read ==> action->command == "-FLAGS.SILENT (\\Seen)"@
            &&& action matches MarkActionView::Imap { folder, uid, .. } ==> provider_parts(
                m.names[next.at],
            ) is Some && provider_parts(m.names[next.at])->Some_0.0 == folder && provider_parts(
                m.names[next.at],
            )->Some_0.1 == uid
        }),
    decreases m.names.len() - m.at,
{
    if m.at < m.names.len() && local_sent(m.names[m.at]) {
        marks_are_what_the_user_wants(MarkingView { at: m.at + 1, ..m });
    }
}

/// Law: a marking starts with the first message, with nothing done yet, and keeps to
/// the messages and the mark that it was started with.
pub proof fn markings_start_with_the_first_message(
    provider: Seq<char>,
    names: Seq<Seq<char>>,
    is_read: bool,
)
    ensures
        ({
            let m = fresh_marking(provider, names, is_read);
            let (next, action) = m.ask();
            &&& next.provider == provider && next.names == names && next.is_read == is_read
            &&& names.len() == 0 ==> action is Rows
            &&& names.len() > 0 && !local_sent(names[0]) && provider == "gmail"@ ==> action
                == MarkActionView::Gmail(names[0]) && next.at == 0 && !next.over
            &&& names.len() > 0 && !local_sent(names[0]) && provider != "gmail"@
                && provider_parts(names[0]) is Some ==> action is Imap && next.at == 0
                && !next.over
        }),
{
    let m = fresh_marking(provider, names, is_read);
    lemma_ask(m);
    marks_are_what_the_user_wants(m);
}

} // verus!
