//! Taking a message out of a folder on an IMAP server: into another folder, into
//! the trash, or away for good.
//!
//! A move does no input or output itself. It says what is to be done next, is
//! told what came of it, and goes on from there.
use vstd::prelude::*;

use crate::imap_id::{
    id_search, lacks, lemma_newest, message_id_search, names_are_read_back, newest, newest_uid,
    no_uid_error, parse_imap_provider_message_id, provider_id, provider_parts,
};
use crate::imap_scan::sync_plan;
use crate::msgid::nonempty;
use crate::text::{blank, copy, opt_text, texts, trim};

verus! {

// ---------------------------------------------------------------------------
// What is told and what is asked
// ---------------------------------------------------------------------------
/// What a move is told.
pub enum MoveEvent {
    /// The server did what was asked.
    Done,
    /// The server refused.
    Failed(String),
    /// The uids that a search found.
    Found(Vec<u32>),
}

/// The view of a [`MoveEvent`].
pub enum MoveEventView {
    Done,
    Failed(Seq<char>),
    Found(Seq<u32>),
}

impl View for MoveEvent {
    type V = MoveEventView;

    open spec fn view(&self) -> MoveEventView {
        match *self {
            MoveEvent::Done => MoveEventView::Done,
            MoveEvent::Failed(e) => MoveEventView::Failed(e@),
            MoveEvent::Found(uids) => MoveEventView::Found(uids@),
        }
    }
}

/// Where a message is after it was moved.
pub struct ImapMovedLocation {
    pub folder: String,
    pub uid: u32,
}

/// The view of an [`ImapMovedLocation`].
pub struct LocationView {
    pub folder: Seq<char>,
    pub uid: u32,
}

impl View for ImapMovedLocation {
    type V = LocationView;

    open spec fn view(&self) -> LocationView {
        LocationView { folder: self.folder@, uid: self.uid }
    }
}

/// The view of a location that may be unknown.
pub open spec fn opt_location(l: Option<ImapMovedLocation>) -> Option<LocationView> {
    match l {
        Some(l) => Some(l@),
        None => None,
    }
}

/// What is to be done next.
pub enum MoveAction {
    /// Select a folder.
    Select(String),
    /// Move the message to a folder.
    Move { uid: u32, target: String },
    /// Copy the message to a folder.
    Copy { uid: u32, target: String },
    /// Flag the message as deleted.
    FlagDeleted { uid: u32 },
    /// Take away what is flagged as deleted.
    Expunge { uid: u32 },
    /// Search the selected folder.
    Search(String),
    /// Nothing: the message is where it should be, at a place that is known or
    /// not.
    Finished(Option<ImapMovedLocation>),
    /// Nothing: the message is still where it was.
    Stopped(String),
}

/// The view of a [`MoveAction`].
pub enum MoveActionView {
    Select(Seq<char>),
    Move { uid: u32, target: Seq<char> },
    Copy { uid: u32, target: Seq<char> },
    FlagDeleted { uid: u32 },
    Expunge { uid: u32 },
    Search(Seq<char>),
    Finished(Option<LocationView>),
    Stopped(Seq<char>),
}

impl View for MoveAction {
    type V = MoveActionView;

    open spec fn view(&self) -> MoveActionView {
        match *self {
            MoveAction::Select(folder) => MoveActionView::Select(folder@),
            MoveAction::Move { uid, target } => MoveActionView::Move { uid, target: target@ },
            MoveAction::Copy { uid, target } => MoveActionView::Copy { uid, target: target@ },
            MoveAction::FlagDeleted { uid } => MoveActionView::FlagDeleted { uid },
            MoveAction::Expunge { uid } => MoveActionView::Expunge { uid },
            MoveAction::Search(query) => MoveActionView::Search(query@),
            MoveAction::Finished(location) => MoveActionView::Finished(opt_location(location)),
            MoveAction::Stopped(e) => MoveActionView::Stopped(e@),
        }
    }
}

// ---------------------------------------------------------------------------
// The state of a move
// ---------------------------------------------------------------------------
/// What becomes of a message that no target takes.
#[derive(Clone, Copy, PartialEq, Eq, Structural)]
pub enum Otherwise {
    /// It stays where it is.
    Stay,
    /// It goes away for good.
    Vanish,
}

/// What a move waits for.
#[derive(Clone, Copy, PartialEq, Eq, Structural)]
pub enum MoveWait {
    /// The folder of the message to be selected.
    Source,
    /// The message to be moved to the current target.
    Move,
    /// The message to be copied to the current target.
    Copy,
    /// The message to be flagged as deleted, after it was copied or not.
    Flag { copied: bool },
    /// What is flagged as deleted to be gone, after it was copied or not.
    Expunge { copied: bool },
    /// The current target to be selected.
    Target,
    /// What a search of the current target finds.
    Search,
    /// Nothing more.
    Over,
}

/// A move of a message.
pub struct ImapMove {
    uid: u32,
    targets: Vec<String>,
    otherwise: Otherwise,
    lookup: Option<String>,
    at: usize,
    wait: MoveWait,
}

/// The view of an [`ImapMove`].
pub struct MoveView {
    /// The message, in its folder.
    pub uid: u32,
    /// The folders that it may go to, the first that takes it.
    pub targets: Seq<Seq<char>>,
    /// What becomes of it where no target takes it.
    pub otherwise: Otherwise,
    /// The message id by which it is found again.
    pub lookup: Option<Seq<char>>,
    /// The target that is being tried, or that took it.
    pub at: int,
    pub wait: MoveWait,
}

impl View for ImapMove {
    type V = MoveView;

    closed spec fn view(&self) -> MoveView {
        MoveView {
            uid: self.uid,
            targets: texts(self.targets@),
            otherwise: self.otherwise,
            lookup: opt_text(self.lookup),
            at: self.at as int,
            wait: self.wait,
        }
    }
}

impl MoveView {
    /// A state that a move can be in.
    pub open spec fn wf(self) -> bool {
        &&& 0 <= self.at <= self.targets.len()
        &&& match self.wait {
            MoveWait::Move => self.at < self.targets.len(),
            MoveWait::Copy => self.at < self.targets.len(),
            MoveWait::Flag { copied } => if copied {
                self.at < self.targets.len()
            } else {
                self.at == self.targets.len() && self.otherwise == Otherwise::Vanish
            },
            MoveWait::Expunge { copied } => if copied {
                self.at < self.targets.len()
            } else {
                self.at == self.targets.len() && self.otherwise == Otherwise::Vanish
            },
            MoveWait::Target => self.at < self.targets.len() && self.lookup is Some,
            MoveWait::Search => self.at < self.targets.len() && self.lookup is Some,
            MoveWait::Source => true,
            MoveWait::Over => true,
        }
    }

    /// The end of the move.
    pub open spec fn finish(self, location: Option<LocationView>) -> (MoveView, MoveActionView) {
        (MoveView { wait: MoveWait::Over, ..self }, MoveActionView::Finished(location))
    }

    /// The end of the move where the server refused what has to be.
    pub open spec fn stop(self, e: Seq<char>) -> (MoveView, MoveActionView) {
        (MoveView { wait: MoveWait::Over, ..self }, MoveActionView::Stopped(e))
    }

    /// The current target is tried; behind the last one the message stays or
    /// vanishes.
    pub open spec fn try_target(self) -> (MoveView, MoveActionView) {
        if self.at < self.targets.len() {
            (
                MoveView { wait: MoveWait::Move, ..self },
                MoveActionView::Move { uid: self.uid, target: self.targets[self.at] },
            )
        } else if self.otherwise == Otherwise::Vanish {
            (
                MoveView { wait: MoveWait::Flag { copied: false }, ..self },
                MoveActionView::FlagDeleted { uid: self.uid },
            )
        } else {
            self.finish(None)
        }
    }

    /// The message is in the current target; it is looked up where its message id
    /// is known.
    pub open spec fn look_up(self) -> (MoveView, MoveActionView) {
        match self.lookup {
            Some(_) => (
                MoveView { wait: MoveWait::Target, ..self },
                MoveActionView::Select(self.targets[self.at]),
            ),
            None => self.finish(None),
        }
    }

    /// The event is one that the move waits for.
    pub open spec fn expects(self, event: MoveEventView) -> bool {
        match (self.wait, event) {
            (MoveWait::Over, _) => false,
            (MoveWait::Search, MoveEventView::Done) => false,
            (MoveWait::Search, _) => true,
            (_, MoveEventView::Found(_)) => false,
            _ => true,
        }
    }

    /// The state behind an event that the move waits for, and what is to be done
    /// then.
    pub open spec fn after(self, event: MoveEventView) -> (MoveView, MoveActionView) {
        match (self.wait, event) {
            (MoveWait::Source, MoveEventView::Done) => self.try_target(),
            (MoveWait::Source, MoveEventView::Failed(e)) => self.stop(e),
            (MoveWait::Move, MoveEventView::Done) => self.look_up(),
            // A server that cannot move may still copy.
            (MoveWait::Move, MoveEventView::Failed(_)) => (
                MoveView { wait: MoveWait::Copy, ..self },
                MoveActionView::Copy { uid: self.uid, target: self.targets[self.at] },
            ),
            (MoveWait::Copy, MoveEventView::Done) => (
                MoveView { wait: MoveWait::Flag { copied: true }, ..self },
                MoveActionView::FlagDeleted { uid: self.uid },
            ),
            (MoveWait::Copy, MoveEventView::Failed(_)) => MoveView {
                at: self.at + 1,
                ..self
            }.try_target(),
            (MoveWait::Flag { copied }, MoveEventView::Done) => (
                MoveView { wait: MoveWait::Expunge { copied }, ..self },
                MoveActionView::Expunge { uid: self.uid },
            ),
            (MoveWait::Flag { .. }, MoveEventView::Failed(e)) => self.stop(e),
            // What is flagged goes sooner or later, so a refusal does not matter.
            (MoveWait::Expunge { copied }, _) => if copied {
                self.look_up()
            } else {
                self.finish(None)
            },
            (MoveWait::Target, MoveEventView::Done) => match self.lookup {
                Some(id) => (
                    MoveView { wait: MoveWait::Search, ..self },
                    MoveActionView::Search(id_search(id)),
                ),
                None => self.finish(None),
            },
            (MoveWait::Target, MoveEventView::Failed(_)) => self.finish(None),
            (MoveWait::Search, MoveEventView::Found(uids)) => self.finish(
                match newest(uids) {
                    Some(uid) => Some(LocationView { folder: self.targets[self.at], uid }),
                    None => None,
                },
            ),
            (MoveWait::Search, MoveEventView::Failed(_)) => self.finish(None),
            _ => (self, MoveActionView::Finished(None)),
        }
    }
}

/// The message id by which a message is found again: the one that is stored, or
/// the one in its name.
pub open spec fn lookup_id(name: Seq<char>, header_id: Seq<char>) -> Option<Seq<char>> {
    if !blank(header_id) {
        Some(header_id)
    } else {
        match provider_parts(name) {
            Some((_, _, id)) => id,
            None => None,
        }
    }
}

/// The start of a move of the message with a name, or an error where the name is
/// none of a message on an IMAP server.
pub open spec fn fresh_move(
    name: Seq<char>,
    header_id: Seq<char>,
    targets: Seq<Seq<char>>,
    otherwise: Otherwise,
) -> Result<(MoveView, MoveActionView), Seq<char>> {
    match provider_parts(name) {
        Some((folder, uid, _)) => Ok(
            (
                MoveView {
                    uid,
                    targets,
                    otherwise,
                    lookup: lookup_id(name, header_id),
                    at: 0,
                    wait: MoveWait::Source,
                },
                MoveActionView::Select(folder),
            ),
        ),
        None => Err(no_uid_error()),
    }
}

/// The view of the start of a move.
pub open spec fn move_result(r: Result<(ImapMove, MoveAction), String>) -> Result<
    (MoveView, MoveActionView),
    Seq<char>,
> {
    match r {
        Ok((m, action)) => Ok((m@, action@)),
        Err(e) => Err(e@),
    }
}

/// The folders that a server may call its trash.
pub open spec fn trash_folders() -> Seq<Seq<char>> {
    seq!["Trash"@, "Deleted Items"@, "[Gmail]/Trash"@]
}

/// The folders that a server may call its archive.
pub open spec fn archive_folders() -> Seq<Seq<char>> {
    seq!["Archive"@, "Archives"@]
}

/// The names of the folders that a server may call its archive.
pub fn archive_targets() -> (r: Vec<String>)
    ensures
        texts(r@) == archive_folders(),
{
    let mut r: Vec<String> = Vec::new();
    r.push("Archive".to_owned());
    r.push("Archives".to_owned());
    assert(texts(r@) =~= archive_folders());
    r
}

/// The command that flags a message as deleted.
pub fn flag_deleted_command() -> (r: &'static str)
    ensures
        r@ == "+FLAGS.SILENT (\\Deleted)"@,
{
    "+FLAGS.SILENT (\\Deleted)"
}

/// Starts a move of a message to the first of some folders that takes it. Where
/// none does, the message stays.
pub fn move_imap_message_to_folder(
    provider_message_id: &str,
    target_folders: Vec<String>,
    message_header_id: &str,
) -> (r: Result<(ImapMove, MoveAction), String>)
    ensures
        move_result(r) == fresh_move(
            provider_message_id@,
            message_header_id@,
            texts(target_folders@),
            Otherwise::Stay,
        ),
        r is Ok ==> r->Ok_0.0@.wf(),
{
    start_move(provider_message_id, target_folders, message_header_id, Otherwise::Stay)
}

/// Starts the deletion of a message: for good, or into the first folder that the
/// server calls its trash. Where there is none, the message goes for good.
pub fn delete_imap_message(
    provider_message_id: &str,
    permanent: bool,
    message_header_id: &str,
) -> (r: Result<(ImapMove, MoveAction), String>)
    ensures
        move_result(r) == fresh_move(
            provider_message_id@,
            message_header_id@,
            if permanent {
                Seq::empty()
            } else {
                trash_folders()
            },
            Otherwise::Vanish,
        ),
        r is Ok ==> r->Ok_0.0@.wf(),
{
    let mut targets: Vec<String> = Vec::new();
    if !permanent {
        targets.push("Trash".to_owned());
        targets.push("Deleted Items".to_owned());
        targets.push("[Gmail]/Trash".to_owned());
        assert(texts(targets@) =~= trash_folders());
    } else {
        assert(texts(targets@) =~= Seq::<Seq<char>>::empty());
    }
    start_move(provider_message_id, targets, message_header_id, Otherwise::Vanish)
}

/// Computes [`fresh_move`].
fn start_move(
    provider_message_id: &str,
    targets: Vec<String>,
    message_header_id: &str,
    otherwise: Otherwise,
) -> (r: Result<(ImapMove, MoveAction), String>)
    ensures
        move_result(r) == fresh_move(
            provider_message_id@,
            message_header_id@,
            texts(targets@),
            otherwise,
        ),
        r is Ok ==> r->Ok_0.0@.wf(),
{
    match parse_imap_provider_message_id(provider_message_id) {
        Ok((folder, uid, id)) => {
            let lookup = match nonempty(message_header_id) {
                Some(id) => Some(id.to_owned()),
                None => match id {
                    Some(id) => Some(id.to_owned()),
                    None => None,
                },
            };
            let m = ImapMove {
                uid,
                targets,
                otherwise,
                lookup,
                at: 0,
                wait: MoveWait::Source,
            };
            Ok((m, MoveAction::Select(folder)))
        },
        Err(e) => Err(e),
    }
}

impl ImapMove {
    /// The message id by which the message is found again.
    pub fn lookup(&self) -> (r: Option<String>)
        ensures
            opt_text(r) == self@.lookup,
    {
        match &self.lookup {
            Some(id) => Some(copy(id)),
            None => None,
        }
    }

    /// The current target.
    fn target(&self) -> (r: String)
        requires
            self@.at < self@.targets.len(),
        ensures
            r@ == self@.targets[self@.at],
    {
        copy(&self.targets[self.at])
    }

    /// Computes [`MoveView::try_target`].
    fn try_target(&mut self) -> (r: MoveAction)
        requires
            old(self)@.at <= old(self)@.targets.len(),
        ensures
            (final(self)@, r@) == old(self)@.try_target(),
    {
        if self.at < self.targets.len() {
            self.wait = MoveWait::Move;
            MoveAction::Move { uid: self.uid, target: self.target() }
        } else if self.otherwise == Otherwise::Vanish {
            self.wait = MoveWait::Flag { copied: false };
            MoveAction::FlagDeleted { uid: self.uid }
        } else {
            self.wait = MoveWait::Over;
            MoveAction::Finished(None)
        }
    }

    /// Computes [`MoveView::look_up`].
    fn look_up(&mut self) -> (r: MoveAction)
        requires
            old(self)@.at < old(self)@.targets.len(),
        ensures
            (final(self)@, r@) == old(self)@.look_up(),
    {
        if self.lookup.is_some() {
            self.wait = MoveWait::Target;
            MoveAction::Select(self.target())
        } else {
            self.wait = MoveWait::Over;
            MoveAction::Finished(None)
        }
    }

    /// The end of the move.
    fn finish(&mut self, location: Option<ImapMovedLocation>) -> (r: MoveAction)
        ensures
            (final(self)@, r@) == old(self)@.finish(opt_location(location)),
    {
        self.wait = MoveWait::Over;
        MoveAction::Finished(location)
    }

    /// The end of the move where the server refused what has to be.
    fn stop(&mut self, e: String) -> (r: MoveAction)
        ensures
            (final(self)@, r@) == old(self)@.stop(e@),
    {
        self.wait = MoveWait::Over;
        MoveAction::Stopped(e)
    }

    /// Tells the move what happened. It says what is to be done next; an event
    /// that it does not wait for it ignores.
    pub fn step(&mut self, event: MoveEvent) -> (r: Option<MoveAction>)
        requires
            old(self)@.wf(),
        ensures
            final(self)@.wf(),
            match r {
                Some(action) => old(self)@.expects(event@) && (final(self)@, action@) == old(
                    self,
                )@.after(event@),
                None => !old(self)@.expects(event@) && final(self)@ == old(self)@,
            },
    {
        let action = match (self.wait, event) {
            (MoveWait::Source, MoveEvent::Done) => self.try_target(),
            (MoveWait::Source, MoveEvent::Failed(e)) => self.stop(e),
            (MoveWait::Move, MoveEvent::Done) => self.look_up(),
            (MoveWait::Move, MoveEvent::Failed(_)) => {
                self.wait = MoveWait::Copy;
                MoveAction::Copy { uid: self.uid, target: self.target() }
            },
            (MoveWait::Copy, MoveEvent::Done) => {
                self.wait = MoveWait::Flag { copied: true };
                MoveAction::FlagDeleted { uid: self.uid }
            },
            (MoveWait::Copy, MoveEvent::Failed(_)) => {
                assert(self.at < self.targets.len());
                self.at = self.at + 1;
                self.try_target()
            },
            (MoveWait::Flag { copied }, MoveEvent::Done) => {
                self.wait = MoveWait::Expunge { copied };
                MoveAction::Expunge { uid: self.uid }
            },
            (MoveWait::Flag { .. }, MoveEvent::Failed(e)) => self.stop(e),
            (MoveWait::Expunge { copied }, MoveEvent::Done) => if copied {
                self.look_up()
            } else {
                self.finish(None)
            },
            (MoveWait::Expunge { copied }, MoveEvent::Failed(_)) => if copied {
                self.look_up()
            } else {
                self.finish(None)
            },
            (MoveWait::Target, MoveEvent::Done) => {
                let query = match &self.lookup {
                    Some(id) => message_id_search(id.as_str()),
                    None => {
                        return None;
                    },
                };
                self.wait = MoveWait::Search;
                MoveAction::Search(query)
            },
            (MoveWait::Target, MoveEvent::Failed(_)) => self.finish(None),
            (MoveWait::Search, MoveEvent::Found(uids)) => {
                let location = match newest_uid(&uids) {
                    Some(uid) => Some(ImapMovedLocation { folder: self.target(), uid }),
                    None => None,
                };
                self.finish(location)
            },
            (MoveWait::Search, MoveEvent::Failed(_)) => self.finish(None),
            _ => {
                return None;
            },
        };
        Some(action)
    }
}

// ---------------------------------------------------------------------------
// Laws
// ---------------------------------------------------------------------------
/// How far a move is from its end: how many targets are left, and which step of a
/// target it is at.
pub open spec fn steps_left(m: MoveView) -> int {
    match m.wait {
        MoveWait::Source => 2 * (m.targets.len() - m.at) + 8,
        MoveWait::Move => 2 * (m.targets.len() - m.at) + 6,
        MoveWait::Copy => 2 * (m.targets.len() - m.at) + 5,
        MoveWait::Flag { .. } => 4,
        MoveWait::Expunge { .. } => 3,
        MoveWait::Target => 2,
        MoveWait::Search => 1,
        MoveWait::Over => 0,
    }
}

/// Law: whatever the server answers, a move comes to an end.
pub proof fn move_comes_to_an_end(m: MoveView, event: MoveEventView)
    requires
        m.wf(),
        m.expects(event),
    ensures
        m.after(event).0.wf(),
        0 <= steps_left(m.after(event).0) < steps_left(m),
        m.after(event).1 is Finished || m.after(event).1 is Stopped <==> m.after(event).0.wait
            == MoveWait::Over,
{
}

/// Law: a message that is to be moved is flagged as deleted only once a copy of
/// it is in the target; and it is never flagged where the server moved it.
pub proof fn no_message_is_lost(m: MoveView, event: MoveEventView)
    requires
        m.wf(),
        m.expects(event),
        m.otherwise == Otherwise::Stay,
        m.after(event).1 is FlagDeleted,
    ensures
        m.wait == MoveWait::Copy,
        event is Done,
{
}

/// Law: where a message is said to be, a search for its message id found it in one
/// of the targets.
pub proof fn reported_place_was_found(m: MoveView, event: MoveEventView)
    requires
        m.wf(),
        m.expects(event),
        m.after(event).1 matches MoveActionView::Finished(l) && l is Some,
    ensures
        ({
            let l = m.after(event).1->Finished_0->Some_0;
            &&& m.wait == MoveWait::Search
            &&& m.targets.contains(l.folder)
            &&& event is Found
            &&& event->Found_0.contains(l.uid)
        }),
{
    crate::imap_id::lemma_newest(event->Found_0);
}

/// Law: a message that is deleted for good is neither moved nor copied.
pub proof fn permanent_deletion_moves_nothing(m: MoveView, event: MoveEventView)
    requires
        m.wf(),
        m.expects(event),
        m.targets.len() == 0,
    ensures
        !(m.after(event).1 is Move),
        !(m.after(event).1 is Copy),
        m.after(event).0.targets == m.targets,
{
}

/// Law: whatever a move asks for concerns its own message and the target that it is
/// at, and it is found again by its own message id.
pub proof fn a_move_asks_about_its_message(m: MoveView, event: MoveEventView)
    requires
        m.wf(),
        m.expects(event),
    ensures
        ({
            let (next, action) = m.after(event);
            &&& next.uid == m.uid && next.targets == m.targets && next.otherwise == m.otherwise
                && next.lookup == m.lookup
            &&& action matches MoveActionView::Move { uid, target } ==> uid == m.uid && target
                == m.targets[next.at]
            &&& action matches MoveActionView::Copy { uid, target } ==> uid == m.uid && target
                == m.targets[next.at]
            &&& action matches MoveActionView::FlagDeleted { uid } ==> uid == m.uid
            &&& action matches MoveActionView::Expunge { uid } ==> uid == m.uid
            &&& action matches MoveActionView::Select(folder) ==> folder == m.targets[next.at]
            &&& action matches MoveActionView::Search(query) ==> m.lookup is Some && query
                == id_search(m.lookup->Some_0)
            &&& action matches MoveActionView::Stopped(e) ==> event == MoveEventView::Failed(e)
        }),
{
}

/// Law: the targets are tried in order and none is passed over: each is asked to take
/// the message, first by a move and then by a copy, before the next one is tried.
pub proof fn targets_are_tried_in_order(m: MoveView, event: MoveEventView)
    requires
        m.wf(),
        m.expects(event),
    ensures
        ({
            let (next, action) = m.after(event);
            &&& next.at == m.at || next.at == m.at + 1
            &&& next.at == m.at + 1 <==> m.wait == MoveWait::Copy && event is Failed
            &&& m.wait == MoveWait::Source && event is Done && m.at < m.targets.len() ==> action
                is Move
            &&& m.wait == MoveWait::Move && event is Failed ==> action is Copy
            &&& m.wait == MoveWait::Copy && event is Failed && m.at + 1 < m.targets.len()
                ==> action is Move
            &&& action is Move ==> next.wait == MoveWait::Move
            &&& action is Copy ==> next.wait == MoveWait::Copy
        }),
{
}

/// Law: a message that no target takes stays where it is, or goes for good, as was
/// said; one that was copied goes from where it was.
pub proof fn messages_end_up_where_they_should(m: MoveView, event: MoveEventView)
    requires
        m.wf(),
        m.expects(event),
    ensures
        ({
            let action = m.after(event).1;
            let rejected = m.wait == MoveWait::Copy && event is Failed && m.at + 1
                == m.targets.len() || m.wait == MoveWait::Source && event is Done && m.at
                == m.targets.len();
            &&& rejected && m.otherwise == Otherwise::Stay ==> action == MoveActionView::Finished(
                None,
            )
            &&& rejected && m.otherwise == Otherwise::Vanish ==> action is FlagDeleted
            &&& m.wait == MoveWait::Copy && event is Done ==> action is FlagDeleted
            &&& m.wait is Flag && event is Done ==> action is Expunge
            &&& m.wait is Flag && event is Failed ==> action is Stopped
            &&& m.wait == MoveWait::Source && event is Failed ==> action is Stopped
            &&& action is FlagDeleted ==> rejected || m.wait == MoveWait::Copy && event is Done
        }),
{
}

/// Law: a message that was moved is looked for in its target, where its message id is
/// known, and of all that are found the newest is the one that was moved.
pub proof fn moved_messages_are_looked_for(m: MoveView, event: MoveEventView)
    requires
        m.wf(),
        m.expects(event),
    ensures
        ({
            let action = m.after(event).1;
            let moved = m.wait == MoveWait::Move && event is Done || m.wait == (
            MoveWait::Expunge { copied: true });
            &&& moved && m.lookup is Some ==> action == MoveActionView::Select(m.targets[m.at])
            &&& moved && m.lookup is None ==> action == MoveActionView::Finished(None)
            &&& m.wait == MoveWait::Target && event is Done ==> action is Search
            &&& (event is Found && (event->Found_0).len() > 0) ==> {
                &&& action is Finished && action->Finished_0 is Some
                &&& action->Finished_0->Some_0.folder == m.targets[m.at]
                &&& event->Found_0.contains(action->Finished_0->Some_0.uid)
                &&& forall|i: int|
                    0 <= i < event->Found_0.len() ==> #[trigger] event->Found_0[i]
                        <= action->Finished_0->Some_0.uid
            }
            &&& m.wait == (MoveWait::Expunge { copied: false }) ==> action
                == MoveActionView::Finished(None)
        }),
{
    if event is Found {
        lemma_newest(event->Found_0);
    }
}

/// Law: a move waits for an answer to what it asked, and for nothing once it is over.
pub proof fn a_move_waits_for_an_answer(m: MoveView, event: MoveEventView)
    requires
        m.wf(),
        m.expects(event),
    ensures
        ({
            let (next, action) = m.after(event);
            let over = action is Finished || action is Stopped;
            &&& !over ==> forall|e: Seq<char>| #[trigger] next.expects(MoveEventView::Failed(e))
            &&& !over && !(action is Search) ==> next.expects(MoveEventView::Done)
            &&& action is Search ==> forall|uids: Seq<u32>| #[trigger]
                next.expects(MoveEventView::Found(uids))
            &&& over ==> forall|e: MoveEventView| !(#[trigger] next.expects(e))
        }),
{
}

/// Law: a move starts in the folder that the name of the message holds, with the uid
/// that it has there, and with the message id that is stored, or else with the one in
/// the name. A colon in the folder ends the folder early, so such folders are left
/// out.
pub proof fn moves_start_where_the_message_is(
    folder: Seq<char>,
    uid: u32,
    id: Option<Seq<char>>,
    header_id: Seq<char>,
    targets: Seq<Seq<char>>,
    otherwise: Otherwise,
)
    requires
        lacks(folder, ':'),
    ensures
        ({
            let r = fresh_move(provider_id(folder, uid, id), header_id, targets, otherwise);
            let m = r->Ok_0.0;
            &&& r is Ok
            &&& r->Ok_0.1 == MoveActionView::Select(folder)
            &&& m.uid == uid && m.targets == targets && m.otherwise == otherwise
            &&& m.at == 0 && m.wait == MoveWait::Source
            &&& !blank(header_id) ==> m.lookup == Some(header_id)
            &&& blank(header_id) && id is Some && !blank(id->Some_0) ==> m.lookup == Some(
                trim(id->Some_0),
            )
            &&& blank(header_id) && (id is None || blank(id->Some_0)) ==> m.lookup is None
        }),
{
    names_are_read_back(folder, uid, id);
}

/// Law: what is deleted goes where trash is looked for, and what is archived goes
/// where the archive is looked for.
pub proof fn folders_are_found_again()
    ensures
        trash_folders() == sync_plan().roles[2].folders && sync_plan().roles[2].role == "Trash"@,
        archive_folders() == sync_plan().roles[3].folders && sync_plan().roles[3].role
            == "Archive"@,
{
}

} // verus!
