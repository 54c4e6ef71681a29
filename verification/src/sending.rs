//! Sending a mail: over which service it goes, where a copy of it is put, and
//! that it is stored once it is sent.
//!
//! A dispatch does no input or output itself. It says what is to be done next, is
//! told what came of it, and goes on from there.
use vstd::prelude::*;

use crate::imap_scan::sync_plan;
use crate::text::{copy_opt, opt_text, same};

verus! {

// ---------------------------------------------------------------------------
// What is told and what is asked
// ---------------------------------------------------------------------------
/// What a dispatch is told.
pub enum SendEvent {
    /// What was to be done is done.
    Done,
    /// It could not be done.
    Failed(String),
    /// There is no connection over which a copy could be put anywhere.
    Offline(String),
}

/// The view of a [`SendEvent`].
pub enum SendEventView {
    Done,
    Failed(Seq<char>),
    Offline(Seq<char>),
}

impl View for SendEvent {
    type V = SendEventView;

    open spec fn view(&self) -> SendEventView {
        match *self {
            SendEvent::Done => SendEventView::Done,
            SendEvent::Failed(e) => SendEventView::Failed(e@),
            SendEvent::Offline(e) => SendEventView::Offline(e@),
        }
    }
}

/// What is to be done next.
pub enum SendAction {
    /// Hand the mail to Gmail, which keeps a copy by itself.
    Gmail,
    /// Hand the mail to the SMTP server.
    Smtp,
    /// Put a copy into a folder on the IMAP server.
    Append(&'static str),
    /// Store the message.
    Store,
    /// Nothing: the mail was not sent.
    Stopped(String),
}

/// The view of a [`SendAction`].
pub enum SendActionView {
    Gmail,
    Smtp,
    Append(Seq<char>),
    Store,
    Stopped(Seq<char>),
}

impl View for SendAction {
    type V = SendActionView;

    open spec fn view(&self) -> SendActionView {
        match *self {
            SendAction::Gmail => SendActionView::Gmail,
            SendAction::Smtp => SendActionView::Smtp,
            SendAction::Append(folder) => SendActionView::Append(folder@),
            SendAction::Store => SendActionView::Store,
            SendAction::Stopped(e) => SendActionView::Stopped(e@),
        }
    }
}

// ---------------------------------------------------------------------------
// The state of a dispatch
// ---------------------------------------------------------------------------
/// The folders that a server may keep sent mail in, in the order in which they
/// are tried.
pub open spec fn sent_folders() -> Seq<Seq<char>> {
    seq!["Sent"@, "Sent Items"@, "[Gmail]/Sent Mail"@]
}

/// What a dispatch waits for.
#[derive(Clone, Copy, PartialEq, Eq, Structural)]
pub enum SendWait {
    Gmail,
    Smtp,
    /// A copy to be in the folder with this index.
    Append(usize),
    Over,
}

/// The sending of a mail.
pub struct Dispatch {
    wait: SendWait,
    copied_to: Option<&'static str>,
    copy_error: Option<String>,
}

/// The view of a [`Dispatch`].
pub struct DispatchView {
    pub wait: SendWait,
    /// The folder that a copy is in.
    pub copied_to: Option<Seq<char>>,
    /// Why no copy could be put anywhere.
    pub copy_error: Option<Seq<char>>,
}

/// The view of a text that may be missing.
pub open spec fn opt_static(o: Option<&'static str>) -> Option<Seq<char>> {
    match o {
        Some(s) => Some(s@),
        None => None,
    }
}

impl View for Dispatch {
    type V = DispatchView;

    closed spec fn view(&self) -> DispatchView {
        DispatchView {
            wait: self.wait,
            copied_to: opt_static(self.copied_to),
            copy_error: opt_text(self.copy_error),
        }
    }
}

/// The start of the sending of a mail from an account with some provider.
pub open spec fn fresh_dispatch(provider: Seq<char>) -> (DispatchView, SendActionView) {
    if provider == "gmail"@ {
        (
            DispatchView { wait: SendWait::Gmail, copied_to: None, copy_error: None },
            SendActionView::Gmail,
        )
    } else {
        (
            DispatchView { wait: SendWait::Smtp, copied_to: None, copy_error: None },
            SendActionView::Smtp,
        )
    }
}

impl DispatchView {
    /// A state that a dispatch can be in.
    pub open spec fn wf(self) -> bool {
        self.wait matches SendWait::Append(i) ==> i < sent_folders().len()
    }

    /// The mail is sent, and the message is stored.
    pub open spec fn store(self) -> (DispatchView, SendActionView) {
        (DispatchView { wait: SendWait::Over, ..self }, SendActionView::Store)
    }

    /// The event is one that the dispatch waits for.
    pub open spec fn expects(self, event: SendEventView) -> bool {
        match (self.wait, event) {
            (SendWait::Over, _) => false,
            (SendWait::Append(_), _) => true,
            (_, SendEventView::Offline(_)) => false,
            _ => true,
        }
    }

    /// The state behind an event that the dispatch waits for, and what is to be
    /// done then.
    pub open spec fn after(self, event: SendEventView) -> (DispatchView, SendActionView) {
        match (self.wait, event) {
            (SendWait::Gmail, SendEventView::Done) => self.store(),
            (SendWait::Smtp, SendEventView::Done) => (
                DispatchView { wait: SendWait::Append(0), ..self },
                SendActionView::Append(sent_folders()[0]),
            ),
            (SendWait::Append(i), SendEventView::Done) => DispatchView {
                copied_to: Some(sent_folders()[i as int]),
                copy_error: None,
                ..self
            }.store(),
            // The next folder may take the copy.
            (SendWait::Append(i), SendEventView::Failed(e)) => {
                let next = DispatchView { copy_error: Some(e), ..self };
                if i + 1 < sent_folders().len() {
                    (
                        DispatchView { wait: SendWait::Append((i + 1) as usize), ..next },
                        SendActionView::Append(sent_folders()[i + 1]),
                    )
                } else {
                    next.store()
                }
            },
            (SendWait::Append(_), SendEventView::Offline(e)) => DispatchView {
                copy_error: Some(e),
                ..self
            }.store(),
            // A mail that was not sent is not stored.
            (_, SendEventView::Failed(e)) => (
                DispatchView { wait: SendWait::Over, ..self },
                SendActionView::Stopped(e),
            ),
            _ => (self, SendActionView::Store),
        }
    }
}

/// The name of the folder with an index.
fn sent_folder(i: usize) -> (r: &'static str)
    requires
        i < sent_folders().len(),
    ensures
        r@ == sent_folders()[i as int],
{
    if i == 0 {
        "Sent"
    } else if i == 1 {
        "Sent Items"
    } else {
        "[Gmail]/Sent Mail"
    }
}

impl Dispatch {
    /// Starts the sending of a mail from an account with some provider.
    pub fn start(provider: &str) -> (r: (Dispatch, SendAction))
        ensures
            (r.0@, r.1@) == fresh_dispatch(provider@),
            r.0@.wf(),
    {
        if same(provider, "gmail") {
            (
                Dispatch { wait: SendWait::Gmail, copied_to: None, copy_error: None },
                SendAction::Gmail,
            )
        } else {
            (
                Dispatch { wait: SendWait::Smtp, copied_to: None, copy_error: None },
                SendAction::Smtp,
            )
        }
    }

    /// The folder that a copy is in.
    pub fn copied_to(&self) -> (r: Option<&'static str>)
        ensures
            opt_static(r) == self@.copied_to,
    {
        self.copied_to
    }

    /// Why no copy could be put anywhere.
    pub fn copy_error(&self) -> (r: Option<String>)
        ensures
            opt_text(r) == self@.copy_error,
    {
        copy_opt(&self.copy_error)
    }

    /// Tells the dispatch what happened. It says what is to be done next; an event
    /// that it does not wait for it ignores.
    pub fn step(&mut self, event: SendEvent) -> (r: Option<SendAction>)
        requires
            old(self)@.wf(),
        ensures
            final(self)@.wf(),
            match r {
                Some(action) => old(self)@.expects(event@) && (final(self)@, action@) == old(
                    self,
                )@.after(event@),
                None => !old(self)@.expects(event@) && final(self)@ == old(self)@,
            },
    {
        match (self.wait, event) {
            (SendWait::Gmail, SendEvent::Done) => {
                self.wait = SendWait::Over;
                Some(SendAction::Store)
            },
            (SendWait::Smtp, SendEvent::Done) => {
                self.wait = SendWait::Append(0);
                Some(SendAction::Append(sent_folder(0)))
            },
            (SendWait::Append(i), SendEvent::Done) => {
                self.copied_to = Some(sent_folder(i));
                self.copy_error = None;
                self.wait = SendWait::Over;
                Some(SendAction::Store)
            },
            (SendWait::Append(i), SendEvent::Failed(e)) => {
                self.copy_error = Some(e);
                if i < 2 {
                    self.wait = SendWait::Append(i + 1);
                    Some(SendAction::Append(sent_folder(i + 1)))
                } else {
                    self.wait = SendWait::Over;
                    Some(SendAction::Store)
                }
            },
            (SendWait::Append(_), SendEvent::Offline(e)) => {
                self.copy_error = Some(e);
                self.wait = SendWait::Over;
                Some(SendAction::Store)
            },
            (SendWait::Gmail, SendEvent::Failed(e)) => {
                self.wait = SendWait::Over;
                Some(SendAction::Stopped(e))
            },
            (SendWait::Smtp, SendEvent::Failed(e)) => {
                self.wait = SendWait::Over;
                Some(SendAction::Stopped(e))
            },
            _ => None,
        }
    }
}

// ---------------------------------------------------------------------------
// Laws
// ---------------------------------------------------------------------------
/// How far a dispatch is from its end.
pub open spec fn sends_left(d: DispatchView) -> int {
    match d.wait {
        SendWait::Gmail => 1,
        SendWait::Smtp => sent_folders().len() as int + 1,
        SendWait::Append(i) => sent_folders().len() - i,
        SendWait::Over => 0,
    }
}

/// Law: whatever happens, a dispatch comes to an end, and it ends by storing the
/// message or by an error.
pub proof fn dispatch_comes_to_an_end(d: DispatchView, event: SendEventView)
    requires
        d.wf(),
        d.expects(event),
    ensures
        d.after(event).0.wf(),
        0 <= sends_left(d.after(event).0) < sends_left(d),
        d.after(event).0.wait == SendWait::Over <==> (d.after(event).1 is Store || d.after(
            event,
        ).1 is Stopped),
{
}

/// Law: a mail that was sent is stored whatever becomes of its copy, and a mail
/// that was not sent is not stored.
pub proof fn what_is_sent_is_stored(d: DispatchView, event: SendEventView)
    requires
        d.wf(),
        d.expects(event),
    ensures
        d.wait is Append ==> !(d.after(event).1 is Stopped),
        (d.wait == SendWait::Gmail || d.wait == SendWait::Smtp) && event is Failed ==> d.after(
            event,
        ).1 is Stopped,
        (d.wait == SendWait::Gmail || d.wait == SendWait::Smtp) && event is Done ==> !(d.after(
            event,
        ).1 is Stopped),
{
}

/// Law: a mail is handed over once. A dispatch that waits for a copy never asks
/// for the mail to be sent again.
pub proof fn mail_is_sent_once(d: DispatchView, event: SendEventView)
    requires
        d.wf(),
        d.expects(event),
    ensures
        !(d.after(event).1 is Gmail),
        !(d.after(event).1 is Smtp),
{
}

/// Law: a mail goes over the service of its account. Gmail keeps a copy by itself;
/// behind an SMTP server a copy goes to the folder for sent mail, the one that a sync
/// looks at.
pub proof fn mail_goes_over_the_service_of_its_account(provider: Seq<char>)
    ensures
        fresh_dispatch("gmail"@).1 is Gmail,
        fresh_dispatch("gmail"@).0.after(SendEventView::Done).1 is Store,
        provider != "gmail"@ ==> fresh_dispatch(provider).1 is Smtp && fresh_dispatch(
            provider,
        ).0.after(SendEventView::Done).1 == SendActionView::Append("Sent"@),
        fresh_dispatch(provider).0.copied_to is None,
        fresh_dispatch(provider).0.copy_error is None,
        sent_folders() == sync_plan().roles[1].folders && sync_plan().roles[1].role == "Sent"@,
{
}

/// Law: the folders are tried in order until one takes the copy. Then the copy is in
/// that folder and there is no error; where none takes it, or where there is no
/// connection, the last error is kept, and the copy is nowhere.
pub proof fn copies_go_to_the_first_folder_that_takes_them(d: DispatchView, event: SendEventView)
    requires
        d.wf(),
        d.wait is Append,
    ensures
        ({
            let (next, action) = d.after(event);
            let i = d.wait->Append_0;
            &&& event is Done ==> action is Store && next.copied_to == Some(
                sent_folders()[i as int],
            ) && next.copy_error is None
            &&& event matches SendEventView::Failed(e) ==> next.copy_error == Some(e)
                && next.copied_to == d.copied_to
            &&& event is Failed && i + 1 < sent_folders().len() ==> action
                == SendActionView::Append(sent_folders()[i + 1]) && next.wait == SendWait::Append(
                (i + 1) as usize,
            )
            &&& event is Failed && i + 1 == sent_folders().len() ==> action is Store
            &&& event matches SendEventView::Offline(e) ==> action is Store && next.copy_error
                == Some(e) && next.copied_to == d.copied_to
        }),
{
}

/// Law: a dispatch waits for what it asked for, and for nothing once it is over; and
/// why a mail was not sent is what the service said.
pub proof fn a_dispatch_waits_for_what_it_asked_for(d: DispatchView, event: SendEventView)
    requires
        d.wf(),
        d.expects(event),
    ensures
        ({
            let (next, action) = d.after(event);
            &&& action is Append ==> forall|e: SendEventView| #[trigger] next.expects(e)
            &&& action is Store || action is Stopped ==> forall|e: SendEventView| !(
            #[trigger] next.expects(e))
            &&& action matches SendActionView::Stopped(e) ==> event == SendEventView::Failed(e)
        }),
        forall|provider: Seq<char>| (#[trigger] fresh_dispatch(provider)).0.expects(SendEventView::Done),
        forall|provider: Seq<char>, e: Seq<char>| (#[trigger] fresh_dispatch(provider)).0.expects(
            #[trigger] failed_with(e),
        ),
{
}

/// What could not be done, and why.
pub open spec fn failed_with(e: Seq<char>) -> SendEventView {
    SendEventView::Failed(e)
}

} // verus!
