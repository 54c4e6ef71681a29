//! Deleting the secrets of an account from the credential store.
//!
//! A deletion does no input or output itself. It says which secret is to be deleted
//! next, is told what came of it, and goes on from there.
use vstd::prelude::*;

use crate::account::{
    account_secret_entry_error, delete_account_secret, delete_account_secrets, named_texts,
    secrets_of, store_without, SecretError,
};
use crate::text::copy;

verus! {

// ---------------------------------------------------------------------------
// What is told and what is asked
// ---------------------------------------------------------------------------
/// What a deletion is told.
pub enum DeletionEvent {
    /// The credential store could not be opened.
    Unopened(String),
    /// The store was asked to delete the secret.
    Asked(Result<(), SecretError>),
}

/// The view of a [`DeletionEvent`].
pub enum DeletionEventView {
    Unopened(Seq<char>),
    Deleted,
    Missing,
    Failed(Seq<char>),
}

impl View for DeletionEvent {
    type V = DeletionEventView;

    open spec fn view(&self) -> DeletionEventView {
        match *self {
            DeletionEvent::Unopened(e) => DeletionEventView::Unopened(e@),
            DeletionEvent::Asked(Ok(())) => DeletionEventView::Deleted,
            DeletionEvent::Asked(Err(SecretError::Missing)) => DeletionEventView::Missing,
            DeletionEvent::Asked(Err(SecretError::Failed(e))) => DeletionEventView::Failed(e@),
        }
    }
}

/// What is to be done next.
pub enum DeletionAction {
    /// Delete a secret of some kind, which is kept under a name.
    Delete { field: &'static str, name: String },
    /// Nothing: all secrets are gone.
    Finished,
    /// Nothing: a secret could not be deleted.
    Stopped(String),
}

/// The view of a [`DeletionAction`].
pub enum DeletionActionView {
    Delete { field: Seq<char>, name: Seq<char> },
    Finished,
    Stopped(Seq<char>),
}

impl View for DeletionAction {
    type V = DeletionActionView;

    open spec fn view(&self) -> DeletionActionView {
        match *self {
            DeletionAction::Delete { field, name } => DeletionActionView::Delete {
                field: field@,
                name: name@,
            },
            DeletionAction::Finished => DeletionActionView::Finished,
            DeletionAction::Stopped(e) => DeletionActionView::Stopped(e@),
        }
    }
}

// ---------------------------------------------------------------------------
// The state of a deletion
// ---------------------------------------------------------------------------
/// The deletion of the secrets of an account.
pub struct SecretDeletion {
    secrets: Vec<(&'static str, String)>,
    at: usize,
    over: bool,
}

/// The view of a [`SecretDeletion`].
pub struct SecretDeletionView {
    /// The kinds of the secrets, with the names under which they are kept.
    pub secrets: Seq<(Seq<char>, Seq<char>)>,
    /// How many of them are gone.
    pub at: int,
    /// Nothing is left to be done.
    pub over: bool,
}

impl View for SecretDeletion {
    type V = SecretDeletionView;

    closed spec fn view(&self) -> SecretDeletionView {
        SecretDeletionView {
            secrets: named_texts(self.secrets@),
            at: self.at as int,
            over: self.over,
        }
    }
}

impl SecretDeletionView {
    /// A state that a deletion can be in.
    pub open spec fn wf(self) -> bool {
        &&& 0 <= self.at <= self.secrets.len()
        &&& !self.over ==> self.at < self.secrets.len()
    }

    /// The deletion of the secret that comes next.
    pub open spec fn ask(self) -> DeletionActionView {
        DeletionActionView::Delete {
            field: self.secrets[self.at].0,
            name: self.secrets[self.at].1,
        }
    }

    /// The state behind an event, and what is to be done then. A secret that was not
    /// there is as good as deleted.
    pub open spec fn after(self, event: DeletionEventView) -> (
        SecretDeletionView,
        DeletionActionView,
    ) {
        let field = self.secrets[self.at].0;
        match event {
            DeletionEventView::Unopened(cause) => (
                SecretDeletionView { over: true, ..self },
                DeletionActionView::Stopped(
                    "Could not open secure credential store for "@ + field + ": "@ + cause,
                ),
            ),
            DeletionEventView::Failed(cause) => (
                SecretDeletionView { over: true, ..self },
                DeletionActionView::Stopped(
                    "Could not delete "@ + field + " from the OS credential store: "@ + cause,
                ),
            ),
            _ => {
                let next = SecretDeletionView { at: self.at + 1, ..self };
                if next.at < self.secrets.len() {
                    (next, next.ask())
                } else {
                    (SecretDeletionView { over: true, ..next }, DeletionActionView::Finished)
                }
            },
        }
    }
}

/// The start of the deletion of the secrets of an account.
pub open spec fn fresh_deletion(account_id: int) -> SecretDeletionView {
    SecretDeletionView { secrets: secrets_of(account_id), at: 0, over: false }
}

impl SecretDeletion {
    /// Starts the deletion of the secrets of an account.
    pub fn start(account_id: i64) -> (r: (SecretDeletion, DeletionAction))
        ensures
            r.0@ == fresh_deletion(account_id as int),
            r.1@ == fresh_deletion(account_id as int).ask(),
            r.0@.wf(),
    {
        let secrets = delete_account_secrets(account_id);
        assert(named_texts(secrets@).len() == secrets@.len());
        assert(named_texts(secrets@)[0] == (secrets@[0].0@, secrets@[0].1@));
        let action = DeletionAction::Delete { field: secrets[0].0, name: copy(&secrets[0].1) };
        (SecretDeletion { secrets, at: 0, over: false }, action)
    }

    /// Tells the deletion what happened. It says what is to be done next; when it is
    /// over it ignores what it is told.
    pub fn step(&mut self, event: DeletionEvent) -> (r: Option<DeletionAction>)
        requires
            old(self)@.wf(),
        ensures
            final(self)@.wf(),
            match r {
                Some(action) => !old(self)@.over && (final(self)@, action@) == old(self)@.after(
                    event@,
                ),
                None => old(self)@.over && final(self)@ == old(self)@,
            },
    {
        if self.over {
            return None;
        }
        assert(named_texts(self.secrets@).len() == self.secrets@.len());
        assert(self@.secrets[self@.at] == (
            self.secrets@[self.at as int].0@,
            self.secrets@[self.at as int].1@,
        ));
        let field: &'static str = self.secrets[self.at].0;
        let outcome = match event {
            DeletionEvent::Unopened(cause) => {
                self.over = true;
                return Some(
                    DeletionAction::Stopped(account_secret_entry_error(field, cause.as_str())),
                );
            },
            DeletionEvent::Asked(outcome) => outcome,
        };
        if let Err(e) = delete_account_secret(field, outcome) {
            self.over = true;
            return Some(DeletionAction::Stopped(e));
        }
        assert(self.at < self.secrets.len());
        self.at = self.at + 1;
        if self.at < self.secrets.len() {
            assert(self@.secrets[self@.at] == (
                self.secrets@[self.at as int].0@,
                self.secrets@[self.at as int].1@,
            ));
            Some(
                DeletionAction::Delete {
                    field: self.secrets[self.at].0,
                    name: copy(&self.secrets[self.at].1),
                },
            )
        } else {
            self.over = true;
            Some(DeletionAction::Finished)
        }
    }
}

// ---------------------------------------------------------------------------
// Laws
// ---------------------------------------------------------------------------
/// Law: whatever happens, a deletion comes to an end. It ends well only when every
/// secret is gone.
pub proof fn deletion_comes_to_an_end(d: SecretDeletionView, event: DeletionEventView)
    requires
        d.wf(),
        !d.over,
    ensures
        ({
            let (next, action) = d.after(event);
            &&& next.wf()
            &&& next.secrets == d.secrets
            &&& next.over || next.at == d.at + 1
            &&& next.over <==> !(action is Delete)
            &&& action is Finished ==> next.at == d.secrets.len()
        }),
{
}

/// Law: a secret that is not there is no error. Where the store refuses nothing, a
/// deletion of secrets that are gone already takes the same way as the first one.
pub proof fn missing_secrets_are_no_error(d: SecretDeletionView)
    ensures
        d.after(DeletionEventView::Missing) == d.after(DeletionEventView::Deleted),
        !(d.after(DeletionEventView::Missing).1 is Stopped),
{
}

/// Law: as a deletion goes on, the credential store is without the secrets that
/// count as gone, and in the end without all secrets of the account.
pub proof fn deletion_empties_the_store(
    d: SecretDeletionView,
    account_id: int,
    store: Map<Seq<char>, Seq<char>>,
    event: DeletionEventView,
)
    requires
        d.wf(),
        d.secrets == secrets_of(account_id),
        !d.over,
        event is Deleted || event is Missing,
    ensures
        ({
            let (next, action) = d.after(event);
            &&& store_without(store, d.secrets.take(d.at)).remove(d.secrets[d.at].1)
                == store_without(store, d.secrets.take(next.at))
            &&& action is Finished ==> store_without(store, d.secrets.take(next.at))
                == store_without(store, secrets_of(account_id))
        }),
{
    let (next, _) = d.after(event);
    let gone = d.secrets.take(next.at);
    assert(gone.drop_last() =~= d.secrets.take(d.at));
    assert(gone.last() == d.secrets[d.at]);
    assert(d.secrets.take(d.secrets.len() as int) =~= d.secrets);
}

/// Law: the secrets are asked for one after the other, each by its own kind and name,
/// and none is left out; what could not be deleted is named in the error, and why.
pub proof fn every_secret_is_asked_for(
    d: SecretDeletionView,
    event: DeletionEventView,
    account_id: int,
)
    requires
        d.wf(),
        !d.over,
    ensures
        ({
            let action = d.after(event).1;
            let gone = event is Deleted || event is Missing;
            &&& gone && d.at + 1 < d.secrets.len() ==> action == (DeletionActionView::Delete {
                field: d.secrets[d.at + 1].0,
                name: d.secrets[d.at + 1].1,
            })
            &&& gone && d.at + 1 == d.secrets.len() ==> action is Finished
            &&& event matches DeletionEventView::Failed(cause) ==> action
                == DeletionActionView::Stopped(
                "Could not delete "@ + d.secrets[d.at].0 + " from the OS credential store: "@
                    + cause,
            )
            &&& event matches DeletionEventView::Unopened(cause) ==> action
                == DeletionActionView::Stopped(
                "Could not open secure credential store for "@ + d.secrets[d.at].0 + ": "@ + cause,
            )
        }),
        fresh_deletion(account_id).ask() == (DeletionActionView::Delete {
            field: secrets_of(account_id)[0].0,
            name: secrets_of(account_id)[0].1,
        }),
{
}

} // verus!
