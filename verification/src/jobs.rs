//! Jobs that run in the background: which may run beside which, how many workers
//! a sync gets, and what their results add up to.
use std::collections::HashSet;

use vstd::prelude::*;
use vstd::string::*;

use crate::folder_pass::plus;
use crate::number::{decimal, decimal_text};
use crate::text::{
    cat3, contains_text, copy, join, join_strings, opt_text, stands_at, starts, texts,
};

verus! {

// ---------------------------------------------------------------------------
// Which jobs are running
// ---------------------------------------------------------------------------
/// The jobs that are running.
#[derive(Clone, Copy)]
pub struct JobFlags {
    pub syncing: bool,
    pub polling: bool,
    pub resetting: bool,
}

impl JobFlags {
    /// A reset runs alone.
    pub open spec fn wf(self) -> bool {
        self.resetting ==> !self.syncing && !self.polling
    }

    /// No job is running.
    pub fn idle() -> (r: JobFlags)
        ensures
            r.wf(),
            r == (JobFlags { syncing: false, polling: false, resetting: false }),
    {
        JobFlags { syncing: false, polling: false, resetting: false }
    }

    /// Starts a sync, unless one is running or a reset is.
    pub fn start_sync(&mut self) -> (r: Result<(), String>)
        requires
            old(self).wf(),
        ensures
            final(self).wf(),
            match r {
                Ok(()) => !old(self).resetting && !old(self).syncing && *final(self) == (JobFlags {
                    syncing: true,
                    ..*old(self)
                }),
                Err(e) => *final(self) == *old(self) && (if old(self).resetting {
                    e@ == "Cannot sync while reset is running"@
                } else {
                    old(self).syncing && e@ == "Sync already running"@
                }),
            },
    {
        if self.resetting {
            return Err("Cannot sync while reset is running".to_owned());
        }
        if self.syncing {
            return Err("Sync already running".to_owned());
        }
        self.syncing = true;
        Ok(())
    }

    /// A sync is over.
    pub fn finish_sync(&mut self)
        requires
            old(self).wf(),
        ensures
            final(self).wf(),
            *final(self) == (JobFlags { syncing: false, ..*old(self) }),
    {
        self.syncing = false;
    }

    /// Starts a poll, unless another job is running. Tells whether it did.
    pub fn start_poll(&mut self) -> (r: bool)
        requires
            old(self).wf(),
        ensures
            final(self).wf(),
            r == (!old(self).resetting && !old(self).syncing && !old(self).polling),
            *final(self) == (JobFlags { polling: old(self).polling || r, ..*old(self) }),
    {
        if self.resetting || self.syncing || self.polling {
            return false;
        }
        self.polling = true;
        true
    }

    /// A poll is over.
    pub fn finish_poll(&mut self)
        requires
            old(self).wf(),
        ensures
            final(self).wf(),
            *final(self) == (JobFlags { polling: false, ..*old(self) }),
    {
        self.polling = false;
    }

    /// Starts a reset, unless another job is running.
    pub fn start_reset(&mut self) -> (r: Result<(), String>)
        requires
            old(self).wf(),
        ensures
            final(self).wf(),
            match r {
                Ok(()) => !old(self).resetting && !old(self).syncing && !old(self).polling
                    && *final(self) == (JobFlags { resetting: true, ..*old(self) }),
                Err(e) => *final(self) == *old(self) && (if old(self).resetting {
                    e@ == "Database reset is already running"@
                } else if old(self).syncing {
                    e@ == "Cannot reset the database while sync is running"@
                } else {
                    old(self).polling && e@
                        == "Cannot reset the database while live poll is running"@
                }),
            },
    {
        if self.resetting {
            return Err("Database reset is already running".to_owned());
        }
        if self.syncing {
            return Err("Cannot reset the database while sync is running".to_owned());
        }
        if self.polling {
            return Err("Cannot reset the database while live poll is running".to_owned());
        }
        self.resetting = true;
        Ok(())
    }

    /// A reset is over.
    pub fn finish_reset(&mut self)
        requires
            old(self).wf(),
        ensures
            final(self).wf(),
            *final(self) == (JobFlags { resetting: false, ..*old(self) }),
    {
        self.resetting = false;
    }

    /// An error while a reset is running.
    pub fn ensure_not_resetting(&self) -> (r: Result<(), String>)
        ensures
            match r {
                Ok(()) => !self.resetting,
                Err(e) => self.resetting && e@ == "Database reset is running"@,
            },
    {
        if self.resetting {
            Err("Database reset is running".to_owned())
        } else {
            Ok(())
        }
    }
}

// ---------------------------------------------------------------------------
// Syncs
// ---------------------------------------------------------------------------
/// How many workers sync so many accounts on so many processors: one for three
/// processors, at least one, and no more than there are accounts. A single
/// account is synced by one.
pub open spec fn worker_count(account_count: int, cpus: int, force_serial: bool) -> int {
    let by_cpus = if cpus / 3 < 1 {
        1
    } else {
        cpus / 3
    };
    if force_serial || account_count < 1 {
        1
    } else if account_count < by_cpus {
        account_count
    } else {
        by_cpus
    }
}

/// Computes [`worker_count`].
pub fn sync_worker_count(account_count: usize, cpus: usize, force_serial: bool) -> (r: usize)
    ensures
        r == worker_count(account_count as int, cpus as int, force_serial),
        1 <= r,
        r <= account_count || r == 1,
{
    if force_serial {
        return 1;
    }
    let by_cpus: usize = if cpus / 3 < 1 {
        1
    } else {
        cpus / 3
    };
    let n: usize = if account_count < by_cpus {
        account_count
    } else {
        by_cpus
    };
    if n < 1 {
        1
    } else {
        n
    }
}

/// What the workers of a sync have come to so far.
pub struct SyncTally {
    pub synced: usize,
    pub errors: Vec<String>,
}

impl SyncTally {
    /// Nothing yet.
    pub fn new() -> (r: SyncTally)
        ensures
            r.synced == 0,
            texts(r.errors@) == Seq::<Seq<char>>::empty(),
    {
        let r = SyncTally { synced: 0, errors: Vec::new() };
        assert(texts(r.errors@) =~= Seq::<Seq<char>>::empty());
        r
    }

    /// Takes note of an account that was synced, or was not.
    pub fn record(&mut self, email: &str, outcome: &Result<usize, String>)
        ensures
            match *outcome {
                Ok(count) => final(self).synced == plus(old(self).synced, count as nat) && texts(
                    final(self).errors@,
                ) == texts(old(self).errors@),
                Err(e) => final(self).synced == old(self).synced && texts(final(self).errors@)
                    == texts(old(self).errors@).push(email@ + ": "@ + e@),
            },
    {
        let ghost before = texts(self.errors@);
        match outcome {
            Ok(count) => {
                self.synced = self.synced.saturating_add(*count);
            },
            Err(e) => {
                self.errors.push(cat3(email, ": ", e.as_str()));
                assert(texts(self.errors@) =~= before.push(email@ + ": "@ + e@));
            },
        }
    }

    /// Takes note of a worker that came to no end.
    pub fn worker_panicked(&mut self)
        ensures
            final(self).synced == old(self).synced,
            texts(final(self).errors@) == texts(old(self).errors@).push("sync worker panicked"@),
    {
        let ghost before = texts(self.errors@);
        self.errors.push("sync worker panicked".to_owned());
        assert(texts(self.errors@) =~= before.push("sync worker panicked"@));
    }

    /// What the sync comes to: an error that names every failure, or how many
    /// messages were seen.
    pub fn finish(&self) -> (r: Result<usize, String>)
        ensures
            match r {
                Ok(n) => self.errors@.len() == 0 && n == self.synced,
                Err(e) => self.errors@.len() > 0 && e@ == decimal(self.errors@.len())
                    + " account sync(s) failed: "@ + join(texts(self.errors@), "; "@),
            },
    {
        if self.errors.len() == 0 {
            return Ok(self.synced);
        }
        let n = decimal_text(self.errors.len() as u64);
        let all = join_strings(&self.errors, "; ");
        Err(cat3(n.as_str(), " account sync(s) failed: ", all.as_str()))
    }
}

/// A sync of some accounts by one or more workers. Each worker takes an account,
/// syncs it, says what came of it, and takes the next.
pub struct SyncJob {
    accounts: usize,
    workers: usize,
    taken: usize,
    failed: Option<String>,
    tally: SyncTally,
}

/// The view of a [`SyncJob`].
pub struct SyncJobView {
    /// How many accounts there are.
    pub accounts: nat,
    /// How many workers there are.
    pub workers: int,
    /// How many accounts were taken by a worker.
    pub taken: nat,
    /// What stopped the one worker of a sync without others.
    pub failed: Option<Seq<char>>,
    /// How many messages were seen.
    pub synced: usize,
    /// What went wrong, where there are several workers.
    pub errors: Seq<Seq<char>>,
}

impl View for SyncJob {
    type V = SyncJobView;

    closed spec fn view(&self) -> SyncJobView {
        SyncJobView {
            accounts: self.accounts as nat,
            workers: self.workers as int,
            taken: self.taken as nat,
            failed: opt_text(self.failed),
            synced: self.tally.synced,
            errors: texts(self.tally.errors@),
        }
    }
}

impl SyncJobView {
    /// A state that a sync can be in.
    pub open spec fn wf(self) -> bool {
        self.taken <= self.accounts && (self.workers != 1 ==> self.failed is None)
    }

    /// The account that the next worker takes: each in turn, until a failure stops
    /// a single worker.
    pub open spec fn next(self) -> Option<nat> {
        if self.failed is None && self.taken < self.accounts {
            Some(self.taken)
        } else {
            None
        }
    }

    /// The state once an account was synced, or was not. A single worker stops at
    /// the first failure; several go on.
    pub open spec fn after(self, email: Seq<char>, outcome: Result<usize, Seq<char>>) -> SyncJobView {
        match outcome {
            Ok(count) => SyncJobView { synced: plus(self.synced, count as nat), ..self },
            Err(e) => if self.workers == 1 {
                SyncJobView { failed: Some(e), ..self }
            } else {
                SyncJobView { errors: self.errors.push(email + ": "@ + e), ..self }
            },
        }
    }

    /// What the sync comes to.
    pub open spec fn result(self) -> Result<usize, Seq<char>> {
        match self.failed {
            Some(e) => Err(e),
            None => if self.errors.len() == 0 {
                Ok(self.synced)
            } else {
                Err(decimal(self.errors.len()) + " account sync(s) failed: "@ + join(self.errors, "; "@))
            },
        }
    }
}

/// The view of an outcome.
pub open spec fn count_result(r: Result<usize, String>) -> Result<usize, Seq<char>> {
    match r {
        Ok(n) => Ok(n),
        Err(e) => Err(e@),
    }
}

impl SyncJob {
    /// Starts a sync of so many accounts on so many processors.
    pub fn new(accounts: usize, cpus: usize, force_serial: bool) -> (r: SyncJob)
        ensures
            r@.wf(),
            r@ == (SyncJobView {
                accounts: accounts as nat,
                workers: worker_count(accounts as int, cpus as int, force_serial),
                taken: 0,
                failed: None,
                synced: 0,
                errors: Seq::empty(),
            }),
    {
        let workers = sync_worker_count(accounts, cpus, force_serial);
        SyncJob { accounts, workers, taken: 0, failed: None, tally: SyncTally::new() }
    }

    /// How many workers there are.
    pub fn workers(&self) -> (r: usize)
        ensures
            r == self@.workers,
    {
        self.workers
    }

    /// How many messages were seen.
    pub fn synced(&self) -> (r: usize)
        ensures
            r == self@.synced,
    {
        self.tally.synced
    }

    /// Takes the next account, where there is one to take.
    pub fn take(&mut self) -> (r: Option<usize>)
        requires
            old(self)@.wf(),
        ensures
            final(self)@.wf(),
            match r {
                Some(i) => old(self)@.next() == Some(i as nat) && final(self)@ == (SyncJobView {
                    taken: old(self)@.taken + 1,
                    ..old(self)@
                }),
                None => old(self)@.next() is None && final(self)@ == old(self)@,
            },
    {
        if self.failed.is_some() || self.taken >= self.accounts {
            return None;
        }
        let i: usize = self.taken;
        self.taken = i + 1;
        Some(i)
    }

    /// Takes note of an account that was synced, or was not.
    pub fn record(&mut self, email: &str, outcome: Result<usize, String>)
        requires
            old(self)@.wf(),
        ensures
            final(self)@.wf(),
            final(self)@ == old(self)@.after(email@, count_result(outcome)),
    {
        if self.workers == 1 {
            match outcome {
                Ok(_) => self.tally.record(email, &outcome),
                Err(e) => {
                    self.failed = Some(e);
                },
            }
        } else {
            self.tally.record(email, &outcome);
        }
    }

    /// Takes note of a worker that came to no end.
    pub fn worker_panicked(&mut self)
        requires
            old(self)@.wf(),
        ensures
            final(self)@.wf(),
            final(self)@ == (SyncJobView {
                errors: old(self)@.errors.push("sync worker panicked"@),
                ..old(self)@
            }),
    {
        self.tally.worker_panicked();
    }

    /// What the sync comes to: an error that names every failure, or how many
    /// messages were seen.
    pub fn finish(&self) -> (r: Result<usize, String>)
        ensures
            count_result(r) == self@.result(),
    {
        match &self.failed {
            Some(e) => Err(copy(e)),
            None => self.tally.finish(),
        }
    }
}

// ---------------------------------------------------------------------------
// Polls
// ---------------------------------------------------------------------------
/// What a poll of the accounts has come to so far.
#[derive(Clone, Copy)]
pub struct PollTally {
    /// How many messages are new.
    pub new_messages: usize,
    /// How many messages are new or changed.
    pub changed: usize,
}

impl PollTally {
    /// Nothing yet.
    pub fn new() -> (r: PollTally)
        ensures
            r.new_messages == 0,
            r.changed == 0,
    {
        PollTally { new_messages: 0, changed: 0 }
    }

    /// Takes note of an account with so many new and so many changed messages.
    pub fn record(&mut self, new_messages: usize, changed: usize)
        ensures
            final(self).new_messages == plus(old(self).new_messages, new_messages as nat),
            final(self).changed == plus(plus(old(self).changed, new_messages as nat), changed as nat),
    {
        self.new_messages = self.new_messages.saturating_add(new_messages);
        self.changed = self.changed.saturating_add(new_messages).saturating_add(changed);
    }

    /// Whether there is anything to tell.
    pub fn has_news(&self) -> (r: bool)
        ensures
            r == (self.changed > 0),
    {
        self.changed > 0
    }
}

// ---------------------------------------------------------------------------
// Watching inboxes
// ---------------------------------------------------------------------------
/// What the watcher of an inbox is told.
pub enum WatchEvent {
    /// The account is still what it was, or it is not.
    Checked(bool),
    /// It could not be told whether the account is still what it was.
    CheckFailed,
    /// The server reported a change, or nothing happened for long enough.
    Changed,
    /// The connection failed.
    WaitFailed,
    /// A poll was made.
    Polled,
    /// A pause is over.
    Rested,
}

/// What the watcher of an inbox does next.
#[derive(Clone, Copy, PartialEq, Eq, Structural)]
pub enum WatchAction {
    Check,
    Wait,
    Poll,
    Rest,
    Stop,
}

/// A watcher waits for changes while the account is what it was, polls after each
/// change, rests after a failure, and stops when the account changed.
pub fn watch_step(event: &WatchEvent) -> (r: WatchAction)
    ensures
        r == match *event {
            WatchEvent::Checked(current) => if current {
                WatchAction::Wait
            } else {
                WatchAction::Stop
            },
            WatchEvent::CheckFailed => WatchAction::Rest,
            WatchEvent::Changed => WatchAction::Poll,
            WatchEvent::WaitFailed => WatchAction::Rest,
            WatchEvent::Polled => WatchAction::Check,
            WatchEvent::Rested => WatchAction::Check,
        },
{
    match event {
        WatchEvent::Checked(current) => if *current {
            WatchAction::Wait
        } else {
            WatchAction::Stop
        },
        WatchEvent::CheckFailed => WatchAction::Rest,
        WatchEvent::Changed => WatchAction::Poll,
        WatchEvent::WaitFailed => WatchAction::Rest,
        WatchEvent::Polled => WatchAction::Check,
        WatchEvent::Rested => WatchAction::Check,
    }
}

/// The accounts that are watched.
pub struct WatchedAccounts {
    ids: HashSet<i64>,
}

impl View for WatchedAccounts {
    type V = Set<i64>;

    closed spec fn view(&self) -> Set<i64> {
        self.ids@
    }
}

impl WatchedAccounts {
    /// No account is watched.
    pub fn new() -> (r: WatchedAccounts)
        ensures
            r@ == Set::<i64>::empty(),
    {
        broadcast use vstd::std_specs::hash::group_hash_axioms;

        WatchedAccounts { ids: HashSet::new() }
    }

    /// Has an account watched. Tells whether it was not watched before, so that a
    /// watcher is needed.
    pub fn claim(&mut self, id: i64) -> (r: bool)
        ensures
            r == !old(self)@.contains(id),
            final(self)@ == old(self)@.insert(id),
    {
        broadcast use vstd::std_specs::hash::group_hash_axioms;

        self.ids.insert(id)
    }

    /// Has an account no longer watched.
    pub fn release(&mut self, id: i64)
        ensures
            final(self)@ == old(self)@.remove(id),
    {
        broadcast use vstd::std_specs::hash::group_hash_axioms;

        self.ids.remove(&id);
    }

    /// Has no account watched any more.
    pub fn clear(&mut self)
        ensures
            final(self)@ == Set::<i64>::empty(),
    {
        broadcast use vstd::std_specs::hash::group_hash_axioms;

        self.ids.clear();
    }
}

// ---------------------------------------------------------------------------
// Laws
// ---------------------------------------------------------------------------
/// Law: there is always a worker, and never more workers than accounts to sync.
pub proof fn workers_fit_the_accounts(account_count: int, cpus: int, force_serial: bool)
    requires
        account_count >= 1,
        cpus >= 0,
    ensures
        1 <= worker_count(account_count, cpus, force_serial) <= account_count,
        force_serial ==> worker_count(account_count, cpus, force_serial) == 1,
{
}

/// Law: each account is taken once. An account that is taken was not taken
/// before, and when no account is left to take, all were taken, unless a failure
/// stopped a single worker.
pub proof fn every_account_is_taken_once(job: SyncJobView)
    requires
        job.wf(),
    ensures
        match job.next() {
            Some(i) => job.taken <= i < job.accounts,
            None => job.taken == job.accounts || (job.workers == 1 && job.result() is Err),
        },
{
}

/// Law: among several workers, the failure of one account keeps no other account
/// from being synced, and the failure is named in the end.
pub proof fn failures_do_not_stop_others(job: SyncJobView, email: Seq<char>, error: Seq<char>)
    requires
        job.wf(),
        job.workers != 1,
    ensures
        job.after(email, Err(error)).next() == job.next(),
        job.after(email, Err(error)).result() is Err,
        job.after(email, Err(error)).errors.contains(email + ": "@ + error),
{
    let errors = job.after(email, Err(error)).errors;
    assert(errors.last() == email + ": "@ + error);
}

/// Law: there are as many workers as accounts and processors allow: three processors
/// for each worker, and one more worker would be too many for the one or the other.
pub proof fn workers_are_as_many_as_fit(account_count: int, cpus: int)
    requires
        account_count >= 1,
        cpus >= 0,
    ensures
        ({
            let n = worker_count(account_count, cpus, false);
            &&& n == 1 || 3 * n <= cpus
            &&& n == account_count || 3 * (n + 1) > cpus
            &&& n <= account_count
        }),
{
}

/// Law: every message that was seen is counted, once, and every failure is kept in the
/// order in which it came. A single worker stops at a failure, with that failure.
pub proof fn outcomes_are_added_up(
    job: SyncJobView,
    email: Seq<char>,
    count: usize,
    error: Seq<char>,
)
    requires
        job.wf(),
    ensures
        ({
            let next = job.after(email, Ok(count));
            &&& job.synced + count <= usize::MAX ==> next.synced == job.synced + count
            &&& next.errors == job.errors && next.failed == job.failed
            &&& next.taken == job.taken && next.accounts == job.accounts && next.workers
                == job.workers
        }),
        ({
            let next = job.after(email, Err(error));
            &&& next.synced == job.synced && next.taken == job.taken && next.accounts
                == job.accounts && next.workers == job.workers
            &&& job.workers == 1 ==> next.next() is None && next.result() == Err::<usize, Seq<char>>(
                error,
            )
            &&& job.workers != 1 ==> next.errors == job.errors + seq![email + ": "@ + error]
        }),
        job.failed is None && job.errors.len() == 0 ==> job.result() == Ok::<usize, Seq<char>>(
            job.synced,
        ),
        job.failed is Some || job.errors.len() > 0 ==> job.result() is Err,
{
    assert(job.errors.push(email + ": "@ + error) =~= job.errors + seq![email + ": "@ + error]);
}

proof fn lemma_joined(parts: Seq<Seq<char>>, sep: Seq<char>, i: int)
    requires
        0 <= i < parts.len(),
    ensures
        contains_text(join(parts, sep), parts[i]),
    decreases parts.len(),
{
    let whole = join(parts, sep);
    if parts.len() == 1 {
        assert(whole.subrange(0, whole.len() as int) =~= parts[0]);
        assert(stands_at(whole, parts[0], 0));
    } else {
        let front = join(parts.drop_last(), sep);
        let p = parts[i];
        if i == parts.len() - 1 {
            let k = front.len() as int + sep.len() as int;
            assert(whole.subrange(k, k + p.len()) =~= p);
            assert(stands_at(whole, p, k));
        } else {
            lemma_joined(parts.drop_last(), sep, i);
            let k = choose|k: int| stands_at(front, p, k);
            assert(whole.subrange(k, k + p.len()) =~= front.subrange(k, k + p.len()));
            assert(stands_at(whole, p, k));
        }
    }
}

/// Law: among several workers every failure is named in the end, with the account
/// that it happened to, behind how many there were.
pub proof fn every_failure_is_named(job: SyncJobView, i: int)
    requires
        job.failed is None,
        0 <= i < job.errors.len(),
    ensures
        job.result() is Err,
        contains_text(job.result()->Err_0, job.errors[i]),
        starts(job.result()->Err_0, decimal(job.errors.len()) + " account sync(s) failed: "@),
{
    let list = join(job.errors, "; "@);
    let front = decimal(job.errors.len()) + " account sync(s) failed: "@;
    let e = job.result()->Err_0;
    let p = job.errors[i];
    assert(e == front + list);
    lemma_joined(job.errors, "; "@, i);
    let k = choose|k: int| stands_at(list, p, k);
    assert(e.subrange(front.len() + k, front.len() + k + p.len()) =~= list.subrange(k, k + p.len()));
    assert(stands_at(e, p, front.len() + k));
    assert(e.take(front.len() as int) =~= front);
}

} // verus!
