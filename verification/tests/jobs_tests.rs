use mailwind::jobs::{
    sync_worker_count, watch_step, JobFlags, PollTally, SyncJob, WatchAction, WatchEvent,
    WatchedAccounts,
};

#[test]
fn a_reset_runs_alone() {
    let mut flags = JobFlags::idle();
    assert_eq!(flags.start_sync(), Ok(()));
    assert_eq!(flags.start_sync(), Err("Sync already running".to_string()));
    assert_eq!(
        flags.start_reset(),
        Err("Cannot reset the database while sync is running".to_string())
    );
    assert!(!flags.start_poll());
    flags.finish_sync();
    assert!(flags.start_poll());
    assert!(!flags.start_poll());
    assert_eq!(
        flags.start_reset(),
        Err("Cannot reset the database while live poll is running".to_string())
    );
    flags.finish_poll();
    assert_eq!(flags.ensure_not_resetting(), Ok(()));
    assert_eq!(flags.start_reset(), Ok(()));
    assert_eq!(flags.ensure_not_resetting(), Err("Database reset is running".to_string()));
    assert_eq!(flags.start_reset(), Err("Database reset is already running".to_string()));
    assert_eq!(flags.start_sync(), Err("Cannot sync while reset is running".to_string()));
    assert!(!flags.start_poll());
    flags.finish_reset();
    assert_eq!(flags.start_sync(), Ok(()));
}

#[test]
fn a_sync_may_start_while_a_poll_runs() {
    let mut flags = JobFlags::idle();
    assert!(flags.start_poll());
    assert_eq!(flags.start_sync(), Ok(()));
}

#[test]
fn workers_depend_on_accounts_and_processors() {
    assert_eq!(sync_worker_count(10, 12, false), 4);
    assert_eq!(sync_worker_count(2, 12, false), 2);
    assert_eq!(sync_worker_count(10, 2, false), 1);
    assert_eq!(sync_worker_count(10, 12, true), 1);
    assert_eq!(sync_worker_count(0, 12, false), 1);
}

#[test]
fn several_workers_go_on_after_a_failure() {
    let mut job = SyncJob::new(3, 9, false);
    assert_eq!(job.workers(), 3);
    assert_eq!(job.take(), Some(0));
    assert_eq!(job.take(), Some(1));
    job.record("a@x", Err("no".to_string()));
    assert_eq!(job.take(), Some(2));
    assert_eq!(job.take(), None);
    job.record("b@x", Ok(4));
    job.record("c@x", Ok(5));
    assert_eq!(job.synced(), 9);
    assert_eq!(job.finish(), Err("1 account sync(s) failed: a@x: no".to_string()));
    job.worker_panicked();
    assert_eq!(
        job.finish(),
        Err("2 account sync(s) failed: a@x: no; sync worker panicked".to_string())
    );
}

#[test]
fn a_single_worker_stops_at_a_failure() {
    let mut job = SyncJob::new(3, 1, false);
    assert_eq!(job.workers(), 1);
    assert_eq!(job.take(), Some(0));
    job.record("a@x", Ok(4));
    assert_eq!(job.take(), Some(1));
    job.record("b@x", Err("no".to_string()));
    assert_eq!(job.take(), None);
    assert_eq!(job.finish(), Err("no".to_string()));
}

#[test]
fn a_sync_of_nothing_is_done_at_once() {
    let mut job = SyncJob::new(0, 8, false);
    assert_eq!(job.take(), None);
    assert_eq!(job.finish(), Ok(0));
}

#[test]
fn a_poll_tells_of_news() {
    let mut tally = PollTally::new();
    assert!(!tally.has_news());
    tally.record(0, 0);
    assert!(!tally.has_news());
    tally.record(2, 1);
    tally.record(0, 4);
    assert!(tally.has_news());
    assert_eq!((tally.new_messages, tally.changed), (2, 7));
    tally.record(usize::MAX, usize::MAX);
    assert_eq!((tally.new_messages, tally.changed), (usize::MAX, usize::MAX));
}

#[test]
fn a_watcher_waits_polls_rests_and_stops() {
    assert!(watch_step(&WatchEvent::Checked(true)) == WatchAction::Wait);
    assert!(watch_step(&WatchEvent::Checked(false)) == WatchAction::Stop);
    assert!(watch_step(&WatchEvent::CheckFailed) == WatchAction::Rest);
    assert!(watch_step(&WatchEvent::Changed) == WatchAction::Poll);
    assert!(watch_step(&WatchEvent::WaitFailed) == WatchAction::Rest);
    assert!(watch_step(&WatchEvent::Polled) == WatchAction::Check);
    assert!(watch_step(&WatchEvent::Rested) == WatchAction::Check);
}

#[test]
fn an_account_is_watched_once() {
    let mut watched = WatchedAccounts::new();
    assert!(watched.claim(3));
    assert!(!watched.claim(3));
    assert!(watched.claim(4));
    watched.release(3);
    assert!(watched.claim(3));
    watched.clear();
    assert!(watched.claim(4));
}
