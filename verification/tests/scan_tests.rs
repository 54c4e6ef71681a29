use mailwind::fetched::{
    fetched_uid, flag_changes, imap_locations, messages_from_fetches, missing_imap_rows, BodyFetch,
    FetchQuery, FlagChange, FlagFetch,
};
use mailwind::folder_pass::{FolderPass, PassAction, PassEvent, PassRules};
use mailwind::imap_scan::{
    imap_poll_plan, imap_sync_plan, newest_within, present_messages_search, sort_newest_first,
    ImapScan, ScanAction, ScanEvent,
};

fn flag(uid: u32, seen: bool, deleted: bool) -> FlagFetch {
    FlagFetch { uid: Some(uid), message: 1, deleted, seen }
}

fn body(uid: u32, raw: Option<&str>) -> BodyFetch {
    BodyFetch {
        uid: Some(uid),
        message: 1,
        seen: true,
        body: raw.map(|s| s.as_bytes().to_vec()),
        header: None,
        text: None,
    }
}

fn names(list: &[&str]) -> Vec<String> {
    list.iter().map(|s| s.to_string()).collect()
}

fn rules(prune: bool) -> PassRules {
    PassRules { flag_chunk: 2, body_chunk: 2, prune, reopen_after_text: true }
}

#[test]
fn uids_are_sorted_newest_first() {
    assert_eq!(sort_newest_first(vec![3, 9, 1, 9, 4]), vec![9, 9, 4, 3, 1]);
    assert_eq!(sort_newest_first(vec![]), Vec::<u32>::new());
    assert_eq!(newest_within(vec![3, 9, 1, 4], Some(2)), vec![9, 4]);
    assert_eq!(newest_within(vec![3, 9], None), vec![9, 3]);
}

#[test]
fn a_fetch_without_uid_goes_by_its_number() {
    assert_eq!(fetched_uid(Some(7), 2), 7);
    assert_eq!(fetched_uid(None, 2), 2);
}

#[test]
fn flags_become_changes() {
    let changes = flag_changes(&vec![flag(7, true, false), flag(8, false, false), flag(9, true, true)]);
    assert_eq!(changes.len(), 3);
    assert!(matches!(changes[0], FlagChange::Read { uid: 7, is_read: true }));
    assert!(matches!(changes[1], FlagChange::Read { uid: 8, is_read: false }));
    assert!(matches!(changes[2], FlagChange::Delete { uid: 9 }));
}

#[test]
fn queries_ask_without_marking_as_read() {
    assert_eq!(present_messages_search(), "UNDELETED");
    assert_eq!(FetchQuery::Flags.text(), "(FLAGS)");
    assert_eq!(FetchQuery::Body.text(), "(BODY.PEEK[] FLAGS)");
    assert_eq!(FetchQuery::HeaderText.text(), "(BODY.PEEK[HEADER] BODY.PEEK[TEXT] FLAGS)");
}

#[test]
fn fetches_become_messages() {
    let list = vec![body(7, Some("Subject: a\r\n\r\nx")), body(8, None), body(9, Some(" x\r\n\r\n"))];
    let messages = messages_from_fetches("Inbox", "INBOX", &list, false, 5);
    assert_eq!(messages.len(), 1);
    assert_eq!(messages[0].provider_message_id, "imap-uid:INBOX:7");
    let pieces = vec![BodyFetch {
        header: Some(b"Subject: b".to_vec()),
        text: Some(b"\r\ntext".to_vec()),
        ..body(10, None)
    }];
    let messages = messages_from_fetches("Inbox", "INBOX", &pieces, true, 5);
    assert_eq!(messages[0].subject, "b");
    assert_eq!(messages[0].body, "text");
    assert!(messages_from_fetches("Inbox", "INBOX", &vec![body(7, Some("x"))], true, 5).is_empty());
}

#[test]
fn rows_of_messages_that_are_gone_are_found() {
    let keep = imap_locations(&names(&["imap-uid:INBOX:1", "imap-uid:INBOX:2:<a@x>", "gmail"]));
    let rows = vec![
        (1, "imap-uid:INBOX:1:<b@x>".to_string()),
        (2, "imap-uid:INBOX:3".to_string()),
        (3, "gmail".to_string()),
        (4, "imap-uid:INBOX:2".to_string()),
    ];
    assert_eq!(missing_imap_rows(&rows, &keep), vec![2]);
}

#[test]
fn a_pass_takes_flags_prunes_and_fetches() {
    let known = names(&["imap-uid:INBOX:9", "imap-uid:INBOX:8:<a@x>"]);
    let (mut pass, action) = FolderPass::start(rules(true), "Inbox", "INBOX", &vec![9, 8, 7], &known);
    assert!(matches!(action, PassAction::Fetch { uids, query: FetchQuery::Flags } if uids == vec![9, 8]));
    let apply = pass.step(PassEvent::Flags(vec![flag(9, true, false), flag(8, false, true)]));
    assert!(matches!(apply, Some(PassAction::Apply(changes)) if changes.len() == 2));
    let rows = pass.step(PassEvent::Applied { deleted: 1, updated: 1 });
    assert!(matches!(rows, Some(PassAction::LoadRows)));
    let delete = pass.step(PassEvent::Rows(vec![
        (1, "imap-uid:INBOX:9".to_string()),
        (2, "imap-uid:INBOX:8".to_string()),
        (3, "imap-uid:INBOX:5".to_string()),
    ]));
    assert!(matches!(delete, Some(PassAction::DeleteRows(ids)) if ids == vec![2, 3]));
    let fetch = pass.step(PassEvent::Done);
    assert!(matches!(fetch, Some(PassAction::Fetch { uids, query: FetchQuery::Body }) if uids == vec![7]));
    let store = pass.step(PassEvent::Bodies(vec![body(7, Some("Subject: a\r\n\r\nx"))], 5));
    assert!(matches!(store, Some(PassAction::Store(list)) if list.len() == 1));
    assert!(matches!(pass.step(PassEvent::Done), Some(PassAction::Finished)));
    assert_eq!(pass.stored(), 1);
    assert_eq!(pass.changed(), 2);
}

#[test]
fn a_failed_fetch_is_tried_one_by_one_and_in_pieces() {
    let (mut pass, action) = FolderPass::start(rules(false), "Inbox", "INBOX", &vec![9, 8], &vec![]);
    assert!(matches!(action, PassAction::Fetch { uids, query: FetchQuery::Body } if uids == vec![9, 8]));
    assert!(matches!(pass.step(PassEvent::Failed), Some(PassAction::Reopen)));
    let single = pass.step(PassEvent::Done);
    assert!(matches!(single, Some(PassAction::Fetch { uids, query: FetchQuery::Body }) if uids == vec![9]));
    assert!(matches!(pass.step(PassEvent::Failed), Some(PassAction::Reopen)));
    let pieces = pass.step(PassEvent::Done);
    assert!(matches!(
        pieces,
        Some(PassAction::Fetch { uids, query: FetchQuery::HeaderText }) if uids == vec![9]
    ));
    assert!(matches!(pass.step(PassEvent::Failed), Some(PassAction::Reopen)));
    let next = pass.step(PassEvent::Done);
    assert!(matches!(next, Some(PassAction::Fetch { uids, query: FetchQuery::Body }) if uids == vec![8]));
    assert!(matches!(pass.step(PassEvent::Bodies(vec![], 5)), Some(PassAction::Finished)));
    assert_eq!(pass.stored(), 0);
}

#[test]
fn an_unexpected_event_leaves_a_pass_as_it_is() {
    let (mut pass, _) = FolderPass::start(rules(false), "Inbox", "INBOX", &vec![9], &vec![]);
    assert!(pass.step(PassEvent::Flags(vec![])).is_none());
    assert!(pass.step(PassEvent::Done).is_none());
    assert!(matches!(pass.step(PassEvent::Bodies(vec![], 5)), Some(PassAction::Finished)));
    assert!(pass.step(PassEvent::Done).is_none());
}

#[test]
fn a_sync_tries_the_folders_of_each_role() {
    let (mut scan, mut action) = ImapScan::start(imap_sync_plan());
    let mut tried = Vec::new();
    let mut pruned = Vec::new();
    loop {
        let event = match action {
            ScanAction::Select { folder, required } => {
                assert!(!required);
                let there = folder == "INBOX" || folder == "Deleted Items";
                tried.push(folder);
                if there {
                    ScanEvent::Done
                } else {
                    ScanEvent::Failed
                }
            }
            ScanAction::Search { .. } => ScanEvent::Uids(vec![]),
            ScanAction::LoadRows { role } => {
                pruned.push(role);
                ScanEvent::Rows(vec![(4, "imap-uid:x:1".to_string())])
            }
            ScanAction::DeleteRows(ids) => {
                assert_eq!(ids, vec![4]);
                ScanEvent::Done
            }
            ScanAction::Finished => break,
            _ => panic!("nothing to fetch"),
        };
        action = scan.step(event).unwrap();
    }
    assert_eq!(
        tried,
        vec![
            "INBOX",
            "Sent",
            "Sent Items",
            "[Gmail]/Sent Mail",
            "Trash",
            "Deleted Items",
            "Archive",
            "Archives",
        ]
    );
    assert_eq!(pruned, vec!["Inbox", "Trash"]);
    assert_eq!(scan.changed(), 2);
}

#[test]
fn a_poll_looks_at_the_newest_thirty() {
    let (mut scan, action) = ImapScan::start(imap_poll_plan());
    assert!(matches!(action, ScanAction::Select { folder, required: true } if folder == "INBOX"));
    assert!(matches!(scan.step(ScanEvent::Done), Some(ScanAction::Search { role }) if role == "Inbox"));
    let load = scan.step(ScanEvent::Uids((1..=40).collect()));
    assert!(matches!(load, Some(ScanAction::LoadKnown { role }) if role == "Inbox"));
    let action = scan.step(ScanEvent::Known(names(&["imap-uid:INBOX:40"])));
    assert!(matches!(
        action,
        Some(ScanAction::Pass { action: PassAction::Fetch { uids, query: FetchQuery::Flags }, .. })
            if uids == vec![40]
    ));
    let action = scan.step(ScanEvent::Pass(PassEvent::Flags(vec![flag(40, true, false)])));
    assert!(matches!(action, Some(ScanAction::Pass { action: PassAction::Apply(_), .. })));
    let action = scan.step(ScanEvent::Pass(PassEvent::Applied { deleted: 0, updated: 1 }));
    let expected: Vec<u32> = (11..=39).rev().collect();
    assert!(matches!(
        action,
        Some(ScanAction::Pass { action: PassAction::Fetch { uids, query: FetchQuery::Body }, .. })
            if uids == expected
    ));
    let action = scan.step(ScanEvent::Pass(PassEvent::Bodies(vec![body(39, Some("\r\nx"))], 5)));
    assert!(matches!(action, Some(ScanAction::Pass { action: PassAction::Store(_), .. })));
    assert!(matches!(
        scan.step(ScanEvent::Pass(PassEvent::Done)),
        Some(ScanAction::Finished)
    ));
    assert_eq!((scan.stored(), scan.changed()), (1, 1));
}
