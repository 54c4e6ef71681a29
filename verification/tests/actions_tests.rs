use mailwind::actions::{
    archive_plan, attachment_source, check_save_path, deletion_is_permanent,
    mark_imap_message_read, remote_of, row_after_archive, row_after_delete, AttachmentSource,
    Remote, RowChange,
};
use mailwind::moves::{
    archive_targets, delete_imap_message, flag_deleted_command, move_imap_message_to_folder,
    ImapMove, ImapMovedLocation, MoveAction, MoveEvent,
};
use mailwind::sending::{Dispatch, SendAction, SendEvent};

const NAME: &str = "imap-uid:INBOX:7:<a@x>";

fn refused() -> MoveEvent {
    MoveEvent::Failed("no".to_string())
}

fn started(result: Result<(ImapMove, MoveAction), String>) -> ImapMove {
    let (m, action) = result.ok().unwrap();
    assert!(matches!(action, MoveAction::Select(folder) if folder == "INBOX"));
    m
}

fn at(folder: &str, uid: u32) -> Option<ImapMovedLocation> {
    Some(ImapMovedLocation { folder: folder.to_string(), uid })
}

#[test]
fn a_message_is_moved_and_found_again() {
    let mut m = started(move_imap_message_to_folder(NAME, archive_targets(), "<h@x>"));
    assert_eq!(m.lookup(), Some("<h@x>".to_string()));
    assert!(matches!(
        m.step(MoveEvent::Done),
        Some(MoveAction::Move { uid: 7, target }) if target == "Archive"
    ));
    assert!(matches!(
        m.step(MoveEvent::Done),
        Some(MoveAction::Select(folder)) if folder == "Archive"
    ));
    assert!(matches!(
        m.step(MoveEvent::Done),
        Some(MoveAction::Search(query)) if query == "HEADER Message-ID \"<h@x>\""
    ));
    assert!(matches!(
        m.step(MoveEvent::Found(vec![3, 12, 5])),
        Some(MoveAction::Finished(Some(l))) if l.folder == "Archive" && l.uid == 12
    ));
    assert!(m.step(MoveEvent::Done).is_none());
}

#[test]
fn a_server_that_cannot_move_copies() {
    let mut m = started(move_imap_message_to_folder(NAME, archive_targets(), ""));
    assert_eq!(m.lookup(), Some("<a@x>".to_string()));
    m.step(MoveEvent::Done);
    assert!(matches!(m.step(refused()), Some(MoveAction::Copy { uid: 7, target }) if target == "Archive"));
    assert!(matches!(m.step(refused()), Some(MoveAction::Move { target, .. }) if target == "Archives"));
    assert!(matches!(m.step(refused()), Some(MoveAction::Copy { target, .. }) if target == "Archives"));
    assert!(matches!(m.step(MoveEvent::Done), Some(MoveAction::FlagDeleted { uid: 7 })));
    assert!(matches!(m.step(MoveEvent::Done), Some(MoveAction::Expunge { uid: 7 })));
    assert!(matches!(m.step(refused()), Some(MoveAction::Select(folder)) if folder == "Archives"));
    assert!(matches!(m.step(refused()), Some(MoveAction::Finished(None))));
}

#[test]
fn a_message_that_no_folder_takes_stays() {
    let mut m = started(move_imap_message_to_folder(NAME, archive_targets(), ""));
    m.step(MoveEvent::Done);
    for _ in 0..3 {
        m.step(refused());
    }
    assert!(matches!(m.step(refused()), Some(MoveAction::Finished(None))));
}

#[test]
fn a_deleted_message_that_no_folder_takes_vanishes() {
    let mut m = started(delete_imap_message(NAME, false, ""));
    assert!(matches!(m.step(MoveEvent::Done), Some(MoveAction::Move { target, .. }) if target == "Trash"));
    for _ in 0..5 {
        m.step(refused());
    }
    assert!(matches!(m.step(refused()), Some(MoveAction::FlagDeleted { uid: 7 })));
    assert!(matches!(m.step(MoveEvent::Done), Some(MoveAction::Expunge { uid: 7 })));
    assert!(matches!(m.step(MoveEvent::Done), Some(MoveAction::Finished(None))));
}

#[test]
fn a_message_deleted_for_good_is_not_moved() {
    assert_eq!(flag_deleted_command(), "+FLAGS.SILENT (\\Deleted)");
    let mut m = started(delete_imap_message(NAME, true, ""));
    assert!(matches!(m.step(MoveEvent::Done), Some(MoveAction::FlagDeleted { uid: 7 })));
    assert!(matches!(m.step(refused()), Some(MoveAction::Stopped(e)) if e == "no"));
}

#[test]
fn a_message_without_id_is_not_looked_up() {
    let mut m = started(delete_imap_message("imap-uid:INBOX:7", false, " "));
    assert_eq!(m.lookup(), None);
    m.step(MoveEvent::Done);
    assert!(matches!(m.step(MoveEvent::Done), Some(MoveAction::Finished(None))));
}

#[test]
fn moves_that_cannot_start_fail() {
    let error = "Cannot identify IMAP message UID";
    assert_eq!(delete_imap_message("gmail", true, "").err(), Some(error.to_string()));
    assert_eq!(
        move_imap_message_to_folder("gmail", archive_targets(), "").err(),
        Some(error.to_string())
    );
    let mut m = started(delete_imap_message(NAME, true, ""));
    assert!(m.step(MoveEvent::Found(vec![])).is_none());
    assert!(matches!(m.step(refused()), Some(MoveAction::Stopped(e)) if e == "no"));
}

#[test]
fn a_search_may_find_nothing() {
    let mut m = started(delete_imap_message(NAME, false, ""));
    m.step(MoveEvent::Done);
    m.step(MoveEvent::Done);
    m.step(MoveEvent::Done);
    assert!(matches!(m.step(MoveEvent::Found(vec![])), Some(MoveAction::Finished(None))));
}

#[test]
fn messages_are_on_one_server_or_none() {
    assert!(remote_of("gmail", "g1") == Remote::Gmail);
    assert!(remote_of("imap", NAME) == Remote::Imap);
    assert!(remote_of("gmail", "local-sent:<a@x>") == Remote::Nowhere);
    assert!(remote_of("imap", "local-sent:<a@x>") == Remote::Nowhere);
}

#[test]
fn deleted_rows_go_to_the_trash_first() {
    let id = Some("<a@x>".to_string());
    assert!(!deletion_is_permanent("Inbox"));
    assert!(deletion_is_permanent("Trash"));
    assert!(matches!(row_after_delete("Trash", Remote::Gmail, &None, &None), RowChange::Delete));
    assert!(matches!(
        row_after_delete("Inbox", Remote::Gmail, &None, &None),
        RowChange::Refile { folder: "Trash", name: None }
    ));
    assert!(matches!(
        row_after_delete("Inbox", Remote::Imap, &at("Trash", 3), &id),
        RowChange::Refile { folder: "Trash", name: Some(n) } if n == "imap-uid:Trash:3:<a@x>"
    ));
    assert!(matches!(row_after_delete("Inbox", Remote::Imap, &None, &id), RowChange::Delete));
    assert!(matches!(
        row_after_delete("Sent", Remote::Nowhere, &None, &None),
        RowChange::Refile { folder: "Trash", name: None }
    ));
}

#[test]
fn messages_are_archived_unless_in_the_trash() {
    assert!(matches!(archive_plan("Inbox", Remote::Imap), Ok(Some(Remote::Imap))));
    assert!(matches!(archive_plan("Archive", Remote::Imap), Ok(None)));
    assert_eq!(
        archive_plan("Trash", Remote::Gmail).err(),
        Some("Restore the message before archiving it".to_string())
    );
    assert!(matches!(
        row_after_archive(Remote::Imap, &at("Archives", 3), " "),
        Ok(RowChange::Refile { folder: "Archive", name: Some(n) }) if n == "imap-uid:Archives:3"
    ));
    assert_eq!(
        row_after_archive(Remote::Imap, &None, "<a@x>").err(),
        Some("No IMAP Archive folder accepted the message".to_string())
    );
    assert!(matches!(
        row_after_archive(Remote::Gmail, &None, "<a@x>"),
        Ok(RowChange::Refile { folder: "Archive", name: None })
    ));
}

#[test]
fn messages_are_marked_on_the_server() {
    let read = mark_imap_message_read(NAME, true).ok().unwrap();
    assert_eq!((read.folder.as_str(), read.uid), ("INBOX", 7));
    assert_eq!(read.command, "+FLAGS.SILENT (\\Seen)");
    assert_eq!(mark_imap_message_read(NAME, false).ok().unwrap().command, "-FLAGS.SILENT (\\Seen)");
    assert_eq!(
        mark_imap_message_read("g1", true).err(),
        Some("Cannot identify IMAP message UID".to_string())
    );
}

#[test]
fn attachments_come_from_the_store_or_from_gmail() {
    let id = || Some("att".to_string());
    assert!(matches!(
        attachment_source(Some(vec![1]), "imap", None),
        Ok(AttachmentSource::Stored(b)) if b == vec![1]
    ));
    assert!(matches!(
        attachment_source(None, "gmail", id()),
        Ok(AttachmentSource::Gmail(s)) if s == "att"
    ));
    assert_eq!(
        attachment_source(None, "gmail", None).err(),
        Some("Missing Gmail attachment id".to_string())
    );
    assert_eq!(
        attachment_source(None, "imap", id()).err(),
        Some("Attachment data was not stored locally. Sync the message again.".to_string())
    );
    assert_eq!(check_save_path("/tmp/x"), Ok(()));
    assert_eq!(check_save_path(""), Err("No save path selected".to_string()));
}

#[test]
fn gmail_keeps_its_own_copy() {
    let (mut d, action) = Dispatch::start("gmail");
    assert!(matches!(action, SendAction::Gmail));
    assert!(matches!(d.step(SendEvent::Done), Some(SendAction::Store)));
    assert!(d.step(SendEvent::Done).is_none());
    assert_eq!((d.copied_to(), d.copy_error()), (None, None));
}

#[test]
fn a_copy_is_put_where_it_is_taken() {
    let (mut d, action) = Dispatch::start("imap");
    assert!(matches!(action, SendAction::Smtp));
    assert!(matches!(d.step(SendEvent::Done), Some(SendAction::Append("Sent"))));
    let no = || SendEvent::Failed("no".to_string());
    assert!(matches!(d.step(no()), Some(SendAction::Append("Sent Items"))));
    assert!(matches!(d.step(no()), Some(SendAction::Append("[Gmail]/Sent Mail"))));
    assert!(matches!(d.step(SendEvent::Done), Some(SendAction::Store)));
    assert_eq!((d.copied_to(), d.copy_error()), (Some("[Gmail]/Sent Mail"), None));
}

#[test]
fn a_mail_without_copy_is_stored() {
    let (mut d, _) = Dispatch::start("imap");
    d.step(SendEvent::Done);
    for e in ["one", "two"] {
        d.step(SendEvent::Failed(e.to_string()));
    }
    assert!(matches!(d.step(SendEvent::Failed("three".to_string())), Some(SendAction::Store)));
    assert_eq!(d.copy_error(), Some("three".to_string()));
    let (mut d, _) = Dispatch::start("imap");
    assert!(d.step(SendEvent::Offline("off".to_string())).is_none());
    d.step(SendEvent::Done);
    assert!(matches!(d.step(SendEvent::Offline("off".to_string())), Some(SendAction::Store)));
    assert_eq!(d.copy_error(), Some("off".to_string()));
}

#[test]
fn a_mail_that_was_not_sent_is_not_stored() {
    for provider in ["gmail", "imap"] {
        let (mut d, _) = Dispatch::start(provider);
        let end = d.step(SendEvent::Failed("no".to_string()));
        assert!(matches!(end, Some(SendAction::Stopped(e)) if e == "no"));
    }
}
