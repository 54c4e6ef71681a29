use mailwind::actions::RowChange;
use mailwind::changes::{
    Goal, MarkAction, MarkEvent, Marking, Relocation, RelocationAction, RelocationEvent,
};
use mailwind::moves::{MoveAction, MoveEvent};

const NAME: &str = "imap-uid:INBOX:7:<a@x>";
const LOCAL: &str = "local-sent:<a@x>";

fn refused() -> RelocationEvent {
    RelocationEvent::Refused("no".to_string())
}

fn done() -> RelocationEvent {
    RelocationEvent::Imap(MoveEvent::Done)
}

fn failed(error: &str) -> RelocationEvent {
    RelocationEvent::Imap(MoveEvent::Failed(error.to_string()))
}

fn stopped(action: Option<RelocationAction>, error: &str) -> bool {
    matches!(action, Some(RelocationAction::Stopped(e)) if e == error)
}

fn refiled(action: Option<RelocationAction>, to: &str, new_name: Option<&str>) -> bool {
    matches!(
        action,
        Some(RelocationAction::Row(RowChange::Refile { folder, name }))
            if folder == to && name.as_deref() == new_name
    )
}

#[test]
fn gmail_is_asked_before_the_row_changes() {
    let (mut r, first) = Relocation::start(Goal::Delete, "gmail", "18f", "Inbox", "<a@x>");
    assert!(matches!(first, RelocationAction::GmailDelete { permanent: false }));
    assert!(r.step(done()).is_none());
    assert!(refiled(r.step(RelocationEvent::Done), "Trash", None));
    assert!(r.step(RelocationEvent::Done).is_none());

    let (mut r, first) = Relocation::start(Goal::Delete, "gmail", "18f", "Trash", "");
    assert!(matches!(first, RelocationAction::GmailDelete { permanent: true }));
    assert!(matches!(
        r.step(RelocationEvent::Done),
        Some(RelocationAction::Row(RowChange::Delete))
    ));

    let (mut r, first) = Relocation::start(Goal::Archive, "gmail", "18f", "Inbox", "");
    assert!(matches!(first, RelocationAction::GmailArchive));
    assert!(refiled(r.step(RelocationEvent::Done), "Archive", None));
}

#[test]
fn a_refusal_leaves_the_row() {
    for goal in [Goal::Delete, Goal::Archive] {
        let (mut r, _) = Relocation::start(goal, "gmail", "18f", "Inbox", "");
        assert!(stopped(r.step(refused()), "no"));
        assert!(r.step(RelocationEvent::Done).is_none());
        let (mut r, first) = Relocation::start(goal, "imap", NAME, "Inbox", "");
        assert!(matches!(first, RelocationAction::Imap(MoveAction::Select(f)) if f == "INBOX"));
        assert!(r.step(RelocationEvent::Done).is_none());
        assert!(stopped(r.step(refused()), "no"));
        let (mut r, _) = Relocation::start(goal, "imap", NAME, "Inbox", "");
        assert!(stopped(r.step(failed("gone")), "gone"));
        let (_, first) = Relocation::start(goal, "imap", "no such name", "Inbox", "");
        assert!(matches!(first, RelocationAction::Stopped(_)));
    }
}

#[test]
fn an_imap_message_is_found_again_before_its_row_changes() {
    let (mut r, _) = Relocation::start(Goal::Delete, "imap", NAME, "Inbox", "");
    assert!(matches!(
        r.step(done()),
        Some(RelocationAction::Imap(MoveAction::Move { uid: 7, target })) if target == "Trash"
    ));
    assert!(matches!(
        r.step(done()),
        Some(RelocationAction::Imap(MoveAction::Select(f))) if f == "Trash"
    ));
    assert!(matches!(r.step(done()), Some(RelocationAction::Imap(MoveAction::Search(_)))));
    let found = RelocationEvent::Imap(MoveEvent::Found(vec![4, 9]));
    assert!(refiled(r.step(found), "Trash", Some("imap-uid:Trash:9:<a@x>")));
}

#[test]
fn a_message_that_no_archive_takes_is_not_archived() {
    let (mut r, _) = Relocation::start(Goal::Archive, "imap", NAME, "Inbox", "");
    r.step(done());
    for _ in 0..3 {
        assert!(matches!(r.step(failed("no")), Some(RelocationAction::Imap(_))));
    }
    assert!(stopped(r.step(failed("no")), "No IMAP Archive folder accepted the message"));
}

#[test]
fn a_message_deleted_for_good_is_flagged() {
    let (mut r, _) = Relocation::start(Goal::Delete, "imap", NAME, "Trash", "");
    assert!(matches!(
        r.step(done()),
        Some(RelocationAction::Imap(MoveAction::FlagDeleted { uid: 7 }))
    ));
    assert!(matches!(r.step(done()), Some(RelocationAction::Imap(MoveAction::Expunge { uid: 7 }))));
    assert!(matches!(r.step(done()), Some(RelocationAction::Row(RowChange::Delete))));
    let (mut r, _) = Relocation::start(Goal::Delete, "imap", NAME, "Trash", "");
    r.step(done());
    assert!(stopped(r.step(failed("read-only")), "read-only"));
}

#[test]
fn what_was_sent_from_here_changes_here_alone() {
    for provider in ["gmail", "imap"] {
        let (mut r, first) = Relocation::start(Goal::Delete, provider, LOCAL, "Sent", "<a@x>");
        assert!(refiled(Some(first), "Trash", None));
        assert!(r.step(RelocationEvent::Done).is_none());
        let (_, first) = Relocation::start(Goal::Archive, provider, LOCAL, "Sent", "<a@x>");
        assert!(refiled(Some(first), "Archive", None));
        let (_, first) = Relocation::start(Goal::Delete, provider, LOCAL, "Trash", "<a@x>");
        assert!(matches!(first, RelocationAction::Row(RowChange::Delete)));
    }
}

#[test]
fn archived_and_deleted_messages_are_not_archived() {
    let (mut r, first) = Relocation::start(Goal::Archive, "gmail", "18f", "Archive", "");
    assert!(matches!(first, RelocationAction::Unchanged));
    assert!(r.step(RelocationEvent::Done).is_none());
    let (_, first) = Relocation::start(Goal::Archive, "imap", NAME, "Trash", "");
    assert!(stopped(Some(first), "Restore the message before archiving it"));
}

fn names(list: &[&str]) -> Vec<String> {
    list.iter().map(|s| s.to_string()).collect()
}

#[test]
fn rows_are_marked_when_the_server_has_marked_all() {
    let list = names(&[LOCAL, "a", LOCAL, "b", LOCAL]);
    let (mut m, first) = Marking::start("gmail", list, true);
    assert!(matches!(first, MarkAction::Gmail(name) if name == "a"));
    assert!(matches!(m.step(MarkEvent::Done), Some(MarkAction::Gmail(name)) if name == "b"));
    assert!(matches!(m.step(MarkEvent::Done), Some(MarkAction::Rows)));
    assert!(m.step(MarkEvent::Done).is_none());
    assert!(matches!(Marking::start("imap", names(&[LOCAL]), true).1, MarkAction::Rows));
    assert!(matches!(Marking::start("gmail", vec![], false).1, MarkAction::Rows));
}

#[test]
fn a_refused_mark_leaves_the_rows() {
    let (mut m, first) = Marking::start("imap", names(&[NAME, "imap-uid:Sent:8"]), false);
    assert!(matches!(
        first,
        MarkAction::Imap(c)
            if c.folder == "INBOX" && c.uid == 7 && c.command == "-FLAGS.SILENT (\\Seen)"
    ));
    assert!(matches!(m.step(MarkEvent::Done), Some(MarkAction::Imap(c)) if c.uid == 8));
    let refused = MarkEvent::Refused("no".to_string());
    assert!(matches!(m.step(refused), Some(MarkAction::Stopped(e)) if e == "no"));
    assert!(m.step(MarkEvent::Done).is_none());
    let (mut m, _) = Marking::start("imap", names(&[NAME, "no such name"]), true);
    assert!(matches!(m.step(MarkEvent::Done), Some(MarkAction::Stopped(_))));
}
