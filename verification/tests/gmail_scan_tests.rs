use mailwind::gmail_scan::{GmailAction, GmailEvent, GmailScan};
use mailwind::json::Json;

fn text(s: &str) -> Json {
    Json::Text(s.to_string())
}

fn object(members: Vec<(&str, Json)>) -> Json {
    Json::Object(members.into_iter().map(|(k, v)| (k.to_string(), v)).collect())
}

fn page(ids: &[&str], next: Option<&str>) -> Json {
    let items = ids.iter().map(|id| object(vec![("id", text(id))])).collect();
    let mut members = vec![("messages", Json::Array(items))];
    if let Some(next) = next {
        members.push(("nextPageToken", text(next)));
    }
    object(members)
}

fn message(id: &str, unread: bool) -> Json {
    let labels = if unread { vec![text("UNREAD")] } else { vec![] };
    object(vec![("id", text(id)), ("labelIds", Json::Array(labels))])
}

fn known(ids: &[&str]) -> GmailEvent {
    GmailEvent::Known(ids.iter().map(|s| s.to_string()).collect())
}

#[test]
fn a_sync_goes_through_every_folder() {
    let (mut scan, mut action) = GmailScan::sync();
    let mut folders = Vec::new();
    let mut urls = Vec::new();
    loop {
        let event = match action {
            GmailAction::LoadKnown { folder } => {
                folders.push(folder);
                known(&[])
            }
            GmailAction::List { url } => {
                urls.push(url);
                GmailEvent::Page(Json::Null)
            }
            GmailAction::LoadRows { folder } => {
                assert_eq!(Some(&folder), folders.last());
                GmailEvent::Rows(vec![(5, "gone".to_string())])
            }
            GmailAction::DeleteRows(ids) => {
                assert_eq!(ids, vec![5]);
                GmailEvent::Done
            }
            GmailAction::Finished => break,
            _ => panic!("nothing to fetch"),
        };
        action = scan.step(event).unwrap();
    }
    assert_eq!(folders, vec!["Inbox", "Sent", "Trash", "Archive"]);
    assert_eq!(urls.len(), 4);
    assert!(urls[0].ends_with("?maxResults=100&labelIds=INBOX"));
    assert!(urls[3].ends_with("?maxResults=100&q=-in%3Ainbox%20-in%3Asent%20-in%3Atrash"));
    assert_eq!(scan.stored(), 0);
}

#[test]
fn a_sync_fetches_every_page() {
    let (mut scan, action) = GmailScan::sync();
    assert!(matches!(action, GmailAction::LoadKnown { folder } if folder == "Inbox"));
    assert!(matches!(scan.step(known(&["a"])), Some(GmailAction::List { .. })));
    let first = scan.step(GmailEvent::Page(page(&["a", "b"], Some("next"))));
    assert!(matches!(first, Some(GmailAction::Fetch { url }) if url.ends_with("/a?format=full")));
    let stored = scan.step(GmailEvent::Message(message("a", false), 9));
    assert!(matches!(stored, Some(GmailAction::Store(m)) if m.provider_message_id == "a"));
    let second = scan.step(GmailEvent::Done);
    assert!(matches!(second, Some(GmailAction::Fetch { url }) if url.ends_with("/b?format=full")));
    assert!(matches!(
        scan.step(GmailEvent::Message(message("b", true), 9)),
        Some(GmailAction::Store(m)) if !m.is_read
    ));
    let list = scan.step(GmailEvent::Done);
    assert!(matches!(list, Some(GmailAction::List { url }) if url.ends_with("&pageToken=next")));
    let rows = scan.step(GmailEvent::Page(page(&[], None)));
    assert!(matches!(rows, Some(GmailAction::LoadRows { folder }) if folder == "Inbox"));
    let delete = scan.step(GmailEvent::Rows(vec![
        (1, "a".to_string()),
        (2, "old".to_string()),
        (3, "b".to_string()),
    ]));
    assert!(matches!(delete, Some(GmailAction::DeleteRows(ids)) if ids == vec![2]));
    assert!(matches!(
        scan.step(GmailEvent::Done),
        Some(GmailAction::LoadKnown { folder }) if folder == "Sent"
    ));
    assert_eq!(scan.stored(), 2);
}

#[test]
fn a_sync_keeps_what_was_sent_from_here() {
    let (mut scan, _) = GmailScan::sync();
    scan.step(known(&[]));
    scan.step(GmailEvent::Page(page(&[], None)));
    let delete = scan.step(GmailEvent::Rows(vec![
        (1, "local-sent:<a@x>".to_string()),
        (2, "gone".to_string()),
        (3, "local-sent".to_string()),
    ]));
    assert!(matches!(delete, Some(GmailAction::DeleteRows(ids)) if ids == vec![2, 3]));
}

#[test]
fn a_poll_stores_what_is_new_and_updates_the_rest() {
    let (mut scan, action) = GmailScan::poll();
    assert!(matches!(action, GmailAction::List { url } if url.ends_with("?maxResults=30&labelIds=INBOX")));
    let load = scan.step(GmailEvent::Page(page(&["a", "b"], Some("ignored"))));
    assert!(matches!(load, Some(GmailAction::LoadKnown { folder }) if folder == "Inbox"));
    assert!(matches!(scan.step(known(&["a"])), Some(GmailAction::Fetch { .. })));
    assert!(matches!(
        scan.step(GmailEvent::Message(message("a", false), 9)),
        Some(GmailAction::UpdateRead { id, is_read: true }) if id == "a"
    ));
    assert!(matches!(scan.step(GmailEvent::Updated(true)), Some(GmailAction::Fetch { .. })));
    assert!(matches!(
        scan.step(GmailEvent::Message(message("b", false), 9)),
        Some(GmailAction::Store(_))
    ));
    assert!(matches!(scan.step(GmailEvent::Done), Some(GmailAction::Finished)));
    assert_eq!((scan.stored(), scan.changed()), (1, 1));
}

#[test]
fn an_unexpected_event_changes_nothing() {
    let (mut scan, _) = GmailScan::poll();
    assert!(scan.step(GmailEvent::Done).is_none());
    assert!(matches!(scan.step(GmailEvent::Page(Json::Null)), Some(GmailAction::Finished)));
}
