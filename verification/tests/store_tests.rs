use mailwind::store::{
    backfill_message, index_needs_rebuild, missing_metadata_columns, read_flag, read_state_change,
    sqlite_database_files,
};

#[test]
fn missing_columns_are_added() {
    let all = missing_metadata_columns(&vec![]);
    assert_eq!(all.len(), 4);
    assert_eq!(
        all[0],
        "ALTER TABLE messages ADD COLUMN message_header_id TEXT NOT NULL DEFAULT ''"
    );
    let some = missing_metadata_columns(&vec!["in_reply_to".to_string(), "id".to_string()]);
    assert_eq!(some.len(), 3);
    let names = ["normalized_subject", "references_header", "in_reply_to", "message_header_id"];
    let none = missing_metadata_columns(&names.map(String::from).to_vec());
    assert!(none.is_empty());
}

#[test]
fn old_rows_are_filled_in() {
    let b = backfill_message("imap-uid:INBOX:1:<A@x>", "old", " Re:  Hello ", "", " ");
    assert_eq!(b.subject, "Re: Hello");
    assert_eq!(b.normalized_subject, "hello");
    assert_eq!(b.message_header_id, "<A@x>");
    assert_eq!(b.thread_id, "subject:hello");
    let again = backfill_message(
        "imap-uid:INBOX:1:<A@x>",
        &b.thread_id,
        &b.subject,
        &b.message_header_id,
        &b.normalized_subject,
    );
    assert_eq!(again.subject, b.subject);
    assert_eq!(again.normalized_subject, b.normalized_subject);
    assert_eq!(again.message_header_id, b.message_header_id);
    assert_eq!(again.thread_id, b.thread_id);
}

#[test]
fn an_index_with_gaps_is_rebuilt() {
    assert!(!index_needs_rebuild(0, 0));
    assert!(index_needs_rebuild(1, 0));
    assert!(index_needs_rebuild(0, 1));
}

#[test]
fn read_states_change_once() {
    assert_eq!((read_flag(true), read_flag(false)), (1, 0));
    assert_eq!(read_state_change(Some(0), true), (Some(1), true));
    assert_eq!(read_state_change(Some(1), true), (None, false));
    assert_eq!(read_state_change(None, true), (Some(1), false));
    assert_eq!(read_state_change(Some(1), false), (Some(0), true));
}

#[test]
fn a_database_has_three_files() {
    assert_eq!(
        sqlite_database_files("/d/mailwind.sqlite3"),
        vec!["/d/mailwind.sqlite3", "/d/mailwind.sqlite3-wal", "/d/mailwind.sqlite3-shm"]
    );
}
