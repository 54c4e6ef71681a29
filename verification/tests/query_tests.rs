use mailwind::query::{
    attachments_of_message, attachments_query, count_messages_query, folder_summaries,
    list_messages_query, message_where_clause, page_window, read_filter_value, thread_ids_query,
    thread_messages_query, thread_read_update, AttachmentSummary, MessageFilter, SqlValue,
};
use mailwind::search::fts_query_value;
use rusqlite::types::Value;
use rusqlite::Connection;

fn filter() -> MessageFilter {
    MessageFilter {
        folder: None,
        account_id: None,
        query: None,
        read_filter: None,
        page: None,
        page_size: None,
    }
}

fn values(list: Vec<SqlValue>) -> Vec<Value> {
    list.into_iter()
        .map(|v| match v {
            SqlValue::Text(s) => Value::Text(s),
            SqlValue::Integer(n) => Value::Integer(n),
        })
        .collect()
}

fn store() -> Connection {
    let conn = Connection::open_in_memory().unwrap();
    conn.execute_batch(
        "
        CREATE TABLE accounts (id INTEGER PRIMARY KEY, provider TEXT, email TEXT);
        CREATE TABLE messages (
            id INTEGER PRIMARY KEY, account_id INTEGER, provider_message_id TEXT DEFAULT '',
            thread_id TEXT, message_header_id TEXT DEFAULT '', in_reply_to TEXT DEFAULT '',
            references_header TEXT DEFAULT '', normalized_subject TEXT DEFAULT '', folder TEXT,
            subject TEXT, from_addr TEXT DEFAULT '', to_addr TEXT DEFAULT '',
            cc_addr TEXT DEFAULT '', date_ts INTEGER, snippet TEXT DEFAULT '',
            body TEXT DEFAULT '', body_mime TEXT DEFAULT '', is_read INTEGER, updated_at INTEGER);
        CREATE TABLE attachments (
            id INTEGER PRIMARY KEY, message_id INTEGER, filename TEXT, mime_type TEXT,
            size INTEGER);
        CREATE VIRTUAL TABLE messages_fts USING fts5(subject, from_addr, to_addr, body);
        INSERT INTO accounts VALUES (1, 'imap', 'a@x'), (2, 'gmail', 'b@x');
        INSERT INTO messages (id, account_id, thread_id, folder, subject, date_ts, is_read) VALUES
            (1, 1, 't1', 'Inbox', 'hello world', 10, 1),
            (2, 1, 't1', 'Inbox', 'Re: hello world', 20, 0),
            (3, 2, 't2', 'Inbox', 'other', 30, 1),
            (4, 1, 't1', 'Trash', 'gone', 40, 0);
        INSERT INTO messages_fts(rowid, subject, from_addr, to_addr, body)
            SELECT id, subject, from_addr, to_addr, body FROM messages;
        INSERT INTO attachments VALUES (7, 2, 'a.txt', 'text/plain', 3), (8, 3, 'b', 'c', 4);
        ",
    )
    .unwrap();
    conn
}

fn listed(filter: &MessageFilter) -> Vec<(i64, i64, i64)> {
    let conn = store();
    let (sql, params) = list_messages_query(filter);
    let mut stmt = conn.prepare(&sql).unwrap();
    let rows = stmt
        .query_map(rusqlite::params_from_iter(values(params)), |row| {
            Ok((row.get(0)?, row.get(20)?, row.get(21)?))
        })
        .unwrap();
    rows.map(|row| row.unwrap()).collect()
}

fn counted(filter: &MessageFilter) -> i64 {
    let (sql, params) = count_messages_query(filter);
    store().query_row(&sql, rusqlite::params_from_iter(values(params)), |row| row.get(0)).unwrap()
}

#[test]
fn clauses_carry_their_values() {
    let (sql, params) = message_where_clause(None, None, None, None);
    assert_eq!((sql.as_str(), params.len()), ("1 = 1", 0));
    let (sql, params) = message_where_clause(Some("Inbox"), Some(3), Some(0), Some("x*".to_string()));
    assert_eq!(
        sql,
        "messages_fts MATCH ? AND m.folder = ? AND m.account_id = ? AND m.is_read = ?"
    );
    assert_eq!(
        values(params),
        vec![
            Value::Text("x*".to_string()),
            Value::Text("Inbox".to_string()),
            Value::Integer(3),
            Value::Integer(0),
        ]
    );
}

#[test]
fn read_filters_are_read() {
    assert_eq!(read_filter_value(Some("read")), Some(1));
    assert_eq!(read_filter_value(Some("unread")), Some(0));
    assert_eq!(read_filter_value(Some("all")), None);
    assert_eq!(read_filter_value(None), None);
}

#[test]
fn pages_stay_within_bounds() {
    assert_eq!(page_window(&filter()), (0, 50));
    let at = |page, page_size| page_window(&MessageFilter { page, page_size, ..filter() });
    assert_eq!(at(Some(-3), Some(1)), (0, 10));
    assert_eq!(at(Some(3), Some(1000)), (3, 100));
    assert_eq!(at(Some(3), Some(25)), (3, 25));
}

#[test]
fn threads_are_listed_newest_first() {
    let inbox = MessageFilter { folder: Some("Inbox".to_string()), ..filter() };
    assert_eq!(listed(&inbox), vec![(3, 1, 0), (2, 2, 1)]);
    assert_eq!(counted(&inbox), 2);
    assert_eq!(listed(&filter()), vec![(4, 3, 2), (3, 1, 0)]);
}

#[test]
fn filters_narrow_the_list() {
    let one = MessageFilter { account_id: Some(2), ..filter() };
    assert_eq!(listed(&one), vec![(3, 1, 0)]);
    assert_eq!(counted(&one), 1);
    let unread = MessageFilter { read_filter: Some("unread".to_string()), ..filter() };
    assert_eq!(listed(&unread), vec![(4, 2, 2)]);
    let later = MessageFilter { page: Some(1), ..filter() };
    assert_eq!(listed(&later), vec![]);
}

#[test]
fn searches_match_prefixes_and_phrases() {
    let find = |q: &str| MessageFilter { query: Some(q.to_string()), ..filter() };
    assert_eq!(listed(&find("hel")), vec![(2, 2, 1)]);
    assert_eq!(listed(&find("\"hello world\"")), vec![(2, 2, 1)]);
    assert_eq!(listed(&find("\"world hello\"")), vec![]);
    assert_eq!(counted(&find("oth")), 1);
    assert_eq!(fts_query_value("!!"), None);
    assert_eq!(counted(&find("!!")), 2);
}

#[test]
fn a_thread_is_shown_in_order() {
    let conn = store();
    let ids = |folder: Option<&str>| {
        let mut stmt = conn.prepare(&thread_messages_query(folder)).unwrap();
        let rows = stmt
            .query_map(rusqlite::params_from_iter(vec![Value::Integer(1), Value::Text("t1".to_string())]), |row| {
                Ok((row.get::<_, i64>(0)?, row.get::<_, i64>(20)?, row.get::<_, i64>(21)?))
            })
            .unwrap();
        rows.map(|row| row.unwrap()).collect::<Vec<_>>()
    };
    assert_eq!(ids(None), vec![(1, 3, 2), (2, 3, 2), (4, 3, 2)]);
    assert_eq!(ids(Some("Inbox")), vec![(1, 2, 1), (2, 2, 1)]);
    assert_eq!(ids(Some("Trash")), vec![(4, 1, 1)]);
}

#[test]
fn a_thread_is_marked_outside_or_inside_the_trash() {
    let conn = store();
    let marked = conn
        .execute(
            &thread_read_update(Some("Inbox")),
            rusqlite::params_from_iter(vec![
                Value::Integer(1),
                Value::Integer(99),
                Value::Integer(1),
                Value::Text("t1".to_string()),
            ]),
        )
        .unwrap();
    assert_eq!(marked, 2);
    let unread: i64 = conn
        .query_row("SELECT COUNT(*) FROM messages WHERE is_read = 0", [], |row| row.get(0))
        .unwrap();
    assert_eq!(unread, 1);
    let mut stmt = conn.prepare(&thread_ids_query(Some("Trash"))).unwrap();
    let rows = stmt
        .query_map(rusqlite::params_from_iter(vec![Value::Integer(1), Value::Text("t1".to_string())]), |row| {
            row.get::<_, i64>(0)
        })
        .unwrap();
    assert_eq!(rows.map(|row| row.unwrap()).collect::<Vec<_>>(), vec![4]);
}

#[test]
fn folders_are_always_shown() {
    let rows = vec![
        ("Trash".to_string(), 4, 1),
        ("Unknown".to_string(), 9, 9),
        ("Inbox".to_string(), 2, 2),
    ];
    let list = folder_summaries(&rows);
    let shown: Vec<(&str, i64, i64)> =
        list.iter().map(|f| (f.name.as_str(), f.count, f.unread_count)).collect();
    assert_eq!(
        shown,
        vec![("Inbox", 2, 2), ("Sent", 0, 0), ("Trash", 4, 1), ("Archive", 0, 0)]
    );
}

#[test]
fn attachments_are_found_for_their_messages() {
    let conn = store();
    let sql = attachments_query(2);
    let mut stmt = conn.prepare(&sql).unwrap();
    let rows: Vec<(i64, AttachmentSummary)> = stmt
        .query_map([2i64, 3], |row| {
            Ok((
                row.get(0)?,
                AttachmentSummary {
                    id: row.get(1)?,
                    filename: row.get(2)?,
                    mime_type: row.get(3)?,
                    size: row.get(4)?,
                },
            ))
        })
        .unwrap()
        .map(|row| row.unwrap())
        .collect();
    let own = attachments_of_message(&rows, 3);
    assert_eq!(own.len(), 1);
    assert_eq!((own[0].id, own[0].filename.as_str(), own[0].size), (8, "b", 4));
    assert!(attachments_of_message(&rows, 1).is_empty());
}
