//! Queries to the store: which messages are listed, on which page, and in which
//! folders.
use vstd::prelude::*;
use vstd::string::*;

use crate::search::{fts_query_value, full_text_query};
use crate::text::{
    blank, cat, cat3, contains_text, copy, is_blank, join, join_strings, opt_as_str, opt_str,
    opt_text, same, stands_at, starts, texts,
};

verus! {

// ---------------------------------------------------------------------------
// Conditions
// ---------------------------------------------------------------------------
/// A value that is bound to a placeholder of a query.
pub enum SqlValue {
    Text(String),
    Integer(i64),
}

/// The view of a [`SqlValue`].
pub enum SqlView {
    Text(Seq<char>),
    Integer(i64),
}

impl View for SqlValue {
    type V = SqlView;

    open spec fn view(&self) -> SqlView {
        match *self {
            SqlValue::Text(s) => SqlView::Text(s@),
            SqlValue::Integer(n) => SqlView::Integer(n),
        }
    }
}

/// The views of a list of values.
pub open spec fn sql_views(values: Seq<SqlValue>) -> Seq<SqlView> {
    Seq::new(values.len(), |i: int| values[i]@)
}

/// A condition, where it is asked for.
pub open spec fn clause(asked: bool, text: Seq<char>) -> Seq<Seq<char>> {
    if asked {
        seq![text]
    } else {
        Seq::empty()
    }
}

/// The conditions of a list of messages.
pub open spec fn where_clauses(
    folder: Option<Seq<char>>,
    account_id: Option<i64>,
    read_filter: Option<i64>,
    fts_query: Option<Seq<char>>,
) -> Seq<Seq<char>> {
    clause(fts_query is Some, "messages_fts MATCH ?"@) + clause(
        folder is Some,
        "m.folder = ?"@,
    ) + clause(account_id is Some, "m.account_id = ?"@) + clause(
        read_filter is Some,
        "m.is_read = ?"@,
    )
}

/// All conditions in one, or one that always holds.
pub open spec fn where_text(clauses: Seq<Seq<char>>) -> Seq<char> {
    if clauses.len() == 0 {
        "1 = 1"@
    } else {
        join(clauses, " AND "@)
    }
}

/// A text, where there is one, as the value of a condition.
pub open spec fn text_param(value: Option<Seq<char>>) -> Seq<SqlView> {
    match value {
        Some(s) => seq![SqlView::Text(s)],
        None => Seq::empty(),
    }
}

/// A number, where there is one, as the value of a condition.
pub open spec fn integer_param(value: Option<i64>) -> Seq<SqlView> {
    match value {
        Some(n) => seq![SqlView::Integer(n)],
        None => Seq::empty(),
    }
}

/// The values of the conditions of a list of messages.
pub open spec fn where_params(
    folder: Option<Seq<char>>,
    account_id: Option<i64>,
    read_filter: Option<i64>,
    fts_query: Option<Seq<char>>,
) -> Seq<SqlView> {
    text_param(fts_query) + text_param(folder) + integer_param(account_id) + integer_param(
        read_filter,
    )
}

/// The conditions of a list of messages, and their values.
pub fn message_where_clause(
    folder: Option<&str>,
    account_id: Option<i64>,
    read_filter: Option<i64>,
    fts_query: Option<String>,
) -> (r: (String, Vec<SqlValue>))
    ensures
        r.0@ == where_text(
            where_clauses(opt_str(folder), account_id, read_filter, opt_text(fts_query)),
        ),
        sql_views(r.1@) == where_params(
            opt_str(folder),
            account_id,
            read_filter,
            opt_text(fts_query),
        ),
{
    let ghost query = opt_text(fts_query);
    let mut clauses: Vec<String> = Vec::new();
    let mut params: Vec<SqlValue> = Vec::new();
    if let Some(fts_query) = fts_query {
        clauses.push("messages_fts MATCH ?".to_owned());
        params.push(SqlValue::Text(fts_query));
    }
    assert(texts(clauses@) =~= clause(query is Some, "messages_fts MATCH ?"@));
    assert(sql_views(params@) =~= text_param(query));
    if let Some(folder) = folder {
        clauses.push("m.folder = ?".to_owned());
        params.push(SqlValue::Text(folder.to_owned()));
    }
    assert(texts(clauses@) =~= clause(query is Some, "messages_fts MATCH ?"@) + clause(
        folder is Some,
        "m.folder = ?"@,
    ));
    assert(sql_views(params@) =~= text_param(query) + text_param(opt_str(folder)));
    if let Some(account_id) = account_id {
        clauses.push("m.account_id = ?".to_owned());
        params.push(SqlValue::Integer(account_id));
    }
    assert(texts(clauses@) =~= clause(query is Some, "messages_fts MATCH ?"@) + clause(
        folder is Some,
        "m.folder = ?"@,
    ) + clause(account_id is Some, "m.account_id = ?"@));
    assert(sql_views(params@) =~= text_param(query) + text_param(opt_str(folder)) + integer_param(
        account_id,
    ));
    if let Some(read_filter) = read_filter {
        clauses.push("m.is_read = ?".to_owned());
        params.push(SqlValue::Integer(read_filter));
    }
    assert(texts(clauses@) =~= where_clauses(opt_str(folder), account_id, read_filter, query));
    assert(sql_views(params@) =~= where_params(opt_str(folder), account_id, read_filter, query));
    assert(clauses.len() == texts(clauses@).len());
    if clauses.len() == 0 {
        ("1 = 1".to_owned(), params)
    } else {
        (join_strings(&clauses, " AND "), params)
    }
}

/// The read state that a filter asks for, as it is stored; nothing where it asks
/// for none.
pub open spec fn read_filter_of(value: Option<Seq<char>>) -> Option<i64> {
    if value == Some("read"@) {
        Some(1)
    } else if value == Some("unread"@) {
        Some(0)
    } else {
        None
    }
}

/// Computes [`read_filter_of`].
pub fn read_filter_value(value: Option<&str>) -> (r: Option<i64>)
    ensures
        r == read_filter_of(opt_str(value)),
{
    match value {
        Some(value) => {
            proof {
                reveal_strlit("read");
                reveal_strlit("unread");
            }
            if same(value, "read") {
                Some(1)
            } else if same(value, "unread") {
                Some(0)
            } else {
                None
            }
        },
        None => None,
    }
}

// ---------------------------------------------------------------------------
// Pages
// ---------------------------------------------------------------------------
/// Which messages are asked for.
pub struct MessageFilter {
    pub folder: Option<String>,
    pub account_id: Option<i64>,
    pub query: Option<String>,
    pub read_filter: Option<String>,
    pub page: Option<i64>,
    pub page_size: Option<i64>,
}

/// The number of a page: the first where none is asked for, or one before the
/// first.
pub open spec fn page_number(page: Option<i64>) -> i64 {
    match page {
        Some(p) => if p < 0 {
            0
        } else {
            p
        },
        None => 0,
    }
}

/// The size of a page: from ten to a hundred, fifty where none is asked for.
pub open spec fn page_size_of(size: Option<i64>) -> i64 {
    match size {
        Some(n) => if n < 10 {
            10
        } else if n > 100 {
            100
        } else {
            n
        },
        None => 50,
    }
}

/// Number and size of the page that is asked for.
pub fn page_window(filter: &MessageFilter) -> (r: (i64, i64))
    ensures
        r.0 == page_number(filter.page),
        r.1 == page_size_of(filter.page_size),
        r.0 >= 0,
        10 <= r.1 <= 100,
{
    let page: i64 = match filter.page {
        Some(p) => if p < 0 {
            0
        } else {
            p
        },
        None => 0,
    };
    let size: i64 = match filter.page_size {
        Some(n) => if n < 10 {
            10
        } else if n > 100 {
            100
        } else {
            n
        },
        None => 50,
    };
    (page, size)
}

/// The text of the search.
pub open spec fn query_of(filter: MessageFilter) -> Seq<char> {
    match filter.query {
        Some(q) => q@,
        None => Seq::empty(),
    }
}

/// The conditions of the messages that a filter asks for.
pub open spec fn filter_where(filter: MessageFilter) -> Seq<char> {
    where_text(
        where_clauses(
            opt_text(filter.folder),
            filter.account_id,
            read_filter_of(opt_text(filter.read_filter)),
            full_text_query(query_of(filter)),
        ),
    )
}

/// The values of the conditions of the messages that a filter asks for.
pub open spec fn filter_params(filter: MessageFilter) -> Seq<SqlView> {
    where_params(
        opt_text(filter.folder),
        filter.account_id,
        read_filter_of(opt_text(filter.read_filter)),
        full_text_query(query_of(filter)),
    )
}

/// Where the messages that a filter asks for come from: from the messages, or
/// from the full-text index where there is something to search for.
pub open spec fn filtered_from(columns: Seq<char>, filter: MessageFilter) -> Seq<char> {
    if blank(query_of(filter)) {
        "SELECT "@ + columns + " FROM messages m WHERE "@ + filter_where(filter)
    } else {
        "SELECT "@ + columns
            + " FROM messages_fts JOIN messages m ON m.id = messages_fts.rowid WHERE "@
            + filter_where(filter)
    }
}

/// Computes [`filtered_from`], with the values of its conditions.
fn filtered_query(columns: &str, filter: &MessageFilter) -> (r: (String, Vec<SqlValue>))
    ensures
        r.0@ == filtered_from(columns@, *filter),
        sql_views(r.1@) == filter_params(*filter),
{
    let query = match &filter.query {
        Some(q) => copy(q),
        None => String::new(),
    };
    let fts = fts_query_value(query.as_str());
    let read_filter = read_filter_value(opt_as_str(&filter.read_filter));
    let (condition, params) = message_where_clause(
        opt_as_str(&filter.folder),
        filter.account_id,
        read_filter,
        fts,
    );
    let source = if is_blank(query.as_str()) {
        " FROM messages m WHERE "
    } else {
        " FROM messages_fts JOIN messages m ON m.id = messages_fts.rowid WHERE "
    };
    let head = cat3("SELECT ", columns, source);
    (cat(head.as_str(), condition.as_str()), params)
}

/// What comes before the filtered messages in the query for a list.
pub open spec fn list_head() -> Seq<char> {
    "WITH filtered AS ("@
}

/// What follows the filtered messages in the query for a list: of each thread its
/// newest message, with how many messages the thread has and how many of these
/// are unread; one page of them, newest first.
pub open spec fn list_tail() -> Seq<char> {
    "),
             grouped AS (
                SELECT account_id, thread_id,
                       COUNT(*) AS thread_count,
                       "@
        + "COALESCE(SUM(CASE WHEN is_read = 0 THEN 1 ELSE 0 END), 0) AS thread_unread_count"@
        + "
                FROM filtered
                "@
        + "GROUP BY account_id, thread_id"@
        + "
             ),
             picked AS (
                SELECT (
                    SELECT id
                    FROM filtered f
                    "@
        + "WHERE f.account_id = grouped.account_id
                      AND f.thread_id = grouped.thread_id"@
        + "
                    "@
        + "ORDER BY date_ts DESC, id DESC
                    LIMIT 1"@
        + "
                ) AS id,
                thread_count,
                thread_unread_count
                FROM grouped
             )
        SELECT m.id, m.account_id, m.provider_message_id, m.thread_id,
               m.message_header_id, m.in_reply_to, m.references_header, m.normalized_subject,
               m.folder, m.subject, m.from_addr, m.to_addr, m.cc_addr, m.date_ts, m.snippet,
               m.body, m.body_mime, m.is_read, a.email, a.provider,
               picked.thread_count, picked.thread_unread_count
        FROM picked
        "@
        + "JOIN messages m ON m.id = picked.id
        JOIN accounts a ON a.id = m.account_id"@
        + "
        ORDER BY m.date_ts DESC, m.id DESC
        LIMIT ? OFFSET ?"@
}

/// The query for one page of the threads that a filter asks for, and its values.
pub fn list_messages_query(filter: &MessageFilter) -> (r: (String, Vec<SqlValue>))
    requires
        page_number(filter.page) * page_size_of(filter.page_size) <= i64::MAX,
    ensures
        r.0@ == list_head() + filtered_from("m.*"@, *filter) + list_tail(),
        sql_views(r.1@) == filter_params(*filter) + seq![
            SqlView::Integer(page_size_of(filter.page_size)),
            SqlView::Integer(
                (page_number(filter.page) * page_size_of(filter.page_size)) as i64,
            ),
        ],
{
    let (page, page_size) = page_window(filter);
    proof {
        assert(0 <= page * page_size) by (nonlinear_arith)
            requires
                page >= 0,
                page_size >= 10,
        ;
    }
    let offset: i64 = page * page_size;
    let (filtered, mut params) = filtered_query("m.*", filter);
    let ghost before = sql_views(params@);
    params.push(SqlValue::Integer(page_size));
    params.push(SqlValue::Integer(offset));
    assert(sql_views(params@) =~= before + seq![
        SqlView::Integer(page_size),
        SqlView::Integer(offset),
    ]);
    let mut sql = cat("WITH filtered AS (", filtered.as_str());
    sql.append(
        "),
             grouped AS (
                SELECT account_id, thread_id,
                       COUNT(*) AS thread_count,
                       ",
    );
    sql.append("COALESCE(SUM(CASE WHEN is_read = 0 THEN 1 ELSE 0 END), 0) AS thread_unread_count");
    sql.append(
        "
                FROM filtered
                ",
    );
    sql.append("GROUP BY account_id, thread_id");
    sql.append(
        "
             ),
             picked AS (
                SELECT (
                    SELECT id
                    FROM filtered f
                    ",
    );
    sql.append(
        "WHERE f.account_id = grouped.account_id
                      AND f.thread_id = grouped.thread_id",
    );
    sql.append(
        "
                    ",
    );
    sql.append(
        "ORDER BY date_ts DESC, id DESC
                    LIMIT 1",
    );
    sql.append(
        "
                ) AS id,
                thread_count,
                thread_unread_count
                FROM grouped
             )
        SELECT m.id, m.account_id, m.provider_message_id, m.thread_id,
               m.message_header_id, m.in_reply_to, m.references_header, m.normalized_subject,
               m.folder, m.subject, m.from_addr, m.to_addr, m.cc_addr, m.date_ts, m.snippet,
               m.body, m.body_mime, m.is_read, a.email, a.provider,
               picked.thread_count, picked.thread_unread_count
        FROM picked
        ",
    );
    sql.append(
        "JOIN messages m ON m.id = picked.id
        JOIN accounts a ON a.id = m.account_id",
    );
    sql.append(
        "
        ORDER BY m.date_ts DESC, m.id DESC
        LIMIT ? OFFSET ?",
    );
    assert(sql@ =~= list_head() + filtered@ + list_tail());
    (sql, params)
}

/// The query that counts the threads that a filter asks for, and its values.
pub fn count_messages_query(filter: &MessageFilter) -> (r: (String, Vec<SqlValue>))
    ensures
        r.0@ == list_head() + filtered_from("m.account_id, m.thread_id"@, *filter)
            + ") SELECT COUNT(*) FROM (SELECT account_id, thread_id FROM filtered GROUP BY account_id, thread_id)"@,
        sql_views(r.1@) == filter_params(*filter),
{
    let (filtered, params) = filtered_query("m.account_id, m.thread_id", filter);
    let sql = cat3(
        "WITH filtered AS (",
        filtered.as_str(),
        ") SELECT COUNT(*) FROM (SELECT account_id, thread_id FROM filtered GROUP BY account_id, thread_id)",
    );
    (sql, params)
}

// ---------------------------------------------------------------------------
// Threads
// ---------------------------------------------------------------------------
/// Which folders of a thread count: the trash alone when it is looked at from the
/// trash, all others when it is looked at from another folder, and all where no
/// folder is named.
pub open spec fn scope_of(prefix: Seq<char>, folder: Option<Seq<char>>) -> Seq<char> {
    match folder {
        Some(f) => if f == "Trash"@ {
            "AND "@ + prefix + "folder = 'Trash'"@
        } else {
            "AND "@ + prefix + "folder <> 'Trash'"@
        },
        None => Seq::empty(),
    }
}

/// Computes [`scope_of`].
fn folder_scope(prefix: &str, folder: Option<&str>) -> (r: String)
    ensures
        r@ == scope_of(prefix@, opt_str(folder)),
{
    match folder {
        Some(f) => if same(f, "Trash") {
            cat3("AND ", prefix, "folder = 'Trash'")
        } else {
            cat3("AND ", prefix, "folder <> 'Trash'")
        },
        None => String::new(),
    }
}

/// The query for the messages of a thread, oldest first.
pub fn thread_messages_query(folder: Option<&str>) -> (r: String)
    ensures
        r@ == thread_head() + scope_of("m."@, opt_str(folder)) + thread_tail(),
{
    let scope = folder_scope("m.", folder);
    let mut sql = String::new();
    sql.append(
        "
        WITH thread_messages AS (
            SELECT m.id, m.account_id, m.provider_message_id, m.thread_id,
                   m.message_header_id, m.in_reply_to, m.references_header, m.normalized_subject,
                   m.folder, m.subject, m.from_addr, m.to_addr, m.cc_addr, m.date_ts, m.snippet,
                   m.body, m.body_mime, m.is_read, a.email, a.provider
            FROM messages m
            JOIN accounts a ON a.id = m.account_id
            ",
    );
    sql.append("WHERE m.account_id = ? AND m.thread_id = ?");
    sql.append(
        "
            ",
    );
    sql.append(scope.as_str());
    sql.append(
        "
        ),
        thread_stats AS (
            SELECT COUNT(*) AS thread_count,
                   ",
    );
    sql.append("COALESCE(SUM(CASE WHEN is_read = 0 THEN 1 ELSE 0 END), 0) AS thread_unread_count");
    sql.append(
        "
            FROM thread_messages
        )
        SELECT tm.id, tm.account_id, tm.provider_message_id, tm.thread_id,
               tm.message_header_id, tm.in_reply_to, tm.references_header, tm.normalized_subject,
               tm.folder, tm.subject, tm.from_addr, tm.to_addr, tm.cc_addr, tm.date_ts, tm.snippet,
               tm.body, tm.body_mime, tm.is_read, tm.email, tm.provider,
               thread_stats.thread_count, thread_stats.thread_unread_count
        FROM thread_messages tm
        CROSS JOIN thread_stats
        ",
    );
    sql.append("ORDER BY tm.date_ts ASC, tm.id ASC");
    sql.append(
        "
        ",
    );
    assert(sql@ =~= thread_head() + scope@ + thread_tail());
    sql
}

/// What comes before the folders in the query for a thread.
pub open spec fn thread_head() -> Seq<char> {
    "
        WITH thread_messages AS (
            SELECT m.id, m.account_id, m.provider_message_id, m.thread_id,
                   m.message_header_id, m.in_reply_to, m.references_header, m.normalized_subject,
                   m.folder, m.subject, m.from_addr, m.to_addr, m.cc_addr, m.date_ts, m.snippet,
                   m.body, m.body_mime, m.is_read, a.email, a.provider
            FROM messages m
            JOIN accounts a ON a.id = m.account_id
            "@
        + "WHERE m.account_id = ? AND m.thread_id = ?"@
        + "
            "@
}

/// What follows the folders in the query for a thread.
pub open spec fn thread_tail() -> Seq<char> {
    "
        ),
        thread_stats AS (
            SELECT COUNT(*) AS thread_count,
                   "@
        + "COALESCE(SUM(CASE WHEN is_read = 0 THEN 1 ELSE 0 END), 0) AS thread_unread_count"@
        + "
            FROM thread_messages
        )
        SELECT tm.id, tm.account_id, tm.provider_message_id, tm.thread_id,
               tm.message_header_id, tm.in_reply_to, tm.references_header, tm.normalized_subject,
               tm.folder, tm.subject, tm.from_addr, tm.to_addr, tm.cc_addr, tm.date_ts, tm.snippet,
               tm.body, tm.body_mime, tm.is_read, tm.email, tm.provider,
               thread_stats.thread_count, thread_stats.thread_unread_count
        FROM thread_messages tm
        CROSS JOIN thread_stats
        "@
        + "ORDER BY tm.date_ts ASC, tm.id ASC"@
        + "
        "@
}

/// The query for the ids and names of the messages of a thread.
pub fn thread_ids_query(folder: Option<&str>) -> (r: String)
    ensures
        r@ == "SELECT id, provider_message_id FROM messages WHERE account_id = ? AND thread_id = ? "@
            + scope_of(Seq::empty(), opt_str(folder)),
{
    proof {
        reveal_strlit("");
        assert(""@ =~= Seq::<char>::empty());
    }
    let scope = folder_scope("", folder);
    cat(
        "SELECT id, provider_message_id FROM messages WHERE account_id = ? AND thread_id = ? ",
        scope.as_str(),
    )
}

/// The statement that sets the read state of the messages of a thread.
pub fn thread_read_update(folder: Option<&str>) -> (r: String)
    ensures
        r@
            == "UPDATE messages SET is_read = ?, updated_at = ? WHERE account_id = ? AND thread_id = ? "@
            + scope_of(Seq::empty(), opt_str(folder)),
{
    proof {
        reveal_strlit("");
        assert(""@ =~= Seq::<char>::empty());
    }
    let scope = folder_scope("", folder);
    cat(
        "UPDATE messages SET is_read = ?, updated_at = ? WHERE account_id = ? AND thread_id = ? ",
        scope.as_str(),
    )
}

// ---------------------------------------------------------------------------
// Folders
// ---------------------------------------------------------------------------
/// A folder with how many messages it has, and how many of these are unread.
pub struct FolderSummary {
    pub name: String,
    pub count: i64,
    pub unread_count: i64,
}

/// The view of a [`FolderSummary`].
pub struct FolderView {
    pub name: Seq<char>,
    pub count: i64,
    pub unread_count: i64,
}

impl View for FolderSummary {
    type V = FolderView;

    open spec fn view(&self) -> FolderView {
        FolderView { name: self.name@, count: self.count, unread_count: self.unread_count }
    }
}

/// The numbers of the last row for a folder, or zeros where it has none.
pub open spec fn counted(rows: Seq<(String, i64, i64)>, name: Seq<char>) -> (i64, i64)
    decreases rows.len(),
{
    if rows.len() == 0 {
        (0, 0)
    } else if rows.last().0@ == name {
        (rows.last().1, rows.last().2)
    } else {
        counted(rows.drop_last(), name)
    }
}

/// The summary of a folder.
pub open spec fn folder_view(rows: Seq<(String, i64, i64)>, name: Seq<char>) -> FolderView {
    FolderView { name, count: counted(rows, name).0, unread_count: counted(rows, name).1 }
}

/// The folders that are always shown, in order.
pub open spec fn shown_folders() -> Seq<Seq<char>> {
    seq!["Inbox"@, "Sent"@, "Trash"@, "Archive"@]
}

/// The summary of a folder.
fn summarize(rows: &Vec<(String, i64, i64)>, name: &str) -> (r: FolderSummary)
    ensures
        r@ == folder_view(rows@, name@),
{
    let mut i: usize = rows.len();
    assert(rows@.take(rows.len() as int) =~= rows@);
    while i > 0
        invariant
            i <= rows.len(),
            counted(rows@.take(i as int), name@) == counted(rows@, name@),
        decreases i,
    {
        proof {
            assert(rows@.take(i as int).drop_last() =~= rows@.take(i - 1));
            assert(rows@.take(i as int).last() == rows@[i - 1]);
        }
        if same(rows[i - 1].0.as_str(), name) {
            return FolderSummary {
                name: name.to_owned(),
                count: rows[i - 1].1,
                unread_count: rows[i - 1].2,
            };
        }
        i = i - 1;
    }
    FolderSummary { name: name.to_owned(), count: 0, unread_count: 0 }
}

/// The folders that are shown, with the numbers that were counted for them.
pub fn folder_summaries(rows: &Vec<(String, i64, i64)>) -> (r: Vec<FolderSummary>)
    ensures
        r@.len() == 4,
        forall|i: int| 0 <= i < 4 ==> (#[trigger] r@[i])@ == folder_view(rows@, shown_folders()[i]),
{
    let mut r: Vec<FolderSummary> = Vec::new();
    r.push(summarize(rows, "Inbox"));
    r.push(summarize(rows, "Sent"));
    r.push(summarize(rows, "Trash"));
    r.push(summarize(rows, "Archive"));
    r
}

// ---------------------------------------------------------------------------
// Attachments
// ---------------------------------------------------------------------------
/// What is shown of an attachment.
pub struct AttachmentSummary {
    pub id: i64,
    pub filename: String,
    pub mime_type: String,
    pub size: i64,
}

/// The view of an [`AttachmentSummary`].
pub struct AttachmentSummaryView {
    pub id: i64,
    pub filename: Seq<char>,
    pub mime_type: Seq<char>,
    pub size: i64,
}

impl View for AttachmentSummary {
    type V = AttachmentSummaryView;

    open spec fn view(&self) -> AttachmentSummaryView {
        AttachmentSummaryView {
            id: self.id,
            filename: self.filename@,
            mime_type: self.mime_type@,
            size: self.size,
        }
    }
}

/// The views of a list of attachments.
pub open spec fn summary_views(list: Seq<AttachmentSummary>) -> Seq<AttachmentSummaryView> {
    Seq::new(list.len(), |i: int| list[i]@)
}

/// The query for the attachments of some messages.
pub fn attachments_query(message_count: usize) -> (r: String)
    ensures
        r@ == "SELECT message_id, id, filename, mime_type, size FROM attachments WHERE message_id IN ("@
            + join(Seq::new(message_count as nat, |i: int| "?"@), ","@)
            + ") ORDER BY message_id, id"@,
{
    let mut marks: Vec<String> = Vec::new();
    let ghost all = Seq::new(message_count as nat, |i: int| "?"@);
    let mut i: usize = 0;
    while i < message_count
        invariant
            i <= message_count,
            all == Seq::new(message_count as nat, |i: int| "?"@),
            texts(marks@) == all.take(i as int),
        decreases message_count - i,
    {
        let ghost before = texts(marks@);
        marks.push("?".to_owned());
        assert(texts(marks@) =~= before.push("?"@));
        i = i + 1;
    }
    assert(all.take(message_count as int) =~= all);
    let list = join_strings(&marks, ",");
    cat3(
        "SELECT message_id, id, filename, mime_type, size FROM attachments WHERE message_id IN (",
        list.as_str(),
        ") ORDER BY message_id, id",
    )
}

/// The attachments among some rows that belong to a message, in order.
pub open spec fn attachments_in(rows: Seq<(i64, AttachmentSummary)>, message_id: i64) -> Seq<
    AttachmentSummaryView,
>
    decreases rows.len(),
{
    if rows.len() == 0 {
        Seq::empty()
    } else {
        let rest = attachments_in(rows.drop_last(), message_id);
        if rows.last().0 == message_id {
            rest.push(rows.last().1@)
        } else {
            rest
        }
    }
}

/// Computes [`attachments_in`].
pub fn attachments_of_message(rows: &Vec<(i64, AttachmentSummary)>, message_id: i64) -> (r: Vec<
    AttachmentSummary,
>)
    ensures
        summary_views(r@) == attachments_in(rows@, message_id),
{
    let mut r: Vec<AttachmentSummary> = Vec::new();
    let mut i: usize = 0;
    assert(rows@.take(0) =~= Seq::<(i64, AttachmentSummary)>::empty());
    assert(summary_views(r@) =~= attachments_in(rows@.take(0), message_id));
    while i < rows.len()
        invariant
            i <= rows.len(),
            summary_views(r@) == attachments_in(rows@.take(i as int), message_id),
        decreases rows.len() - i,
    {
        proof {
            assert(rows@.take(i + 1).drop_last() =~= rows@.take(i as int));
            assert(rows@.take(i + 1).last() == rows@[i as int]);
        }
        if rows[i].0 == message_id {
            let ghost before = summary_views(r@);
            let a = &rows[i].1;
            r.push(
                AttachmentSummary {
                    id: a.id,
                    filename: copy(&a.filename),
                    mime_type: copy(&a.mime_type),
                    size: a.size,
                },
            );
            assert(summary_views(r@) =~= before.push(rows@[i as int].1@));
        }
        i = i + 1;
    }
    assert(rows@.take(rows.len() as int) =~= rows@);
    r
}

// ---------------------------------------------------------------------------
// Laws
// ---------------------------------------------------------------------------
/// How many placeholders a text has.
pub open spec fn placeholders(s: Seq<char>) -> nat
    decreases s.len(),
{
    if s.len() == 0 {
        0
    } else {
        placeholders(s.drop_last()) + (if s.last() == '?' {
            1nat
        } else {
            0
        })
    }
}

proof fn lemma_placeholders_add(a: Seq<char>, b: Seq<char>)
    ensures
        placeholders(a + b) == placeholders(a) + placeholders(b),
    decreases b.len(),
{
    if b.len() == 0 {
        assert(a + b =~= a);
    } else {
        lemma_placeholders_add(a, b.drop_last());
        assert((a + b).drop_last() =~= a + b.drop_last());
        assert((a + b).last() == b.last());
    }
}

proof fn lemma_placeholders_join(parts: Seq<Seq<char>>, sep: Seq<char>)
    requires
        placeholders(sep) == 0,
        forall|i: int| 0 <= i < parts.len() ==> placeholders(#[trigger] parts[i]) == 1,
    ensures
        placeholders(join(parts, sep)) == parts.len(),
    decreases parts.len(),
{
    if parts.len() == 1 {
        assert(placeholders(parts[0]) == 1);
    } else if parts.len() > 1 {
        let front = parts.drop_last();
        assert forall|i: int| 0 <= i < front.len() implies placeholders(#[trigger] front[i]) == 1 by {
            assert(placeholders(parts[i]) == 1);
        }
        lemma_placeholders_join(front, sep);
        lemma_placeholders_add(join(front, sep), sep);
        lemma_placeholders_add(join(front, sep) + sep, parts.last());
        assert(placeholders(parts[parts.len() - 1]) == 1);
    }
}

proof fn lemma_clause_placeholders()
    ensures
        placeholders("messages_fts MATCH ?"@) == 1,
        placeholders("m.folder = ?"@) == 1,
        placeholders("m.account_id = ?"@) == 1,
        placeholders("m.is_read = ?"@) == 1,
        placeholders(" AND "@) == 0,
        placeholders("1 = 1"@) == 0,
{
    reveal_strlit("messages_fts MATCH ?");
    reveal_strlit("m.folder = ?");
    reveal_strlit("m.account_id = ?");
    reveal_strlit("m.is_read = ?");
    reveal_strlit(" AND ");
    reveal_strlit("1 = 1");
    reveal_with_fuel(placeholders, 22);
}

/// Law: the conditions of a list have as many placeholders as values, whatever is
/// asked for; a value never becomes part of the text.
pub proof fn every_placeholder_has_a_value(
    folder: Option<Seq<char>>,
    account_id: Option<i64>,
    read_filter: Option<i64>,
    fts_query: Option<Seq<char>>,
)
    ensures
        placeholders(where_text(where_clauses(folder, account_id, read_filter, fts_query)))
            == where_params(folder, account_id, read_filter, fts_query).len(),
{
    let clauses = where_clauses(folder, account_id, read_filter, fts_query);
    lemma_clause_placeholders();
    if clauses.len() > 0 {
        lemma_placeholders_join(clauses, " AND "@);
    }
}

/// Law: a page is never before the first, and never smaller than ten or larger
/// than a hundred messages.
pub proof fn pages_are_within_bounds(page: Option<i64>, size: Option<i64>)
    ensures
        page_number(page) >= 0,
        10 <= page_size_of(size) <= 100,
{
}

/// A text ends with another.
pub open spec fn ends_with(s: Seq<char>, p: Seq<char>) -> bool {
    p.len() <= s.len() && s.skip(s.len() - p.len()) == p
}

proof fn lemma_middle(a: Seq<char>, p: Seq<char>, b: Seq<char>)
    ensures
        contains_text(a + p + b, p),
{
    assert((a + p + b).subrange(a.len() as int, (a.len() + p.len()) as int) =~= p);
    assert(stands_at(a + p + b, p, a.len() as int));
}

proof fn lemma_contains_more(s: Seq<char>, b: Seq<char>, p: Seq<char>)
    requires
        contains_text(s, p),
    ensures
        contains_text(s + b, p),
{
    let k = choose|k: int| stands_at(s, p, k);
    assert((s + b).subrange(k, k + p.len()) =~= s.subrange(k, k + p.len()));
    assert(stands_at(s + b, p, k));
}

proof fn lemma_at_end(a: Seq<char>, p: Seq<char>)
    ensures
        contains_text(a + p, p),
{
    assert((a + p).subrange(a.len() as int, (a.len() + p.len()) as int) =~= p);
    assert(stands_at(a + p, p, a.len() as int));
}

proof fn lemma_contains_behind(a: Seq<char>, s: Seq<char>, p: Seq<char>)
    requires
        contains_text(s, p),
    ensures
        contains_text(a + s, p),
{
    let k = choose|k: int| stands_at(s, p, k);
    assert((a + s).subrange(a.len() + k, a.len() + k + p.len()) =~= s.subrange(k, k + p.len()));
    assert(stands_at(a + s, p, a.len() + k));
}

proof fn lemma_end(a: Seq<char>, b: Seq<char>, p: Seq<char>)
    ensures
        ends_with(a + (b + p), p),
{
    assert((a + (b + p)).skip((a.len() + b.len()) as int) =~= p);
}

/// Law: a page shows one row for each thread, that of its newest message, newest
/// first: the rows come in the order of their dates from the latest on, and of two
/// with the same date the one stored later comes first; and how many messages of a
/// thread are unread is counted over the messages of that thread.
pub proof fn pages_are_newest_first(filter: MessageFilter)
    ensures
        ({
            let sql = list_head() + filtered_from("m.*"@, filter) + list_tail();
            &&& ends_with(
                sql,
                "
        ORDER BY m.date_ts DESC, m.id DESC
        LIMIT ? OFFSET ?"@,
            )
            &&& contains_text(
                sql,
                "ORDER BY date_ts DESC, id DESC
                    LIMIT 1"@,
            )
            &&& contains_text(
                sql,
                "WHERE f.account_id = grouped.account_id
                      AND f.thread_id = grouped.thread_id"@,
            )
            &&& contains_text(sql, "GROUP BY account_id, thread_id"@)
            &&& contains_text(
                sql,
                "COALESCE(SUM(CASE WHEN is_read = 0 THEN 1 ELSE 0 END), 0) AS thread_unread_count"@,
            )
            &&& contains_text(
                sql,
                "JOIN messages m ON m.id = picked.id
        JOIN accounts a ON a.id = m.account_id"@,
            )
        }),
{
    let start = list_head() + filtered_from("m.*"@, filter);
    lemma_clauses_of_the_tail(start);
}

/// The clauses stand in the query whatever comes before them.
proof fn lemma_clauses_of_the_tail(start: Seq<char>)
    ensures
        ends_with(
            start + list_tail(),
            "
        ORDER BY m.date_ts DESC, m.id DESC
        LIMIT ? OFFSET ?"@,
        ),
        contains_text(
            start + list_tail(),
            "ORDER BY date_ts DESC, id DESC
                    LIMIT 1"@,
        ),
        contains_text(
            start + list_tail(),
            "WHERE f.account_id = grouped.account_id
                      AND f.thread_id = grouped.thread_id"@,
        ),
        contains_text(start + list_tail(), "GROUP BY account_id, thread_id"@),
        contains_text(
            start + list_tail(),
            "COALESCE(SUM(CASE WHEN is_read = 0 THEN 1 ELSE 0 END), 0) AS thread_unread_count"@,
        ),
        contains_text(
            start + list_tail(),
            "JOIN messages m ON m.id = picked.id
        JOIN accounts a ON a.id = m.account_id"@,
        ),
{
    let p0 = "),
             grouped AS (
                SELECT account_id, thread_id,
                       COUNT(*) AS thread_count,
                       "@;
    let p1 = "COALESCE(SUM(CASE WHEN is_read = 0 THEN 1 ELSE 0 END), 0) AS thread_unread_count"@;
    let p2 = "
                FROM filtered
                "@;
    let p3 = "GROUP BY account_id, thread_id"@;
    let p4 = "
             ),
             picked AS (
                SELECT (
                    SELECT id
                    FROM filtered f
                    "@;
    let p5 = "WHERE f.account_id = grouped.account_id
                      AND f.thread_id = grouped.thread_id"@;
    let p6 = "
                    "@;
    let p7 = "ORDER BY date_ts DESC, id DESC
                    LIMIT 1"@;
    let p8 = "
                ) AS id,
                thread_count,
                thread_unread_count
                FROM grouped
             )
        SELECT m.id, m.account_id, m.provider_message_id, m.thread_id,
               m.message_header_id, m.in_reply_to, m.references_header, m.normalized_subject,
               m.folder, m.subject, m.from_addr, m.to_addr, m.cc_addr, m.date_ts, m.snippet,
               m.body, m.body_mime, m.is_read, a.email, a.provider,
               picked.thread_count, picked.thread_unread_count
        FROM picked
        "@;
    let p9 = "JOIN messages m ON m.id = picked.id
        JOIN accounts a ON a.id = m.account_id"@;
    let p10 = "
        ORDER BY m.date_ts DESC, m.id DESC
        LIMIT ? OFFSET ?"@;
    let c0 = p0;
    let c1 = c0 + p1;
    lemma_at_end(c0, p1);
    let c2 = c1 + p2;
    lemma_contains_more(c1, p2, p1);
    let c3 = c2 + p3;
    lemma_contains_more(c2, p3, p1);
    lemma_at_end(c2, p3);
    let c4 = c3 + p4;
    lemma_contains_more(c3, p4, p1);
    lemma_contains_more(c3, p4, p3);
    let c5 = c4 + p5;
    lemma_contains_more(c4, p5, p1);
    lemma_contains_more(c4, p5, p3);
    lemma_at_end(c4, p5);
    let c6 = c5 + p6;
    lemma_contains_more(c5, p6, p1);
    lemma_contains_more(c5, p6, p3);
    lemma_contains_more(c5, p6, p5);
    let c7 = c6 + p7;
    lemma_contains_more(c6, p7, p1);
    lemma_contains_more(c6, p7, p3);
    lemma_contains_more(c6, p7, p5);
    lemma_at_end(c6, p7);
    let c8 = c7 + p8;
    lemma_contains_more(c7, p8, p1);
    lemma_contains_more(c7, p8, p3);
    lemma_contains_more(c7, p8, p5);
    lemma_contains_more(c7, p8, p7);
    let c9 = c8 + p9;
    lemma_contains_more(c8, p9, p1);
    lemma_contains_more(c8, p9, p3);
    lemma_contains_more(c8, p9, p5);
    lemma_contains_more(c8, p9, p7);
    lemma_at_end(c8, p9);
    let c10 = c9 + p10;
    lemma_contains_more(c9, p10, p1);
    lemma_contains_more(c9, p10, p3);
    lemma_contains_more(c9, p10, p5);
    lemma_contains_more(c9, p10, p7);
    lemma_contains_more(c9, p10, p9);
    lemma_contains_behind(start, c10, p1);
    lemma_contains_behind(start, c10, p3);
    lemma_contains_behind(start, c10, p5);
    lemma_contains_behind(start, c10, p7);
    lemma_contains_behind(start, c10, p9);
    lemma_end(start, c9, p10);
}

/// Law: a thread is shown from its oldest message on, and holds the messages of one
/// account and one thread alone.
pub proof fn threads_are_oldest_first(folder: Option<Seq<char>>)
    ensures
        contains_text(
            thread_head() + scope_of("m."@, folder) + thread_tail(),
            "ORDER BY tm.date_ts ASC, tm.id ASC"@,
        ),
        contains_text(
            thread_head() + scope_of("m."@, folder) + thread_tail(),
            "WHERE m.account_id = ? AND m.thread_id = ?"@,
        ),
{
    let scope = scope_of("m."@, folder);
    let h0 = "
        WITH thread_messages AS (
            SELECT m.id, m.account_id, m.provider_message_id, m.thread_id,
                   m.message_header_id, m.in_reply_to, m.references_header, m.normalized_subject,
                   m.folder, m.subject, m.from_addr, m.to_addr, m.cc_addr, m.date_ts, m.snippet,
                   m.body, m.body_mime, m.is_read, a.email, a.provider
            FROM messages m
            JOIN accounts a ON a.id = m.account_id
            "@;
    let h1 = "WHERE m.account_id = ? AND m.thread_id = ?"@;
    let h2 = "
            "@;
    let t0 = "
        ),
        thread_stats AS (
            SELECT COUNT(*) AS thread_count,
                   "@;
    let t1 = "COALESCE(SUM(CASE WHEN is_read = 0 THEN 1 ELSE 0 END), 0) AS thread_unread_count"@;
    let t2 = "
            FROM thread_messages
        )
        SELECT tm.id, tm.account_id, tm.provider_message_id, tm.thread_id,
               tm.message_header_id, tm.in_reply_to, tm.references_header, tm.normalized_subject,
               tm.folder, tm.subject, tm.from_addr, tm.to_addr, tm.cc_addr, tm.date_ts, tm.snippet,
               tm.body, tm.body_mime, tm.is_read, tm.email, tm.provider,
               thread_stats.thread_count, thread_stats.thread_unread_count
        FROM thread_messages tm
        CROSS JOIN thread_stats
        "@;
    let t3 = "ORDER BY tm.date_ts ASC, tm.id ASC"@;
    let t4 = "
        "@;
    lemma_middle(h0, h1, h2 + scope + t0 + t1 + t2 + t3 + t4);
    assert(h0 + h1 + (h2 + scope + t0 + t1 + t2 + t3 + t4) =~= thread_head() + scope + thread_tail());
    lemma_middle(h0 + h1 + h2 + scope + t0 + t1 + t2, t3, t4);
    assert(h0 + h1 + h2 + scope + t0 + t1 + t2 + t3 + (t4) =~= thread_head() + scope + thread_tail());
}

/// Law: a thread that is looked at from the trash shows what is in the trash, and one
/// that is looked at from another folder shows what is not.
pub proof fn threads_keep_the_trash_apart(prefix: Seq<char>, folder: Seq<char>)
    ensures
        scope_of(prefix, Some("Trash"@)) == "AND "@ + prefix + "folder = 'Trash'"@,
        folder != "Trash"@ ==> scope_of(prefix, Some(folder)) == "AND "@ + prefix
            + "folder <> 'Trash'"@,
        scope_of(prefix, None).len() == 0,
{
}

/// Law: each thing that is asked for is a condition of its own, and the value at the
/// place of a condition is the one that was asked for; what is not asked for is no
/// condition.
pub proof fn conditions_hold_what_was_asked_for(
    folder: Option<Seq<char>>,
    account_id: Option<i64>,
    read_filter: Option<i64>,
    fts_query: Option<Seq<char>>,
    k: int,
)
    requires
        0 <= k < where_clauses(folder, account_id, read_filter, fts_query).len(),
    ensures
        ({
            let clauses = where_clauses(folder, account_id, read_filter, fts_query);
            let params = where_params(folder, account_id, read_filter, fts_query);
            &&& params.len() == clauses.len()
            &&& clauses.len() == (if folder is Some {
                1int
            } else {
                0
            }) + (if account_id is Some {
                1int
            } else {
                0
            }) + (if read_filter is Some {
                1int
            } else {
                0
            }) + (if fts_query is Some {
                1int
            } else {
                0
            })
            &&& {
                ||| clauses[k] == "messages_fts MATCH ?"@ && fts_query is Some && params[k]
                    == SqlView::Text(fts_query->Some_0)
                ||| clauses[k] == "m.folder = ?"@ && folder is Some && params[k] == SqlView::Text(
                    folder->Some_0,
                )
                ||| clauses[k] == "m.account_id = ?"@ && account_id is Some && params[k]
                    == SqlView::Integer(account_id->Some_0)
                ||| clauses[k] == "m.is_read = ?"@ && read_filter is Some && params[k]
                    == SqlView::Integer(read_filter->Some_0)
            }
            &&& folder is Some ==> clauses.contains("m.folder = ?"@)
            &&& account_id is Some ==> clauses.contains("m.account_id = ?"@)
            &&& read_filter is Some ==> clauses.contains("m.is_read = ?"@)
            &&& fts_query is Some ==> clauses.contains("messages_fts MATCH ?"@)
        }),
{
    let clauses = where_clauses(folder, account_id, read_filter, fts_query);
    let a: int = if fts_query is Some {
        1
    } else {
        0
    };
    let b: int = if folder is Some {
        a + 1
    } else {
        a
    };
    let c: int = if account_id is Some {
        b + 1
    } else {
        b
    };
    assert(fts_query is Some ==> clauses[0] == "messages_fts MATCH ?"@);
    assert(folder is Some ==> clauses[a] == "m.folder = ?"@);
    assert(account_id is Some ==> clauses[b] == "m.account_id = ?"@);
    assert(read_filter is Some ==> clauses[c] == "m.is_read = ?"@);
}

/// Law: a page asks for the folder, the account, the read state and the words that
/// the user chose, and for all of them at once.
pub proof fn filters_ask_for_what_was_chosen(filter: MessageFilter)
    ensures
        filter_params(filter) == where_params(
            opt_text(filter.folder),
            filter.account_id,
            if opt_text(filter.read_filter) == Some("read"@) {
                Some(1)
            } else if opt_text(filter.read_filter) == Some("unread"@) {
                Some(0)
            } else {
                None
            },
            full_text_query(
                if filter.query is Some {
                    filter.query->Some_0@
                } else {
                    Seq::empty()
                },
            ),
        ),
        where_clauses(
            opt_text(filter.folder),
            filter.account_id,
            read_filter_of(opt_text(filter.read_filter)),
            full_text_query(query_of(filter)),
        ).len() > 0 ==> filter_where(filter) == join(
            where_clauses(
                opt_text(filter.folder),
                filter.account_id,
                read_filter_of(opt_text(filter.read_filter)),
                full_text_query(query_of(filter)),
            ),
            " AND "@,
        ),
        blank(query_of(filter)) ==> filtered_from("m.*"@, filter)
            == "SELECT "@ + "m.*"@ + " FROM messages m WHERE "@ + filter_where(filter),
        !blank(query_of(filter)) ==> filtered_from("m.*"@, filter) == "SELECT "@ + "m.*"@
            + " FROM messages_fts JOIN messages m ON m.id = messages_fts.rowid WHERE "@
            + filter_where(filter),
{
}

/// Law: read and unread messages are told apart as they are stored.
pub proof fn read_filters_are_opposites()
    ensures
        read_filter_of(Some("read"@)) == Some(1i64),
        read_filter_of(Some("unread"@)) == Some(0i64),
        read_filter_of(None) is None,
        read_filter_of(Some("all"@)) is None,
{
    reveal_strlit("read");
    reveal_strlit("unread");
    reveal_strlit("all");
    assert("unread"@.len() != "read"@.len());
    assert("all"@.len() != "read"@.len());
    assert("all"@.len() != "unread"@.len());
}

/// Law: the page and the size that are asked for are given where they are in bounds,
/// and the nearest bound where they are not; and pages follow each other without a
/// gap and without overlap.
pub proof fn pages_follow_each_other(page: i64, size: i64, asked: Option<i64>)
    ensures
        page >= 0 ==> page_number(Some(page)) == page,
        page < 0 ==> page_number(Some(page)) == 0,
        page_number(None) == 0,
        10 <= size <= 100 ==> page_size_of(Some(size)) == size,
        size < 10 ==> page_size_of(Some(size)) == 10,
        size > 100 ==> page_size_of(Some(size)) == 100,
        page_size_of(None) == 50,
        0 <= page < i64::MAX ==> page_number(Some((page + 1) as i64)) * page_size_of(asked)
            == page_number(Some(page)) * page_size_of(asked) + page_size_of(asked),
{
    if 0 <= page < i64::MAX {
        let n = page_size_of(asked) as int;
        assert((page + 1) * n == page * n + n) by (nonlinear_arith);
    }
}

/// Law: the numbers of a folder are those of the last row that was counted for it,
/// and zero where there is none.
pub proof fn folders_show_their_counts(rows: Seq<(String, i64, i64)>, name: Seq<char>, k: int)
    requires
        -1 <= k < rows.len(),
        k >= 0 ==> rows[k].0@ == name,
        forall|j: int| k < j < rows.len() ==> (#[trigger] rows[j]).0@ != name,
    ensures
        folder_view(rows, name).name == name,
        k >= 0 ==> folder_view(rows, name).count == rows[k].1 && folder_view(
            rows,
            name,
        ).unread_count == rows[k].2,
        k < 0 ==> folder_view(rows, name).count == 0 && folder_view(rows, name).unread_count == 0,
    decreases rows.len(),
{
    if rows.len() > 0 && k < rows.len() - 1 {
        assert(rows[rows.len() - 1].0@ != name);
        let front = rows.drop_last();
        assert forall|j: int| k < j < front.len() implies (#[trigger] front[j]).0@ != name by {
            assert(rows[j].0@ != name);
        }
        folders_show_their_counts(front, name, k);
    }
}

/// Law: inbox, sent mail, trash and archive are shown, in this order.
pub proof fn four_folders_are_shown()
    ensures
        shown_folders().len() == 4,
        shown_folders()[0] == "Inbox"@,
        shown_folders()[1] == "Sent"@,
        shown_folders()[2] == "Trash"@,
        shown_folders()[3] == "Archive"@,
{
}

/// Law: a message shows all attachments that are stored for it, in order, and those
/// of no other message.
pub proof fn messages_show_their_attachments(
    a: Seq<(i64, AttachmentSummary)>,
    b: Seq<(i64, AttachmentSummary)>,
    one: (i64, AttachmentSummary),
    message_id: i64,
)
    ensures
        attachments_in(a + b, message_id) == attachments_in(a, message_id) + attachments_in(
            b,
            message_id,
        ),
        one.0 == message_id ==> attachments_in(seq![one], message_id) == seq![one.1@],
        one.0 != message_id ==> attachments_in(seq![one], message_id).len() == 0,
    decreases b.len(),
{
    assert(seq![one].drop_last() =~= Seq::<(i64, AttachmentSummary)>::empty());
    assert(attachments_in(seq![one].drop_last(), message_id)
        =~= Seq::<AttachmentSummaryView>::empty());
    assert(one.0 == message_id ==> attachments_in(seq![one], message_id) =~= seq![one.1@]);
    if b.len() == 0 {
        assert(a + b =~= a);
        assert(attachments_in(a, message_id) + attachments_in(b, message_id) =~= attachments_in(
            a,
            message_id,
        ));
    } else {
        messages_show_their_attachments(a, b.drop_last(), one, message_id);
        assert((a + b).drop_last() =~= a + b.drop_last());
        assert((a + b).last() == b.last());
        assert(attachments_in(a + b, message_id) =~= attachments_in(a, message_id)
            + attachments_in(b, message_id));
    }
}

/// Law: a list is made from the messages that the filter asks for, with all their
/// columns: from the full-text index where there is something to search for, and else
/// from the messages.
pub proof fn lists_are_made_from_what_was_asked_for(filter: MessageFilter, columns: Seq<char>)
    ensures
        blank(query_of(filter)) ==> starts(
            list_head() + filtered_from(columns, filter),
            "WITH filtered AS (SELECT "@ + columns + " FROM messages m WHERE "@,
        ),
        !blank(query_of(filter)) ==> starts(
            list_head() + filtered_from(columns, filter),
            "WITH filtered AS (SELECT "@ + columns
                + " FROM messages_fts JOIN messages m ON m.id = messages_fts.rowid WHERE "@,
        ),
        ends_with(list_head() + filtered_from(columns, filter), filter_where(filter)),
        filter.query is None ==> query_of(filter).len() == 0,
        filter.query matches Some(q) ==> query_of(filter) == q@,
{
    reveal_strlit("WITH filtered AS (");
    reveal_strlit("SELECT ");
    reveal_strlit("WITH filtered AS (SELECT ");
    assert("WITH filtered AS ("@ + "SELECT "@ =~= "WITH filtered AS (SELECT "@);
    let source = if blank(query_of(filter)) {
        " FROM messages m WHERE "@
    } else {
        " FROM messages_fts JOIN messages m ON m.id = messages_fts.rowid WHERE "@
    };
    let front = "WITH filtered AS (SELECT "@ + columns + source;
    let whole = list_head() + filtered_from(columns, filter);
    assert(whole =~= front + filter_where(filter));
    assert(whole.take(front.len() as int) =~= front);
    assert(whole.skip(front.len() as int) =~= filter_where(filter));
}

} // verus!
