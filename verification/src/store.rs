//! Upkeep of the store: columns and values that older stores lack, the full-text
//! index, read states, and the files of the database.
use vstd::prelude::*;
use vstd::string::*;

use crate::header::{clean, clean_header_value, normalize_subject_key, subject_key};
use crate::imap_id::{header_id_in_name, message_header_id_from_provider_id};
use crate::msgid::{backfilled_conversation_id, backfilled_thread};
use crate::text::{blank, cat, cat3, holds, is_blank, texts};

verus! {

// ---------------------------------------------------------------------------
// Older stores
// ---------------------------------------------------------------------------
/// The columns of messages that older stores lack.
pub open spec fn metadata_columns() -> Seq<Seq<char>> {
    seq![
        "message_header_id"@,
        "in_reply_to"@,
        "references_header"@,
        "normalized_subject"@,
    ]
}

/// The statement that adds a column.
pub open spec fn add_column(name: Seq<char>) -> Seq<char> {
    "ALTER TABLE messages ADD COLUMN "@ + name + " TEXT NOT NULL DEFAULT ''"@
}

/// The statements that add the columns that are missing, in order.
pub open spec fn column_statements(existing: Seq<Seq<char>>, n: nat) -> Seq<Seq<char>>
    decreases n,
{
    if n == 0 {
        Seq::empty()
    } else {
        let rest = column_statements(existing, (n - 1) as nat);
        let name = metadata_columns()[n - 1];
        if existing.contains(name) {
            rest
        } else {
            rest.push(add_column(name))
        }
    }
}

/// The statements that add the columns that a store lacks.
pub fn missing_metadata_columns(existing: &Vec<String>) -> (r: Vec<String>)
    ensures
        texts(r@) == column_statements(texts(existing@), 4),
{
    let names: [&'static str; 4] = [
        "message_header_id",
        "in_reply_to",
        "references_header",
        "normalized_subject",
    ];
    let mut r: Vec<String> = Vec::new();
    let mut i: usize = 0;
    assert(texts(r@) =~= column_statements(texts(existing@), 0));
    while i < 4
        invariant
            i <= 4,
            names@.len() == 4,
            forall|k: int| 0 <= k < 4 ==> (#[trigger] names@[k])@ == metadata_columns()[k],
            texts(r@) == column_statements(texts(existing@), i as nat),
        decreases 4 - i,
    {
        let name: &'static str = names[i];
        assert(names@[i as int]@ == metadata_columns()[i as int]);
        if !holds(existing, name) {
            let ghost before = texts(r@);
            r.push(
                cat3("ALTER TABLE messages ADD COLUMN ", name, " TEXT NOT NULL DEFAULT ''"),
            );
            assert(texts(r@) =~= before.push(add_column(name@)));
        }
        i = i + 1;
    }
    r
}

/// What is filled in for a stored message.
pub struct Backfill {
    pub thread_id: String,
    pub message_header_id: String,
    pub normalized_subject: String,
    pub subject: String,
}

/// The view of a [`Backfill`].
pub struct BackfillView {
    pub thread_id: Seq<char>,
    pub message_header_id: Seq<char>,
    pub normalized_subject: Seq<char>,
    pub subject: Seq<char>,
}

impl View for Backfill {
    type V = BackfillView;

    open spec fn view(&self) -> BackfillView {
        BackfillView {
            thread_id: self.thread_id@,
            message_header_id: self.message_header_id@,
            normalized_subject: self.normalized_subject@,
            subject: self.subject@,
        }
    }
}

/// What is filled in for a stored message: its subject cleaned, the key of the
/// subject and the message id where they are missing, and the conversation that
/// follows from them.
pub open spec fn backfilled(
    provider_message_id: Seq<char>,
    current_thread_id: Seq<char>,
    subject: Seq<char>,
    header_id: Seq<char>,
    normalized: Seq<char>,
) -> BackfillView {
    let clean_subject = clean(subject);
    let normalized_subject = if blank(normalized) {
        subject_key(clean_subject)
    } else {
        normalized
    };
    let message_header_id = if blank(header_id) {
        match header_id_in_name(provider_message_id) {
            Some(id) => id,
            None => Seq::empty(),
        }
    } else {
        header_id
    };
    BackfillView {
        thread_id: backfilled_thread(
            provider_message_id,
            current_thread_id,
            normalized_subject,
            message_header_id,
        ),
        message_header_id,
        normalized_subject,
        subject: clean_subject,
    }
}

/// Computes [`backfilled`].
pub fn backfill_message(
    provider_message_id: &str,
    current_thread_id: &str,
    subject: &str,
    header_id: &str,
    normalized: &str,
) -> (r: Backfill)
    ensures
        r@ == backfilled(
            provider_message_id@,
            current_thread_id@,
            subject@,
            header_id@,
            normalized@,
        ),
{
    let clean_subject = clean_header_value(subject);
    let normalized_subject = if is_blank(normalized) {
        normalize_subject_key(clean_subject.as_str())
    } else {
        normalized.to_owned()
    };
    let message_header_id = if is_blank(header_id) {
        match message_header_id_from_provider_id(provider_message_id) {
            Some(id) => id,
            None => String::new(),
        }
    } else {
        header_id.to_owned()
    };
    let thread_id = backfilled_conversation_id(
        provider_message_id,
        current_thread_id,
        normalized_subject.as_str(),
        message_header_id.as_str(),
    );
    Backfill { thread_id, message_header_id, normalized_subject, subject: clean_subject }
}

/// Whether the full-text index has to be made anew: messages are missing from it,
/// or it holds some that are gone.
pub fn index_needs_rebuild(missing_rows: i64, orphaned_rows: i64) -> (r: bool)
    ensures
        r == (missing_rows != 0 || orphaned_rows != 0),
{
    missing_rows != 0 || orphaned_rows != 0
}

// ---------------------------------------------------------------------------
// Read states
// ---------------------------------------------------------------------------
/// A read state as it is stored.
pub open spec fn stored_read(is_read: bool) -> i64 {
    if is_read {
        1
    } else {
        0
    }
}

/// Computes [`stored_read`].
pub fn read_flag(is_read: bool) -> (r: i64)
    ensures
        r == stored_read(is_read),
{
    if is_read {
        1
    } else {
        0
    }
}

/// What becomes of a read state: the value to write, where one has to be written,
/// and whether a stored message changes by it.
pub open spec fn read_change(current: Option<i64>, is_read: bool) -> (Option<i64>, bool) {
    if current == Some(stored_read(is_read)) {
        (None, false)
    } else {
        (Some(stored_read(is_read)), current is Some)
    }
}

/// Computes [`read_change`].
pub fn read_state_change(current: Option<i64>, is_read: bool) -> (r: (Option<i64>, bool))
    ensures
        r == read_change(current, is_read),
{
    let next = read_flag(is_read);
    match current {
        Some(value) => if value == next {
            (None, false)
        } else {
            (Some(next), true)
        },
        None => (Some(next), false),
    }
}

// ---------------------------------------------------------------------------
// Files
// ---------------------------------------------------------------------------
/// The files of a database: the database itself, its log and its shared memory.
pub fn sqlite_database_files(db_path: &str) -> (r: Vec<String>)
    ensures
        texts(r@) == seq![db_path@, db_path@ + "-wal"@, db_path@ + "-shm"@],
{
    let mut r: Vec<String> = Vec::new();
    r.push(db_path.to_owned());
    r.push(cat(db_path, "-wal"));
    r.push(cat(db_path, "-shm"));
    assert(texts(r@) =~= seq![db_path@, db_path@ + "-wal"@, db_path@ + "-shm"@]);
    r
}

// ---------------------------------------------------------------------------
// Laws
// ---------------------------------------------------------------------------
/// Law: a read state that was written is not written again.
pub proof fn read_state_settles(current: Option<i64>, is_read: bool)
    ensures
        read_change(current, is_read).0 matches Some(written) ==> read_change(
            Some(written),
            is_read,
        ) == (None::<i64>, false),
{
}

proof fn lemma_statements(existing: Seq<Seq<char>>, n: nat)
    requires
        forall|i: int| 0 <= i < n ==> existing.contains(#[trigger] metadata_columns()[i]),
    ensures
        column_statements(existing, n).len() == 0,
    decreases n,
{
    if n > 0 {
        assert(existing.contains(metadata_columns()[n - 1]));
        lemma_statements(existing, (n - 1) as nat);
    }
}

/// Law: a store that has all the columns is left alone.
pub proof fn complete_store_is_left_alone(existing: Seq<Seq<char>>)
    requires
        forall|i: int| 0 <= i < 4 ==> existing.contains(#[trigger] metadata_columns()[i]),
    ensures
        column_statements(existing, 4).len() == 0,
{
    lemma_statements(existing, 4);
}

/// Law: filling in a second time changes nothing.
pub proof fn backfill_is_idempotent(
    provider_message_id: Seq<char>,
    current_thread_id: Seq<char>,
    subject: Seq<char>,
    header_id: Seq<char>,
    normalized: Seq<char>,
)
    ensures
        ({
            let once = backfilled(
                provider_message_id,
                current_thread_id,
                subject,
                header_id,
                normalized,
            );
            backfilled(
                provider_message_id,
                once.thread_id,
                once.subject,
                once.message_header_id,
                once.normalized_subject,
            ) == once
        }),
{
    crate::header::clean_header_value_is_idempotent(subject);
    reveal_strlit("subject:");
    reveal_strlit("message:");
    let once = backfilled(
        provider_message_id,
        current_thread_id,
        subject,
        header_id,
        normalized,
    );
    lemma_not_blank("subject:"@ + once.normalized_subject);
    lemma_not_blank(crate::msgid::message_thread(once.message_header_id));
}

/// A text that starts with a letter is not blank.
proof fn lemma_not_blank(s: Seq<char>)
    requires
        s.len() > 0,
        !crate::text::white(s[0]),
    ensures
        !blank(s),
{
    crate::text::lemma_skip_white_unique(s, 0, 0);
    crate::text::lemma_trim_range(s);
}

/// Law: a message is stored as read or as unread, as it is; it is written where that
/// is not stored yet, and it counts as changed where something else was stored.
pub proof fn read_states_are_stored_as_they_are(stored: i64)
    ensures
        read_change(None, true) == (Some(1i64), false),
        read_change(None, false) == (Some(0i64), false),
        read_change(Some(1), true) == (None::<i64>, false),
        read_change(Some(0), false) == (None::<i64>, false),
        stored != 1 ==> read_change(Some(stored), true) == (Some(1i64), true),
        stored != 0 ==> read_change(Some(stored), false) == (Some(0i64), true),
        stored_read(true) == 1 && stored_read(false) == 0,
{
}

proof fn lemma_statement(existing: Seq<Seq<char>>, n: nat, i: int)
    requires
        0 <= i < n <= 4,
        !existing.contains(metadata_columns()[i]),
    ensures
        column_statements(existing, n).contains(add_column(metadata_columns()[i])),
    decreases n,
{
    let rest = column_statements(existing, (n - 1) as nat);
    let all = column_statements(existing, n);
    if i == n - 1 {
        assert(all[all.len() - 1] == add_column(metadata_columns()[i]));
    } else {
        lemma_statement(existing, (n - 1) as nat, i);
        let k = choose|k: int|
            0 <= k < rest.len() && rest[k] == add_column(metadata_columns()[i]);
        assert(all[k] == rest[k]);
    }
}

proof fn lemma_statement_count(existing: Seq<Seq<char>>, n: nat)
    requires
        n <= 4,
    ensures
        column_statements(existing, n).len() <= n,
        forall|i: int|
            0 <= i < n && existing.contains(#[trigger] metadata_columns()[i]) ==> column_statements(
                existing,
                n,
            ).len() < n,
    decreases n,
{
    if n > 0 {
        lemma_statement_count(existing, (n - 1) as nat);
    }
}

/// Law: each column that a store lacks is added, as text that is empty at first, and
/// no more columns than it lacks.
pub proof fn missing_columns_are_added(existing: Seq<Seq<char>>)
    ensures
        !existing.contains("message_header_id"@) ==> column_statements(existing, 4).contains(
            "ALTER TABLE messages ADD COLUMN "@ + "message_header_id"@
                + " TEXT NOT NULL DEFAULT ''"@,
        ),
        !existing.contains("in_reply_to"@) ==> column_statements(existing, 4).contains(
            "ALTER TABLE messages ADD COLUMN "@ + "in_reply_to"@ + " TEXT NOT NULL DEFAULT ''"@,
        ),
        !existing.contains("references_header"@) ==> column_statements(existing, 4).contains(
            "ALTER TABLE messages ADD COLUMN "@ + "references_header"@
                + " TEXT NOT NULL DEFAULT ''"@,
        ),
        !existing.contains("normalized_subject"@) ==> column_statements(existing, 4).contains(
            "ALTER TABLE messages ADD COLUMN "@ + "normalized_subject"@
                + " TEXT NOT NULL DEFAULT ''"@,
        ),
        column_statements(existing, 4).len() <= 4,
        existing.contains("message_header_id"@) || existing.contains("in_reply_to"@)
            || existing.contains("references_header"@) || existing.contains("normalized_subject"@)
            ==> column_statements(existing, 4).len() < 4,
{
    let columns = metadata_columns();
    assert(columns[0] == "message_header_id"@);
    assert(columns[1] == "in_reply_to"@);
    assert(columns[2] == "references_header"@);
    assert(columns[3] == "normalized_subject"@);
    if !existing.contains(columns[0]) {
        lemma_statement(existing, 4, 0);
    }
    if !existing.contains(columns[1]) {
        lemma_statement(existing, 4, 1);
    }
    if !existing.contains(columns[2]) {
        lemma_statement(existing, 4, 2);
    }
    if !existing.contains(columns[3]) {
        lemma_statement(existing, 4, 3);
    }
    lemma_statement_count(existing, 4);
}

/// Law: what a stored message has already is kept: its message id and the key of its
/// subject. What it lacks is filled in from its name and from its subject, and its
/// conversation follows from what it then has.
pub proof fn only_what_is_missing_is_filled_in(
    name: Seq<char>,
    thread: Seq<char>,
    subject: Seq<char>,
    header_id: Seq<char>,
    normalized: Seq<char>,
)
    ensures
        ({
            let filled = backfilled(name, thread, subject, header_id, normalized);
            &&& filled.subject == clean(subject)
            &&& !blank(normalized) ==> filled.normalized_subject == normalized
            &&& blank(normalized) ==> filled.normalized_subject == subject_key(clean(subject))
            &&& !blank(header_id) ==> filled.message_header_id == header_id
            &&& blank(header_id) && header_id_in_name(name) is Some ==> filled.message_header_id
                == header_id_in_name(name)->Some_0
            &&& blank(header_id) && header_id_in_name(name) is None
                ==> filled.message_header_id.len() == 0
            &&& filled.thread_id == backfilled_thread(
                name,
                thread,
                filled.normalized_subject,
                filled.message_header_id,
            )
        }),
{
}

} // verus!
