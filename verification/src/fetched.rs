//! What an IMAP server returns for the messages of a folder, and what is made of
//! it.
use vstd::hash_set::StringHashSet;
use vstd::prelude::*;

use crate::imap_id::{
    imap_location_from_provider_id, imap_location_key, lacks, location, location_of,
    names_are_read_back, provider_id,
};
use crate::message::{message_views, MessageView, NewMessage};
use crate::mime::{imap_to_message, opt_bytes, read_mail};
use crate::text::texts;

verus! {

// ---------------------------------------------------------------------------
// What a server returns
// ---------------------------------------------------------------------------
/// The flags of one message, as the server returned them.
#[derive(Clone, Copy)]
pub struct FlagFetch {
    pub uid: Option<u32>,
    pub message: u32,
    pub deleted: bool,
    pub seen: bool,
}

/// One message, as the server returned it: whole, or its header and its text.
pub struct BodyFetch {
    pub uid: Option<u32>,
    pub message: u32,
    pub seen: bool,
    pub body: Option<Vec<u8>>,
    pub header: Option<Vec<u8>>,
    pub text: Option<Vec<u8>>,
}

/// The view of a [`BodyFetch`].
pub struct BodyFetchView {
    pub uid: Option<u32>,
    pub message: u32,
    pub seen: bool,
    pub body: Option<Seq<u8>>,
    pub header: Option<Seq<u8>>,
    pub text: Option<Seq<u8>>,
}

impl View for BodyFetch {
    type V = BodyFetchView;

    open spec fn view(&self) -> BodyFetchView {
        BodyFetchView {
            uid: self.uid,
            message: self.message,
            seen: self.seen,
            body: opt_bytes(self.body),
            header: opt_bytes(self.header),
            text: opt_bytes(self.text),
        }
    }
}

/// The views of a list of fetched messages.
pub open spec fn fetch_views(list: Seq<BodyFetch>) -> Seq<BodyFetchView> {
    Seq::new(list.len(), |i: int| list[i]@)
}

/// The uid of a fetched message, or its number where the server left the uid out.
pub open spec fn uid_or(uid: Option<u32>, message: u32) -> u32 {
    match uid {
        Some(u) => u,
        None => message,
    }
}

/// Computes [`uid_or`].
pub fn fetched_uid(uid: Option<u32>, message: u32) -> (r: u32)
    ensures
        r == uid_or(uid, message),
{
    match uid {
        Some(u) => u,
        None => message,
    }
}

/// A change to what is stored for a message of the folder.
#[derive(Clone, Copy)]
pub enum FlagChange {
    /// The message is flagged as deleted: what is stored for it goes.
    Delete { uid: u32 },
    /// The message is read, or it is not.
    Read { uid: u32, is_read: bool },
}

/// The change that the flags of a message ask for.
pub open spec fn change_for(fetch: FlagFetch) -> FlagChange {
    let uid = uid_or(fetch.uid, fetch.message);
    if fetch.deleted {
        FlagChange::Delete { uid }
    } else {
        FlagChange::Read { uid, is_read: fetch.seen }
    }
}

/// The changes that the flags of some messages ask for.
pub open spec fn changes_for(list: Seq<FlagFetch>) -> Seq<FlagChange> {
    Seq::new(list.len(), |i: int| change_for(list[i]))
}

/// Computes [`changes_for`].
pub fn flag_changes(list: &Vec<FlagFetch>) -> (r: Vec<FlagChange>)
    ensures
        r@ == changes_for(list@),
{
    let mut r: Vec<FlagChange> = Vec::new();
    let mut i: usize = 0;
    while i < list.len()
        invariant
            i <= list.len(),
            r@ == changes_for(list@).take(i as int),
        decreases list.len() - i,
    {
        let fetch = list[i];
        let uid = fetched_uid(fetch.uid, fetch.message);
        if fetch.deleted {
            r.push(FlagChange::Delete { uid });
        } else {
            r.push(FlagChange::Read { uid, is_read: fetch.seen });
        }
        assert(r@ =~= changes_for(list@).take(i + 1));
        i = i + 1;
    }
    assert(changes_for(list@).take(list.len() as int) =~= changes_for(list@));
    r
}

/// What is asked of the server for some messages.
#[derive(Clone, Copy, PartialEq, Eq, Structural)]
pub enum FetchQuery {
    Flags,
    Body,
    HeaderText,
}

impl FetchQuery {
    /// The query in the words of the protocol.
    pub fn text(self) -> (r: &'static str)
        ensures
            r@ == match self {
                FetchQuery::Flags => "(FLAGS)"@,
                FetchQuery::Body => "(BODY.PEEK[] FLAGS)"@,
                FetchQuery::HeaderText => "(BODY.PEEK[HEADER] BODY.PEEK[TEXT] FLAGS)"@,
            },
    {
        match self {
            FetchQuery::Flags => "(FLAGS)",
            FetchQuery::Body => "(BODY.PEEK[] FLAGS)",
            FetchQuery::HeaderText => "(BODY.PEEK[HEADER] BODY.PEEK[TEXT] FLAGS)",
        }
    }
}

// ---------------------------------------------------------------------------
// Messages from what was fetched
// ---------------------------------------------------------------------------
/// The bytes of a mail whose header and text came apart.
pub open spec fn rejoined(header: Seq<u8>, text: Seq<u8>) -> Seq<u8> {
    header + seq![13u8, 10u8] + text
}

/// The bytes of the mail in what was fetched, whole or in two pieces.
pub open spec fn fetched_mail(fetch: BodyFetchView, in_pieces: bool) -> Option<Seq<u8>> {
    if in_pieces {
        match (fetch.header, fetch.text) {
            (Some(header), Some(text)) => Some(rejoined(header, text)),
            _ => None,
        }
    } else {
        fetch.body
    }
}

/// The message to store for what was fetched; nothing where it holds no mail that
/// can be read.
pub open spec fn fetched_message(
    role: Seq<char>,
    folder: Seq<char>,
    fetch: BodyFetchView,
    in_pieces: bool,
    now: i64,
) -> Option<MessageView> {
    match fetched_mail(fetch, in_pieces) {
        Some(raw) => match read_mail(
            role,
            folder,
            uid_or(fetch.uid, fetch.message),
            raw,
            fetch.seen,
            now,
        ) {
            Ok(message) => Some(message),
            Err(_) => None,
        },
        None => None,
    }
}

/// The messages to store for what was fetched, in order.
pub open spec fn fetched_messages(
    role: Seq<char>,
    folder: Seq<char>,
    list: Seq<BodyFetchView>,
    in_pieces: bool,
    now: i64,
) -> Seq<MessageView>
    decreases list.len(),
{
    if list.len() == 0 {
        Seq::empty()
    } else {
        let rest = fetched_messages(role, folder, list.drop_last(), in_pieces, now);
        match fetched_message(role, folder, list.last(), in_pieces, now) {
            Some(message) => rest.push(message),
            None => rest,
        }
    }
}

/// Appends bytes.
fn push_bytes(out: &mut Vec<u8>, bytes: &Vec<u8>)
    ensures
        final(out)@ == old(out)@ + bytes@,
{
    let ghost before = out@;
    let mut i: usize = 0;
    while i < bytes.len()
        invariant
            i <= bytes.len(),
            out@ == before + bytes@.take(i as int),
        decreases bytes.len() - i,
    {
        out.push(bytes[i]);
        i = i + 1;
        assert(out@ =~= before + bytes@.take(i as int));
    }
    assert(bytes@.take(bytes.len() as int) =~= bytes@);
}

/// Computes [`fetched_message`].
fn message_from_fetch(role: &str, folder: &str, fetch: &BodyFetch, in_pieces: bool, now: i64) -> (r:
    Option<NewMessage>)
    ensures
        match r {
            Some(message) => fetched_message(role@, folder@, fetch@, in_pieces, now) == Some(
                message@,
            ),
            None => fetched_message(role@, folder@, fetch@, in_pieces, now) is None,
        },
{
    let uid = fetched_uid(fetch.uid, fetch.message);
    let outcome = if in_pieces {
        match (&fetch.header, &fetch.text) {
            (Some(header), Some(text)) => {
                let mut raw: Vec<u8> = Vec::new();
                push_bytes(&mut raw, header);
                raw.push(13);
                raw.push(10);
                push_bytes(&mut raw, text);
                assert(raw@ =~= rejoined(header@, text@));
                imap_to_message(role, folder, uid, raw.as_slice(), fetch.seen, now)
            },
            _ => {
                return None;
            },
        }
    } else {
        match &fetch.body {
            Some(body) => imap_to_message(role, folder, uid, body.as_slice(), fetch.seen, now),
            None => {
                return None;
            },
        }
    };
    match outcome {
        Ok(message) => Some(message),
        Err(_) => None,
    }
}

/// Computes [`fetched_messages`].
pub fn messages_from_fetches(
    role: &str,
    folder: &str,
    list: &Vec<BodyFetch>,
    in_pieces: bool,
    now: i64,
) -> (r: Vec<NewMessage>)
    ensures
        message_views(r@) == fetched_messages(role@, folder@, fetch_views(list@), in_pieces, now),
{
    let ghost all = fetch_views(list@);
    let mut r: Vec<NewMessage> = Vec::new();
    let mut i: usize = 0;
    assert(all.take(0) =~= Seq::<BodyFetchView>::empty());
    assert(message_views(r@) =~= fetched_messages(role@, folder@, all.take(0), in_pieces, now));
    while i < list.len()
        invariant
            i <= list.len(),
            all == fetch_views(list@),
            message_views(r@) == fetched_messages(
                role@,
                folder@,
                all.take(i as int),
                in_pieces,
                now,
            ),
        decreases list.len() - i,
    {
        proof {
            assert(all.take(i + 1).drop_last() =~= all.take(i as int));
            assert(all.take(i + 1).last() == list@[i as int]@);
        }
        if let Some(message) = message_from_fetch(role, folder, &list[i], in_pieces, now) {
            let ghost before = message_views(r@);
            let ghost added = message@;
            r.push(message);
            assert(message_views(r@) =~= before.push(added));
        }
        i = i + 1;
    }
    assert(all.take(list.len() as int) =~= all);
    r
}

// ---------------------------------------------------------------------------
// What is known and what is gone
// ---------------------------------------------------------------------------
/// The places of the messages with the given names.
pub open spec fn places(names: Seq<Seq<char>>) -> Set<Seq<char>> {
    Set::new(|l: Seq<char>| exists|i: int| 0 <= i < names.len() && location_of(#[trigger] names[i]) == Some(l))
}

/// Computes [`places`].
pub fn imap_locations(names: &Vec<String>) -> (r: StringHashSet)
    ensures
        r@ == places(texts(names@)),
{
    let ghost all = texts(names@);
    let mut r = StringHashSet::new();
    let mut i: usize = 0;
    assert(r@ =~= places(all.take(0)));
    while i < names.len()
        invariant
            i <= names.len(),
            all == texts(names@),
            r@ == places(all.take(i as int)),
        decreases names.len() - i,
    {
        let ghost before = r@;
        let found = imap_location_from_provider_id(names[i].as_str());
        let ghost now = all.take(i + 1);
        proof {
            assert(now[i as int] == names@[i as int]@);
            assert forall|l: Seq<char>| places(now).contains(l) <==> (before.contains(l)
                || location_of(all[i as int]) == Some(l)) by {
                if places(now).contains(l) {
                    let k = choose|k: int|
                        0 <= k < now.len() && location_of(#[trigger] now[k]) == Some(l);
                    if k < i {
                        assert(location_of(all.take(i as int)[k]) == Some(l));
                    }
                }
                if before.contains(l) {
                    let k = choose|k: int|
                        0 <= k < all.take(i as int).len() && location_of(
                            #[trigger] all.take(i as int)[k],
                        ) == Some(l);
                    assert(location_of(now[k]) == Some(l));
                }
                if location_of(all[i as int]) == Some(l) {
                    assert(location_of(now[i as int]) == Some(l));
                }
            }
        }
        if let Some(l) = found {
            r.insert(l);
        }
        assert(r@ =~= places(now));
        i = i + 1;
    }
    assert(all.take(names.len() as int) =~= all);
    r
}

/// Rows with the names of their messages.
pub open spec fn row_views(rows: Seq<(i64, String)>) -> Seq<(i64, Seq<char>)> {
    Seq::new(rows.len(), |i: int| (rows[i].0, rows[i].1@))
}

/// The rows whose messages are no longer at any of the places `keep`. Rows that
/// are not those of a message on a server stay.
pub open spec fn gone(rows: Seq<(i64, Seq<char>)>, keep: Set<Seq<char>>) -> Seq<i64>
    decreases rows.len(),
{
    if rows.len() == 0 {
        Seq::empty()
    } else {
        let rest = gone(rows.drop_last(), keep);
        match location_of(rows.last().1) {
            Some(l) => if keep.contains(l) {
                rest
            } else {
                rest.push(rows.last().0)
            },
            None => rest,
        }
    }
}

/// Computes [`gone`].
pub fn missing_imap_rows(rows: &Vec<(i64, String)>, keep: &StringHashSet) -> (r: Vec<i64>)
    ensures
        r@ == gone(row_views(rows@), keep@),
{
    let ghost all = row_views(rows@);
    let mut r: Vec<i64> = Vec::new();
    let mut i: usize = 0;
    assert(all.take(0) =~= Seq::<(i64, Seq<char>)>::empty());
    while i < rows.len()
        invariant
            i <= rows.len(),
            all == row_views(rows@),
            r@ == gone(all.take(i as int), keep@),
        decreases rows.len() - i,
    {
        proof {
            assert(all.take(i + 1).drop_last() =~= all.take(i as int));
            assert(all.take(i + 1).last() == (rows@[i as int].0, rows@[i as int].1@));
        }
        if let Some(l) = imap_location_from_provider_id(rows[i].1.as_str()) {
            if !keep.contains(l.as_str()) {
                r.push(rows[i].0);
            }
        }
        i = i + 1;
    }
    assert(all.take(rows.len() as int) =~= all);
    r
}

/// The places of some messages of a folder.
pub open spec fn places_in(folder: Seq<char>, uids: Seq<u32>) -> Set<Seq<char>> {
    Set::new(|l: Seq<char>| exists|i: int| 0 <= i < uids.len() && location(folder, #[trigger] uids[i]) == l)
}

/// The places without those of messages that are flagged as deleted.
pub open spec fn still_there(folder: Seq<char>, all: Set<Seq<char>>, list: Seq<FlagFetch>) -> Set<
    Seq<char>,
>
    decreases list.len(),
{
    if list.len() == 0 {
        all
    } else {
        let rest = still_there(folder, all, list.drop_last());
        let fetch = list.last();
        if fetch.deleted {
            rest.remove(location(folder, uid_or(fetch.uid, fetch.message)))
        } else {
            rest
        }
    }
}

/// Computes [`still_there`].
pub fn drop_deleted(folder: &str, all: &mut StringHashSet, list: &Vec<FlagFetch>)
    ensures
        final(all)@ == still_there(folder@, old(all)@, list@),
{
    let ghost start = all@;
    let mut i: usize = 0;
    assert(list@.take(0) =~= Seq::<FlagFetch>::empty());
    while i < list.len()
        invariant
            i <= list.len(),
            all@ == still_there(folder@, start, list@.take(i as int)),
        decreases list.len() - i,
    {
        let fetch = list[i];
        proof {
            assert(list@.take(i + 1).drop_last() =~= list@.take(i as int));
            assert(list@.take(i + 1).last() == fetch);
        }
        if fetch.deleted {
            let key = imap_location_key(folder, fetched_uid(fetch.uid, fetch.message));
            all.remove(key.as_str());
        }
        i = i + 1;
    }
    assert(list@.take(list.len() as int) =~= list@);
}

// ---------------------------------------------------------------------------
// Laws
// ---------------------------------------------------------------------------
/// Law: every message whose flags came asks for one change, in order: one that is
/// flagged as deleted goes, and any other is read or unread as it is on the server.
pub proof fn every_flag_is_taken_over(list: Seq<FlagFetch>, i: int)
    requires
        0 <= i < list.len(),
    ensures
        changes_for(list).len() == list.len(),
        list[i].deleted && list[i].uid is Some ==> changes_for(list)[i] == (FlagChange::Delete {
            uid: list[i].uid->Some_0,
        }),
        list[i].deleted && list[i].uid is None ==> changes_for(list)[i] == (FlagChange::Delete {
            uid: list[i].message,
        }),
        !list[i].deleted && list[i].uid is Some ==> changes_for(list)[i] == (FlagChange::Read {
            uid: list[i].uid->Some_0,
            is_read: list[i].seen,
        }),
        !list[i].deleted && list[i].uid is None ==> changes_for(list)[i] == (FlagChange::Read {
            uid: list[i].message,
            is_read: list[i].seen,
        }),
{
}

/// Law: a mail that was fetched whole is taken as it came. One that came in pieces is
/// its header, an empty line and its text; both pieces are needed.
pub proof fn pieces_make_the_mail(fetch: BodyFetchView)
    ensures
        fetched_mail(fetch, false) == fetch.body,
        fetch.header is Some && fetch.text is Some ==> ({
            let mail = fetched_mail(fetch, true)->Some_0;
            let header = fetch.header->Some_0;
            let text = fetch.text->Some_0;
            &&& fetched_mail(fetch, true) is Some
            &&& mail.len() == header.len() + 2 + text.len()
            &&& mail.take(header.len() as int) == header
            &&& mail[header.len() as int] == 13 && mail[header.len() as int + 1] == 10
            &&& mail.skip(header.len() as int + 2) == text
        }),
        fetch.header is None || fetch.text is None ==> fetched_mail(fetch, true) is None,
{
    if fetch.header is Some && fetch.text is Some {
        let header = fetch.header->Some_0;
        let text = fetch.text->Some_0;
        let mail = rejoined(header, text);
        assert(mail.take(header.len() as int) =~= header);
        assert(mail.skip(header.len() as int + 2) =~= text);
    }
}

proof fn lemma_messages_add(
    role: Seq<char>,
    folder: Seq<char>,
    a: Seq<BodyFetchView>,
    b: Seq<BodyFetchView>,
    in_pieces: bool,
    now: i64,
)
    ensures
        fetched_messages(role, folder, a + b, in_pieces, now) == fetched_messages(
            role,
            folder,
            a,
            in_pieces,
            now,
        ) + fetched_messages(role, folder, b, in_pieces, now),
    decreases b.len(),
{
    let front = fetched_messages(role, folder, a, in_pieces, now);
    if b.len() == 0 {
        assert(a + b =~= a);
        assert(front + Seq::<MessageView>::empty() =~= front);
    } else {
        lemma_messages_add(role, folder, a, b.drop_last(), in_pieces, now);
        assert((a + b).drop_last() =~= a + b.drop_last());
        assert((a + b).last() == b.last());
        let rest = fetched_messages(role, folder, b.drop_last(), in_pieces, now);
        match fetched_message(role, folder, b.last(), in_pieces, now) {
            Some(message) => {
                assert((front + rest).push(message) =~= front + rest.push(message));
            },
            None => {},
        }
    }
}

/// Law: of all that was fetched, each mail that can be read gives one message, in
/// order, with the uid that it has on the server and read where the server says so;
/// what holds no mail, or one that cannot be read, gives none.
pub proof fn every_fetched_mail_is_a_message(
    role: Seq<char>,
    folder: Seq<char>,
    a: Seq<BodyFetchView>,
    b: Seq<BodyFetchView>,
    one: BodyFetchView,
    in_pieces: bool,
    now: i64,
)
    ensures
        fetched_messages(role, folder, a + b, in_pieces, now) == fetched_messages(
            role,
            folder,
            a,
            in_pieces,
            now,
        ) + fetched_messages(role, folder, b, in_pieces, now),
        one.uid is Some && fetched_mail(one, in_pieces) is Some ==> ({
            let read = read_mail(
                role,
                folder,
                one.uid->Some_0,
                fetched_mail(one, in_pieces)->Some_0,
                one.seen,
                now,
            );
            &&& read is Ok ==> fetched_messages(role, folder, seq![one], in_pieces, now) == seq![
                read->Ok_0,
            ]
            &&& read is Err ==> fetched_messages(role, folder, seq![one], in_pieces, now).len() == 0
        }),
        fetched_mail(one, in_pieces) is None ==> fetched_messages(
            role,
            folder,
            seq![one],
            in_pieces,
            now,
        ).len() == 0,
{
    lemma_messages_add(role, folder, a, b, in_pieces, now);
    let single = seq![one];
    assert(single.drop_last() =~= Seq::<BodyFetchView>::empty());
    assert(fetched_messages(role, folder, single.drop_last(), in_pieces, now)
        =~= Seq::<MessageView>::empty());
    assert(single.last() == one);
}

/// Law: rows go one by one: whether a row goes depends on its own message alone, and
/// those that go keep their order. A row goes where its message is at none of the
/// places, and one that has no place stays.
pub proof fn rows_go_one_by_one(
    a: Seq<(i64, Seq<char>)>,
    b: Seq<(i64, Seq<char>)>,
    row: (i64, Seq<char>),
    keep: Set<Seq<char>>,
)
    ensures
        gone(a + b, keep) == gone(a, keep) + gone(b, keep),
        location_of(row.1) is None ==> gone(seq![row], keep).len() == 0,
        location_of(row.1) matches Some(l) && keep.contains(l) ==> gone(seq![row], keep).len() == 0,
        location_of(row.1) matches Some(l) && !keep.contains(l) ==> gone(seq![row], keep) == seq![
            row.0,
        ],
    decreases b.len(),
{
    let single = seq![row];
    assert(gone(single.drop_last(), keep) =~= Seq::<i64>::empty());
    assert(single.last() == row);
    if b.len() == 0 {
        assert(a + b =~= a);
        assert(gone(a, keep) + Seq::<i64>::empty() =~= gone(a, keep));
    } else {
        rows_go_one_by_one(a, b.drop_last(), row, keep);
        assert((a + b).drop_last() =~= a + b.drop_last());
        assert((a + b).last() == b.last());
        let front = gone(a, keep);
        let rest = gone(b.drop_last(), keep);
        assert((front + rest).push(b.last().0) =~= front + rest.push(b.last().0));
    }
}

/// Law: a message is known exactly where a stored name holds its folder and its uid,
/// whatever its message id; and the places of a folder are those of its uids. A colon
/// in the folder ends the folder early, so such folders are left out.
pub proof fn known_places_are_those_of_stored_names(
    names: Seq<Seq<char>>,
    folder: Seq<char>,
    uid: u32,
    id: Option<Seq<char>>,
    l: Seq<char>,
)
    requires
        lacks(folder, ':'),
    ensures
        places(names.push(provider_id(folder, uid, id))).contains(l) == (l == location(folder, uid)
            || places(names).contains(l)),
        !places(Seq::empty()).contains(l),
        !places_in(folder, Seq::empty()).contains(l),
        places_in(folder, seq![uid]).contains(l) == (l == location(folder, uid)),
{
    names_are_read_back(folder, uid, id);
    let name = provider_id(folder, uid, id);
    let more = names.push(name);
    assert(more[names.len() as int] == name);
    if places(names).contains(l) {
        let i = choose|i: int| 0 <= i < names.len() && location_of(#[trigger] names[i]) == Some(l);
        assert(more[i] == names[i]);
        assert(places(more).contains(l));
    }
    if places(more).contains(l) {
        let i = choose|i: int| 0 <= i < more.len() && location_of(#[trigger] more[i]) == Some(l);
        if i < names.len() {
            assert(names[i] == more[i]);
        }
    }
    assert(seq![uid][0] == uid);
}

/// Law: the places of more messages are those of the one and those of the other.
pub proof fn places_add_up(folder: Seq<char>, a: Seq<u32>, b: Seq<u32>)
    ensures
        places_in(folder, a + b) == places_in(folder, a) + places_in(folder, b),
{
    let all = a + b;
    assert forall|l: Seq<char>| places_in(folder, all).contains(l) == (places_in(folder, a)
        + places_in(folder, b)).contains(l) by {
        if places_in(folder, all).contains(l) {
            let i = choose|i: int|
                0 <= i < all.len() && location(folder, #[trigger] all[i]) == l;
            if i < a.len() {
                assert(a[i] == all[i]);
            } else {
                assert(b[i - a.len()] == all[i]);
            }
        }
        if places_in(folder, a).contains(l) {
            let i = choose|i: int| 0 <= i < a.len() && location(folder, #[trigger] a[i]) == l;
            assert(all[i] == a[i]);
        }
        if places_in(folder, b).contains(l) {
            let i = choose|i: int| 0 <= i < b.len() && location(folder, #[trigger] b[i]) == l;
            assert(all[a.len() + i] == b[i]);
        }
    }
    assert(places_in(folder, all) =~= places_in(folder, a) + places_in(folder, b));
}

} // verus!
