//! How messages on an IMAP server are named: by folder and uid, and by the
//! message id where one is known.
use vstd::prelude::*;
use vstd::string::*;

use crate::msgid::{
    canonical, first_id, header_id_of_provider, joined_ids_are_read_back, normalize_message_id,
    reply_header_id,
};
use crate::number::{
    decimal, decimal_text, is_digit, lemma_decimal, lemma_u32_roundtrip, parse_u32, push_decimal,
    u32_of,
};
use crate::text::{
    after_prefix, blank, cat, cat3, chars_of, find_char, find_one, has_prefix, is_blank, join,
    join_strings, lemma_already_trimmed, lemma_find_char, lemma_find_char_unique, lemma_trimmed,
    opt_str, opt_text, rfind_char, same, starts, string_of, texts, trim, trimmed, white,
};
use crate::words::space;

verus! {

// ---------------------------------------------------------------------------
// Names of messages
// ---------------------------------------------------------------------------
/// A folder and a uid in it.
pub open spec fn location(folder: Seq<char>, uid: u32) -> Seq<char> {
    folder + ":"@ + decimal(uid as nat)
}

/// Computes [`location`].
pub fn imap_location_key(folder: &str, uid: u32) -> (r: String)
    ensures
        r@ == location(folder@, uid),
{
    let mut r = cat(folder, ":");
    push_decimal(&mut r, uid as u64);
    r
}

/// The name of a message: its location, and its message id where that is known
/// and not blank.
pub open spec fn provider_id(folder: Seq<char>, uid: u32, message_id: Option<Seq<char>>) -> Seq<char> {
    let base = "imap-uid:"@ + location(folder, uid);
    match message_id {
        Some(id) => if blank(id) {
            base
        } else {
            base + ":"@ + trim(id)
        },
        None => base,
    }
}

/// Computes [`provider_id`].
pub fn imap_provider_message_id(folder: &str, uid: u32, message_id: Option<&str>) -> (r: String)
    ensures
        r@ == provider_id(folder@, uid, opt_str(message_id)),
{
    let key = imap_location_key(folder, uid);
    let base = cat("imap-uid:", key.as_str());
    match message_id {
        Some(id) => {
            let id = trimmed(id);
            if id.as_str().is_empty() {
                base
            } else {
                cat3(base.as_str(), ":", id.as_str())
            }
        },
        None => base,
    }
}

/// Folder, uid and message id of a named message.
pub open spec fn provider_parts(p: Seq<char>) -> Option<(Seq<char>, u32, Option<Seq<char>>)> {
    if !starts(p, "imap-uid:"@) {
        None
    } else {
        let rest = p.skip(9);
        match find_char(rest, ':', 0) {
            None => None,
            Some(a) => {
                let (uid, id) = match find_char(rest, ':', a + 1) {
                    None => (rest.skip(a + 1), None),
                    Some(b) => (
                        rest.subrange(a + 1, b),
                        if blank(rest.skip(b + 1)) {
                            None
                        } else {
                            Some(rest.skip(b + 1))
                        },
                    ),
                };
                match u32_of(uid) {
                    Some(uid) => Some((rest.take(a), uid, id)),
                    None => None,
                }
            },
        }
    }
}

/// Views of the parts that [`parse_imap_provider_message_id_parts`] finds.
pub open spec fn parts_view(r: Option<(String, u32, Option<&str>)>) -> Option<
    (Seq<char>, u32, Option<Seq<char>>),
> {
    match r {
        Some((folder, uid, id)) => Some((folder@, uid, opt_str(id))),
        None => None,
    }
}

/// Computes [`provider_parts`].
pub fn parse_imap_provider_message_id_parts(provider_message_id: &str) -> (r: Option<
    (String, u32, Option<&str>),
>)
    ensures
        parts_view(r) == provider_parts(provider_message_id@),
{
    proof {
        reveal_strlit("imap-uid:");
    }
    let ghost p = provider_message_id@;
    if !has_prefix(provider_message_id, "imap-uid:") {
        return None;
    }
    let v = chars_of(provider_message_id);
    let n: usize = v.len();
    let ghost rest = p.skip(9);
    proof {
        crate::msgid::lemma_find_char_shift(p, ':', 9, 0);
    }
    let a = match find_one(&v, ':', 9) {
        Some(a) => a,
        None => {
            return None;
        },
    };
    proof {
        crate::msgid::lemma_find_char_shift(p, ':', 9, a - 9 + 1);
    }
    let folder = string_of(&v, 9, a);
    assert(v@.subrange(9, a as int) =~= rest.take(a - 9));
    match find_one(&v, ':', a + 1) {
        Some(b) => {
            let uid = string_of(&v, a + 1, b);
            assert(v@.subrange(a + 1, b as int) =~= rest.subrange(a - 9 + 1, b - 9));
            let id = provider_message_id.substring_char(b + 1, n);
            assert(id@ =~= rest.skip(b - 9 + 1));
            let id = if is_blank(id) {
                None
            } else {
                Some(id)
            };
            match parse_u32(uid.as_str()) {
                Some(uid) => Some((folder, uid, id)),
                None => None,
            }
        },
        None => {
            let uid = string_of(&v, a + 1, n);
            assert(v@.subrange(a + 1, n as int) =~= rest.skip(a - 9 + 1));
            match parse_u32(uid.as_str()) {
                Some(uid) => Some((folder, uid, None)),
                None => None,
            }
        },
    }
}

/// The error for a name that is not that of a message on an IMAP server.
pub open spec fn no_uid_error() -> Seq<char> {
    "Cannot identify IMAP message UID"@
}

/// [`provider_parts`], or an error.
pub fn parse_imap_provider_message_id(provider_message_id: &str) -> (r: Result<
    (String, u32, Option<&str>),
    String,
>)
    ensures
        match r {
            Ok(parts) => provider_parts(provider_message_id@) is Some && parts_view(Some(parts))
                == provider_parts(provider_message_id@),
            Err(e) => provider_parts(provider_message_id@) is None && e@ == no_uid_error(),
        },
{
    match parse_imap_provider_message_id_parts(provider_message_id) {
        Some(parts) => Ok(parts),
        None => Err("Cannot identify IMAP message UID".to_owned()),
    }
}

/// The location in the name of a message.
pub open spec fn location_of(p: Seq<char>) -> Option<Seq<char>> {
    match provider_parts(p) {
        Some((folder, uid, _)) => Some(location(folder, uid)),
        None => None,
    }
}

/// Computes [`location_of`].
pub fn imap_location_from_provider_id(provider_message_id: &str) -> (r: Option<String>)
    ensures
        opt_text(r) == location_of(provider_message_id@),
{
    match parse_imap_provider_message_id_parts(provider_message_id) {
        Some((folder, uid, _)) => Some(imap_location_key(folder.as_str(), uid)),
        None => None,
    }
}

/// The name of a message that was sent from here and has not come back yet.
pub open spec fn local_sent(p: Seq<char>) -> bool {
    starts(p, "local-sent:"@)
}

/// Tells whether a name is that of a message sent from here.
pub fn is_local_sent_id(provider_message_id: &str) -> (r: bool)
    ensures
        r == local_sent(provider_message_id@),
{
    has_prefix(provider_message_id, "local-sent:")
}

/// The message id that the name of a message holds.
pub open spec fn header_id_in_name(p: Seq<char>) -> Option<Seq<char>> {
    if local_sent(p) {
        first_id(p.skip(11))
    } else {
        match provider_parts(p) {
            Some((_, _, Some(id))) => first_id(id),
            _ => None,
        }
    }
}

/// Computes [`header_id_in_name`].
pub fn message_header_id_from_provider_id(provider_message_id: &str) -> (r: Option<String>)
    ensures
        opt_text(r) == header_id_in_name(provider_message_id@),
{
    proof {
        reveal_strlit("local-sent:");
    }
    if let Some(id) = after_prefix(provider_message_id, "local-sent:") {
        return normalize_message_id(id.as_str());
    }
    match parse_imap_provider_message_id_parts(provider_message_id) {
        Some((_, _, Some(id))) => normalize_message_id(id),
        _ => None,
    }
}

/// The name of the local copy that a message makes superfluous: a message in
/// Sent that came from the server, for the copy with the same message id.
pub open spec fn superseded_copy(folder: Seq<char>, p: Seq<char>) -> Option<Seq<char>> {
    if folder != "Sent"@ || local_sent(p) {
        None
    } else {
        match header_id_of_provider(p) {
            Some(id) => Some("local-sent:"@ + id),
            None => None,
        }
    }
}

/// Computes [`superseded_copy`].
pub fn matching_local_sent_copy(folder: &str, provider_message_id: &str) -> (r: Option<String>)
    ensures
        opt_text(r) == superseded_copy(folder@, provider_message_id@),
{
    if !same(folder, "Sent") || is_local_sent_id(provider_message_id) {
        return None;
    }
    match reply_header_id(provider_message_id) {
        Some(id) => Some(cat("local-sent:", id.as_str())),
        None => None,
    }
}

/// What finds the stored messages of a location: their name without a message
/// id, and a pattern for names with one.
pub fn imap_location_patterns(folder: &str, uid: u32) -> (r: (String, String))
    ensures
        r.0@ == provider_id(folder@, uid, None),
        r.1@ == provider_id(folder@, uid, None) + ":%"@,
{
    let exact = imap_provider_message_id(folder, uid, None);
    let like = cat(exact.as_str(), ":%");
    (exact, like)
}

// ---------------------------------------------------------------------------
// Sets of uids
// ---------------------------------------------------------------------------
/// The uids in decimal.
pub open spec fn uid_texts(uids: Seq<u32>) -> Seq<Seq<char>> {
    Seq::new(uids.len(), |i: int| decimal(uids[i] as nat))
}

/// The uids in decimal with commas between neighbours.
pub fn imap_uid_set(uids: &[u32]) -> (r: String)
    ensures
        r@ == join(uid_texts(uids@), ","@),
{
    let mut parts: Vec<String> = Vec::new();
    let mut i: usize = 0;
    while i < uids.len()
        invariant
            i <= uids.len(),
            texts(parts@) == uid_texts(uids@).take(i as int),
        decreases uids.len() - i,
    {
        let ghost before = texts(parts@);
        parts.push(decimal_text(uids[i] as u64));
        assert(texts(parts@) =~= before.push(decimal(uids@[i as int] as nat)));
        i = i + 1;
    }
    assert(uid_texts(uids@).take(uids.len() as int) =~= uid_texts(uids@));
    join_strings(&parts, ",")
}

/// A short description of some uids: none, the one, or the first, the last and
/// how many they are.
pub open spec fn uid_summary(uids: Seq<u32>) -> Seq<char> {
    if uids.len() == 0 {
        "-"@
    } else if uids.len() == 1 {
        decimal(uids[0] as nat)
    } else {
        decimal(uids[0] as nat) + ".."@ + decimal(uids.last() as nat) + " ("@ + decimal(uids.len())
            + " uids)"@
    }
}

/// Computes [`uid_summary`].
pub fn imap_uid_summary(uids: &[u32]) -> (r: String)
    ensures
        r@ == uid_summary(uids@),
{
    if uids.len() == 0 {
        return "-".to_owned();
    }
    let mut r = decimal_text(uids[0] as u64);
    if uids.len() == 1 {
        return r;
    }
    r.append("..");
    push_decimal(&mut r, uids[uids.len() - 1] as u64);
    r.append(" (");
    push_decimal(&mut r, uids.len() as u64);
    r.append(" uids)");
    r
}

/// The uid of the message that arrived last: the largest, if there is any.
pub open spec fn newest(uids: Seq<u32>) -> Option<u32>
    decreases uids.len(),
{
    if uids.len() == 0 {
        None
    } else {
        match newest(uids.drop_last()) {
            Some(m) => if uids.last() < m {
                Some(m)
            } else {
                Some(uids.last())
            },
            None => Some(uids.last()),
        }
    }
}

/// [`newest`] is one of the uids, and none is larger.
pub proof fn lemma_newest(uids: Seq<u32>)
    ensures
        match newest(uids) {
            Some(m) => uids.contains(m) && forall|i: int| 0 <= i < uids.len() ==> #[trigger] uids[i] <= m,
            None => uids.len() == 0,
        },
    decreases uids.len(),
{
    if uids.len() > 0 {
        let front = uids.drop_last();
        lemma_newest(front);
        if newest(uids) == Some(uids.last()) {
            assert(uids[uids.len() - 1] == uids.last());
        } else {
            let k = choose|k: int| 0 <= k < front.len() && front[k] == newest(front)->Some_0;
            assert(uids[k] == front[k]);
        }
        assert forall|i: int| 0 <= i < uids.len() implies #[trigger] uids[i] <= newest(uids)->Some_0 by {
            if i < front.len() {
                assert(front[i] == uids[i]);
            }
        }
    }
}

/// Computes [`newest`].
pub fn newest_uid(uids: &[u32]) -> (r: Option<u32>)
    ensures
        r == newest(uids@),
        match r {
            Some(m) => uids@.contains(m) && forall|i: int| 0 <= i < uids@.len() ==> #[trigger] uids@[i] <= m,
            None => uids@.len() == 0,
        },
{
    let mut r: Option<u32> = None;
    let mut i: usize = 0;
    while i < uids.len()
        invariant
            i <= uids.len(),
            r == newest(uids@.take(i as int)),
        decreases uids.len() - i,
    {
        assert(uids@.take(i + 1).drop_last() =~= uids@.take(i as int));
        assert(uids@.take(i + 1).last() == uids@[i as int]);
        r = match r {
            Some(m) => if uids[i] < m {
                Some(m)
            } else {
                Some(uids[i])
            },
            None => Some(uids[i]),
        };
        i = i + 1;
    }
    proof {
        assert(uids@.take(uids.len() as int) =~= uids@);
        lemma_newest(uids@);
    }
    r
}

// ---------------------------------------------------------------------------
// Quoted strings in searches
// ---------------------------------------------------------------------------
/// One character of a quoted string: quotes and backslashes get a backslash in
/// front, line ends become spaces.
pub open spec fn escaped_char(c: char) -> Seq<char> {
    if c == '\\' {
        seq!['\\', '\\']
    } else if c == '"' {
        seq!['\\', '"']
    } else if c == '\r' || c == '\n' {
        seq![' ']
    } else {
        seq![c]
    }
}

/// [`escaped_char`] on every character.
pub open spec fn escaped(s: Seq<char>) -> Seq<char>
    decreases s.len(),
{
    if s.len() == 0 {
        s
    } else {
        escaped(s.drop_last()) + escaped_char(s.last())
    }
}

/// A quoted string that stands for `value` in a search.
pub fn imap_search_quoted(value: &str) -> (r: String)
    ensures
        r@ == seq!['"'] + escaped(value@) + seq!['"'],
{
    let v = chars_of(value);
    let mut r = String::new();
    r.push('"');
    let mut i: usize = 0;
    while i < v.len()
        invariant
            i <= v.len(),
            r@ == seq!['"'] + escaped(v@.take(i as int)),
        decreases v.len() - i,
    {
        let c: char = v[i];
        let ghost before = r@;
        if c == '\\' {
            r.push('\\');
            r.push('\\');
        } else if c == '"' {
            r.push('\\');
            r.push('"');
        } else if c == '\r' || c == '\n' {
            r.push(' ');
        } else {
            r.push(c);
        }
        proof {
            assert(v@.take(i + 1).drop_last() =~= v@.take(i as int));
            assert(v@.take(i + 1).last() == c);
            assert(r@ =~= before + escaped_char(c));
            assert(r@ =~= seq!['"'] + escaped(v@.take(i + 1)));
        }
        i = i + 1;
    }
    assert(v@.take(v.len() as int) =~= value@);
    r.push('"');
    assert(r@ =~= seq!['"'] + escaped(value@) + seq!['"']);
    r
}

/// The search for the messages with a given message id.
pub open spec fn id_search(message_id: Seq<char>) -> Seq<char> {
    "HEADER Message-ID "@ + (seq!['"'] + escaped(message_id) + seq!['"'])
}

/// Computes [`id_search`].
pub fn message_id_search(message_id: &str) -> (r: String)
    ensures
        r@ == id_search(message_id@),
{
    let quoted = imap_search_quoted(message_id);
    cat("HEADER Message-ID ", quoted.as_str())
}

// ---------------------------------------------------------------------------
// Laws
// ---------------------------------------------------------------------------
/// `c` does not occur in `s`.
pub open spec fn lacks(s: Seq<char>, c: char) -> bool {
    forall|i: int| 0 <= i < s.len() ==> #[trigger] s[i] != c
}

proof fn lemma_digits_lack(n: nat, c: char)
    requires
        !is_digit(c),
    ensures
        lacks(decimal(n), c),
        decimal(n).len() > 0,
{
    lemma_decimal(n);
    assert forall|i: int| 0 <= i < decimal(n).len() implies #[trigger] decimal(n)[i] != c by {
        assert(is_digit(decimal(n)[i]));
    }
}

/// Law: two different places on a server have different locations.
pub proof fn locations_are_distinct(f: Seq<char>, u: u32, g: Seq<char>, w: u32)
    requires
        location(f, u) == location(g, w),
    ensures
        f == g,
        u == w,
{
    reveal_strlit(":");
    let x = location(f, u);
    lemma_digits_lack(u as nat, ':');
    lemma_digits_lack(w as nat, ':');
    let y = location(g, w);
    assert(x[f.len() as int] == ':');
    assert(y[g.len() as int] == ':');
    assert(x.len() == f.len() + 1 + decimal(u as nat).len());
    assert(y.len() == g.len() + 1 + decimal(w as nat).len());
    assert(f.len() == g.len()) by {
        if f.len() < g.len() {
            assert(x[g.len() as int] == decimal(u as nat)[g.len() - f.len() - 1]);
        }
        if g.len() < f.len() {
            assert(y[f.len() as int] == decimal(w as nat)[f.len() - g.len() - 1]);
        }
    }
    let n = f.len() as int;
    assert(f =~= x.take(n));
    assert(g =~= x.take(n));
    assert(decimal(u as nat) =~= x.skip(n + 1));
    assert(decimal(w as nat) =~= x.skip(n + 1));
    lemma_u32_roundtrip(u);
    lemma_u32_roundtrip(w);
}

/// Law: the name of a message gives back its folder, its uid and its message id,
/// whatever stands around the id. A colon in the folder ends the folder early,
/// so such folders are left out.
pub proof fn names_are_read_back(folder: Seq<char>, uid: u32, id: Option<Seq<char>>)
    requires
        lacks(folder, ':'),
    ensures
        provider_parts(provider_id(folder, uid, id)) == Some(
            (
                folder,
                uid,
                match id {
                    Some(i) => if blank(i) {
                        None
                    } else {
                        Some(trim(i))
                    },
                    None => None,
                },
            ),
        ),
        location_of(provider_id(folder, uid, id)) == Some(location(folder, uid)),
{
    reveal_strlit("imap-uid:");
    reveal_strlit(":");
    let p = provider_id(folder, uid, id);
    let d = decimal(uid as nat);
    lemma_digits_lack(uid as nat, ':');
    lemma_u32_roundtrip(uid);
    assert(p.take(9) =~= "imap-uid:"@);
    let rest = p.skip(9);
    let a = folder.len() as int;
    assert(rest[a] == ':');
    assert forall|j: int| 0 <= j < a implies rest[j] != ':' by {
        assert(rest[j] == folder[j]);
    }
    lemma_find_char_unique(rest, ':', 0, a);
    assert(rest.take(a) =~= folder);
    let named = id is Some && !blank(id->Some_0);
    if named {
        let t = trim(id->Some_0);
        let b = a + 1 + d.len();
        assert(rest[b] == ':');
        assert forall|j: int| a + 1 <= j < b implies rest[j] != ':' by {
            assert(rest[j] == d[j - a - 1]);
        }
        lemma_find_char_unique(rest, ':', a + 1, b);
        assert(rest.subrange(a + 1, b) =~= d);
        assert(rest.skip(b + 1) =~= t);
        lemma_trimmed(id->Some_0);
    } else {
        assert(rest =~= folder + ":"@ + d);
        assert forall|j: int| a + 1 <= j < rest.len() implies rest[j] != ':' by {
            assert(rest[j] == d[j - a - 1]);
        }
        lemma_find_char(rest, ':', a + 1);
        assert(rest.skip(a + 1) =~= d);
    }
}

/// Law: no name of a message on a server is that of a message sent from here.
pub proof fn server_names_are_not_local(folder: Seq<char>, uid: u32, id: Option<Seq<char>>)
    ensures
        !local_sent(provider_id(folder, uid, id)),
{
    reveal_strlit("imap-uid:");
    reveal_strlit("local-sent:");
    let p = provider_id(folder, uid, id);
    assert(p[0] == 'i');
    if local_sent(p) {
        assert(p.take(11)[0] == 'l');
    }
}

/// Law: the names of all messages of one location are found by the patterns of
/// that location: they are the exact name, or continue it behind a colon.
pub proof fn patterns_cover_the_location(folder: Seq<char>, uid: u32, id: Option<Seq<char>>)
    ensures
        provider_id(folder, uid, id) == provider_id(folder, uid, None) || starts(
            provider_id(folder, uid, id),
            provider_id(folder, uid, None) + ":"@,
        ),
{
    let base = provider_id(folder, uid, None);
    let p = provider_id(folder, uid, id);
    if p != base {
        let head = base + ":"@;
        assert(p.take(head.len() as int) =~= head);
    }
}

proof fn lemma_canonical_first(id: Seq<char>)
    requires
        canonical(id),
    ensures
        first_id(id) == Some(id),
        trim(id) == id,
        !blank(id),
{
    let one = seq![id];
    assert forall|i: int| 0 <= i < one.len() implies canonical(#[trigger] one[i]) by {}
    joined_ids_are_read_back(one);
    assert(join(one, space()) == id);
    assert(!white(id[0]) && !white(id.last()));
    lemma_already_trimmed(id);
}

/// Law: the message id that went into a name is found in it again.
pub proof fn names_keep_the_message_id(folder: Seq<char>, uid: u32, id: Seq<char>)
    requires
        canonical(id),
        lacks(folder, ':'),
    ensures
        header_id_in_name(provider_id(folder, uid, Some(id))) == Some(id),
        header_id_in_name("local-sent:"@ + id) == Some(id),
{
    lemma_canonical_first(id);
    server_names_are_not_local(folder, uid, Some(id));
    names_are_read_back(folder, uid, Some(id));
    reveal_strlit("local-sent:");
    let p = "local-sent:"@ + id;
    assert(p.take(11) =~= "local-sent:"@);
    assert(p.skip(11) =~= id);
}

/// Law: a sent message that comes back from the server names, by its message id,
/// the local copy that was stored when it was sent.
pub proof fn returned_message_supersedes_its_copy(folder: Seq<char>, uid: u32, id: Seq<char>)
    requires
        canonical(id),
        lacks(folder, '<'),
    ensures
        superseded_copy("Sent"@, provider_id(folder, uid, Some(id))) == Some("local-sent:"@ + id),
        header_id_of_provider("local-sent:"@ + id) == Some(id),
        superseded_copy("Sent"@, "local-sent:"@ + id) is None,
{
    reveal_strlit("imap-uid:");
    reveal_strlit(":");
    reveal_strlit("local-sent:");
    lemma_canonical_first(id);
    server_names_are_not_local(folder, uid, Some(id));
    let p = provider_id(folder, uid, Some(id));
    let d = decimal(uid as nat);
    let base = "imap-uid:"@ + location(folder, uid) + ":"@;
    lemma_digits_lack(uid as nat, '<');
    assert(p == base + id);
    let a = base.len() as int;
    assert(p[a] == '<');
    assert forall|j: int| 0 <= j < a implies p[j] != '<' by {
        if 9 <= j < 9 + folder.len() {
            assert(p[j] == folder[j - 9]);
        } else if 10 + folder.len() <= j < a - 1 {
            assert(p[j] == d[j - 10 - folder.len()]);
        }
    }
    lemma_find_char_unique(p, '<', 0, a);
    assert(p.last() == '>');
    assert(rfind_char(p, '>', p.len() as int) == Some(p.len() - 1));
    assert(p.subrange(a, p.len() as int) =~= id);
    let q = "local-sent:"@ + id;
    assert(q.take(11) =~= "local-sent:"@);
    assert(q.skip(11) =~= id);
}

/// A quoted string as a server reads it: a backslash stands for the character
/// behind it.
pub open spec fn unescaped(s: Seq<char>) -> Seq<char>
    decreases s.len(),
{
    if s.len() == 0 {
        s
    } else if s[0] == '\\' && s.len() > 1 {
        seq![s[1]] + unescaped(s.skip(2))
    } else {
        seq![s[0]] + unescaped(s.skip(1))
    }
}

proof fn lemma_escaped_front(s: Seq<char>)
    requires
        s.len() > 0,
    ensures
        escaped(s) == escaped_char(s[0]) + escaped(s.skip(1)),
    decreases s.len(),
{
    if s.len() == 1 {
        assert(s.drop_last() =~= Seq::<char>::empty());
        assert(s.skip(1) =~= Seq::<char>::empty());
        assert(escaped(s) =~= escaped_char(s[0]) + escaped(s.skip(1)));
    } else {
        lemma_escaped_front(s.drop_last());
        assert(s.drop_last().skip(1) =~= s.skip(1).drop_last());
        assert(escaped(s) =~= escaped_char(s[0]) + escaped(s.skip(1)));
    }
}

/// Law: a server reads back from a quoted string the text that was quoted. Line
/// ends are written as spaces, so texts with line ends are left out.
pub proof fn quoted_text_is_read_back(s: Seq<char>)
    requires
        lacks(s, '\r'),
        lacks(s, '\n'),
    ensures
        unescaped(escaped(s)) == s,
    decreases s.len(),
{
    if s.len() > 0 {
        lemma_escaped_front(s);
        let t = s.skip(1);
        assert forall|i: int| 0 <= i < t.len() implies #[trigger] t[i] != '\r' && t[i] != '\n' by {
            assert(t[i] == s[i + 1]);
        }
        quoted_text_is_read_back(t);
        let e = escaped(s);
        let n = escaped_char(s[0]).len() as int;
        assert(e.skip(n) =~= escaped(t));
        assert(unescaped(e) =~= s);
    }
}

/// Law: a quoted string never holds a line end.
pub proof fn quoted_text_has_no_line_end(s: Seq<char>)
    ensures
        lacks(escaped(s), '\r'),
        lacks(escaped(s), '\n'),
    decreases s.len(),
{
    if s.len() > 0 {
        quoted_text_has_no_line_end(s.drop_last());
    }
}

/// Law: a message on a server is named by its folder, its uid and, where it has one,
/// its message id, one behind the other with colons between them.
pub proof fn names_hold_folder_uid_and_id(folder: Seq<char>, uid: u32, id: Seq<char>)
    ensures
        provider_id(folder, uid, None) == "imap-uid:"@ + folder + ":"@ + decimal(uid as nat),
        blank(id) ==> provider_id(folder, uid, Some(id)) == provider_id(folder, uid, None),
        !blank(id) ==> provider_id(folder, uid, Some(id)) == "imap-uid:"@ + folder + ":"@ + decimal(
            uid as nat,
        ) + ":"@ + trim(id),
{
    assert("imap-uid:"@ + (folder + ":"@ + decimal(uid as nat)) =~= "imap-uid:"@ + folder + ":"@
        + decimal(uid as nat));
}

/// Law: a copy is superseded only in the folder of sent mail, and only by a message
/// that was not itself stored when it was sent.
pub proof fn only_sent_mail_supersedes(folder: Seq<char>, p: Seq<char>)
    ensures
        folder != "Sent"@ ==> superseded_copy(folder, p) is None,
        starts(p, "local-sent:"@) ==> superseded_copy(folder, p) is None,
        superseded_copy(folder, p) matches Some(copy) ==> header_id_of_provider(p) is Some && copy
            == "local-sent:"@ + header_id_of_provider(p)->Some_0,
{
}

/// Law: a set of uids names all of them, in order, with commas between them, and a
/// description names the first, the last and how many there are.
pub proof fn sets_name_every_uid(a: Seq<u32>, b: Seq<u32>, uid: u32)
    ensures
        join(uid_texts(seq![uid]), ","@) == decimal(uid as nat),
        a.len() > 0 ==> join(uid_texts(a + seq![uid]), ","@) == join(uid_texts(a), ","@) + ","@
            + decimal(uid as nat),
        uid_texts(a + b) == uid_texts(a) + uid_texts(b),
        uid_summary(Seq::empty()) == "-"@,
        uid_summary(seq![uid]) == decimal(uid as nat),
        a.len() > 0 ==> uid_summary(a + seq![uid]) == decimal(a[0] as nat) + ".."@ + decimal(
            uid as nat,
        ) + " ("@ + decimal(a.len() + 1) + " uids)"@,
{
    let longer = a + seq![uid];
    assert(uid_texts(longer).drop_last() =~= uid_texts(a));
    assert(uid_texts(longer).last() == decimal(uid as nat));
    assert(uid_texts(a + b) =~= uid_texts(a) + uid_texts(b));
    assert(longer.last() == uid);
    assert(longer.len() == a.len() + 1);
}

/// Law: a search for a message id asks for a header field, and names the id between
/// quotes so that a server reads it back.
pub proof fn searches_name_the_message_id(id: Seq<char>)
    requires
        lacks(id, '\r'),
        lacks(id, '\n'),
    ensures
        ({
            let s = id_search(id);
            let n = s.len() as int;
            &&& n >= 20
            &&& s.take(19) == "HEADER Message-ID \""@
            &&& s[n - 1] == '"'
            &&& unescaped(s.subrange(19, n - 1)) == id
        }),
{
    reveal_strlit("HEADER Message-ID ");
    reveal_strlit("HEADER Message-ID \"");
    quoted_text_is_read_back(id);
    let s = id_search(id);
    assert(s.take(19) =~= "HEADER Message-ID \""@);
    assert(s.subrange(19, s.len() - 1) =~= escaped(id));
}

} // verus!
