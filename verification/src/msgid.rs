//! Message ids: lists of them in header values, and the conversation that a
//! message belongs to.
use vstd::prelude::*;
use vstd::string::*;

use crate::text::{
    after_prefix, blank, cat, cat3, chars_of, copy, find_char, find_one, has_prefix, is_blank, join,
    join_strings, lemma_already_trimmed, lemma_find_char, lemma_find_char_unique, lemma_rfind_char,
    lemma_skip_white,
    lemma_skip_white_unique, lemma_trim_range, lemma_trimmed, lower, opt_str, opt_text, rfind_char, rfind_one,
    same_ignoring_case, skip_white, starts, string_of, texts, to_lower, trim, trim_start, trimmed,
    white,
};
use crate::words::{lemma_join_front, space};

verus! {

// ---------------------------------------------------------------------------
// Lists of message ids
// ---------------------------------------------------------------------------
/// The ids of a header value that holds nothing but ids: each stands between
/// `<` and the next `>`, and white space may stand around it.
pub open spec fn listed_ids(s: Seq<char>) -> Option<Seq<Seq<char>>>
    decreases s.len(),
{
    let r = trim_start(s);
    if r.len() == 0 || r.len() > s.len() {
        Some(Seq::empty())
    } else if r[0] != '<' {
        None
    } else {
        match find_char(r, '>', 0) {
            Some(e) => if 0 <= e < r.len() {
                match listed_ids(r.skip(e + 1)) {
                    Some(rest) => Some(seq![r.subrange(1, e)] + rest),
                    None => None,
                }
            } else {
                None
            },
            None => None,
        }
    }
}

/// `mailparse::msgidparse`: the ids without their angle brackets, in order, or
/// an error where the text is not a list of ids.
#[verifier::external_body]
fn msgid_list(ids: &str) -> (r: Option<Vec<String>>)
    ensures
        match r {
            Some(list) => listed_ids(ids@) == Some(texts(list@)),
            None => listed_ids(ids@) is None,
        },
{
    match mailparse::msgidparse(ids) {
        Ok(list) => Some(list.to_vec()),
        Err(_) => None,
    }
}

/// An id between angle brackets.
pub open spec fn bracketed(id: Seq<char>) -> Seq<char> {
    seq!['<'] + id + seq!['>']
}

/// The ids that stand between angle brackets somewhere in `s`, without those
/// that are blank.
pub open spec fn bracket_ids(s: Seq<char>) -> Seq<Seq<char>>
    decreases s.len(),
{
    match find_char(s, '<', 0) {
        Some(a) => if 0 <= a < s.len() {
            match find_char(s, '>', a + 1) {
                Some(e) => if a < e < s.len() {
                    let id = trim(s.subrange(a + 1, e));
                    let rest = bracket_ids(s.skip(e + 1));
                    if id.len() == 0 {
                        rest
                    } else {
                        seq![bracketed(id)] + rest
                    }
                } else {
                    Seq::empty()
                },
                None => Seq::empty(),
            }
        } else {
            Seq::empty()
        },
        None => Seq::empty(),
    }
}

/// Each id trimmed and put between angle brackets.
pub open spec fn bracket_all(ids: Seq<Seq<char>>) -> Seq<Seq<char>> {
    Seq::new(ids.len(), |i: int| bracketed(trim(ids[i])))
}

/// The message ids of a header value. A value that is no clean list of ids gives
/// what stands between angle brackets in it.
pub open spec fn message_ids(s: Seq<char>) -> Seq<Seq<char>> {
    match listed_ids(s) {
        Some(ids) => bracket_all(ids),
        None => bracket_ids(s),
    }
}

/// Computes [`bracketed`].
fn put_brackets(id: &str) -> (r: String)
    ensures
        r@ == bracketed(id@),
{
    let r = cat3("<", id, ">");
    proof {
        reveal_strlit("<");
        reveal_strlit(">");
        assert(r@ =~= bracketed(id@));
    }
    r
}

/// Computes [`bracket_ids`].
fn ids_between_brackets(value: &str) -> (ids: Vec<String>)
    ensures
        texts(ids@) == bracket_ids(value@),
{
    let v = chars_of(value);
    let mut ids: Vec<String> = Vec::new();
    let mut from: usize = 0;
    assert(v@.skip(0) =~= v@);
    loop
        invariant
            from <= v.len(),
            v@ == value@,
            texts(ids@) + bracket_ids(v@.skip(from as int)) == bracket_ids(v@),
        decreases v.len() - from,
    {
        let ghost tail = v@.skip(from as int);
        proof {
            lemma_find_char_shift(v@, '<', from as int, 0);
        }
        let a = match find_one(&v, '<', from) {
            Some(a) => a,
            None => {
                assert(texts(ids@) =~= bracket_ids(v@));
                return ids;
            },
        };
        proof {
            lemma_find_char_shift(v@, '>', from as int, a - from + 1);
        }
        let e = match find_one(&v, '>', a + 1) {
            Some(e) => e,
            None => {
                assert(texts(ids@) =~= bracket_ids(v@));
                return ids;
            },
        };
        let inner = string_of(&v, a + 1, e);
        let id = trimmed(inner.as_str());
        let ghost before = texts(ids@);
        proof {
            assert(tail.subrange(a - from + 1, e - from) =~= v@.subrange(a + 1, e as int));
            assert(tail.skip(e - from + 1) =~= v@.skip(e + 1));
        }
        if !id.as_str().is_empty() {
            ids.push(put_brackets(id.as_str()));
            assert(texts(ids@) =~= before.push(bracketed(id@)));
            assert(texts(ids@) + bracket_ids(v@.skip(e + 1)) =~= before + bracket_ids(tail));
        }
        from = e + 1;
    }
}

/// Computes [`message_ids`].
pub fn parse_message_ids(value: &str) -> (ids: Vec<String>)
    ensures
        texts(ids@) == message_ids(value@),
{
    match msgid_list(value) {
        Some(list) => {
            let mut ids: Vec<String> = Vec::new();
            let mut i: usize = 0;
            while i < list.len()
                invariant
                    i <= list.len(),
                    texts(ids@) == bracket_all(texts(list@)).take(i as int),
                decreases list.len() - i,
            {
                let id = trimmed(list[i].as_str());
                let ghost before = texts(ids@);
                ids.push(put_brackets(id.as_str()));
                assert(texts(ids@) =~= before.push(bracketed(id@)));
                i = i + 1;
            }
            assert(texts(ids@) =~= bracket_all(texts(list@)));
            ids
        },
        None => ids_between_brackets(value),
    }
}

/// The ids of a header value with one space between neighbours; empty where the
/// header is missing.
pub fn normalize_message_id_header(value: Option<&str>) -> (r: String)
    ensures
        r@ == match value {
            Some(v) => join(message_ids(v@), space()),
            None => Seq::empty(),
        },
{
    match value {
        Some(v) => {
            let ids = parse_message_ids(v);
            proof {
                reveal_strlit(" ");
                assert(" "@ =~= space());
            }
            join_strings(&ids, " ")
        },
        None => String::new(),
    }
}

/// The first id of a header value.
pub open spec fn first_id(s: Seq<char>) -> Option<Seq<char>> {
    if message_ids(s).len() > 0 {
        Some(message_ids(s)[0])
    } else {
        None
    }
}

/// Computes [`first_id`].
pub fn normalize_message_id(value: &str) -> (r: Option<String>)
    ensures
        opt_text(r) == first_id(value@),
{
    let ids = parse_message_ids(value);
    assert(ids.len() == texts(ids@).len());
    if ids.len() > 0 {
        assert(texts(ids@)[0] == ids@[0]@);
        Some(copy(&ids[0]))
    } else {
        None
    }
}

/// `value`, where it is not blank.
pub fn nonempty(value: &str) -> (r: Option<&str>)
    ensures
        opt_str(r) == nonblank(value@),
{
    if is_blank(value) {
        None
    } else {
        Some(value)
    }
}

/// A text, where it is not blank.
pub open spec fn nonblank(s: Seq<char>) -> Option<Seq<char>> {
    if blank(s) {
        None
    } else {
        Some(s)
    }
}

// ---------------------------------------------------------------------------
// Conversations
// ---------------------------------------------------------------------------
/// The conversation of a message with the id `id`, in lower case.
pub open spec fn message_thread(id: Seq<char>) -> Seq<char> {
    "message:"@ + lower(id)
}

/// The conversation of a message: that of the first message it refers to, of the
/// message it answers, of itself, of its subject, or `fallback`, whichever is
/// known first.
pub open spec fn conversation_id(
    message_header_id: Seq<char>,
    in_reply_to: Seq<char>,
    references_header: Seq<char>,
    normalized_subject: Seq<char>,
    fallback: Seq<char>,
) -> Seq<char> {
    match first_id(references_header) {
        Some(root) => message_thread(root),
        None => match first_id(in_reply_to) {
            Some(parent) => message_thread(parent),
            None => if !blank(message_header_id) {
                message_thread(trim(message_header_id))
            } else if !blank(normalized_subject) {
                "subject:"@ + trim(normalized_subject)
            } else {
                fallback
            },
        },
    }
}

/// Computes [`conversation_id`].
pub fn conversation_id_from_headers(
    message_header_id: &str,
    in_reply_to: &str,
    references_header: &str,
    normalized_subject: &str,
    fallback: &str,
) -> (r: String)
    ensures
        r@ == conversation_id(
            message_header_id@,
            in_reply_to@,
            references_header@,
            normalized_subject@,
            fallback@,
        ),
{
    if let Some(root) = normalize_message_id(references_header) {
        return cat("message:", to_lower(root.as_str()).as_str());
    }
    if let Some(parent) = normalize_message_id(in_reply_to) {
        return cat("message:", to_lower(parent.as_str()).as_str());
    }
    if !is_blank(message_header_id) {
        let id = trimmed(message_header_id);
        return cat("message:", to_lower(id.as_str()).as_str());
    }
    if !is_blank(normalized_subject) {
        let subject = trimmed(normalized_subject);
        return cat("subject:", subject.as_str());
    }
    fallback.to_owned()
}

/// The conversation of a stored message whose headers are no longer at hand.
pub open spec fn backfilled_thread(
    provider_message_id: Seq<char>,
    current_thread_id: Seq<char>,
    normalized_subject: Seq<char>,
    message_header_id: Seq<char>,
) -> Seq<char> {
    let imap = starts(provider_message_id, "imap-uid:"@);
    if imap && normalized_subject.len() > 0 {
        "subject:"@ + normalized_subject
    } else if imap && message_header_id.len() > 0 {
        message_thread(message_header_id)
    } else if !blank(current_thread_id) {
        current_thread_id
    } else if normalized_subject.len() > 0 {
        "subject:"@ + normalized_subject
    } else {
        provider_message_id
    }
}

/// Computes [`backfilled_thread`].
pub fn backfilled_conversation_id(
    provider_message_id: &str,
    current_thread_id: &str,
    normalized_subject: &str,
    message_header_id: &str,
) -> (r: String)
    ensures
        r@ == backfilled_thread(
            provider_message_id@,
            current_thread_id@,
            normalized_subject@,
            message_header_id@,
        ),
{
    if has_prefix(provider_message_id, "imap-uid:") {
        if !normalized_subject.is_empty() {
            return cat("subject:", normalized_subject);
        }
        if !message_header_id.is_empty() {
            return cat("message:", to_lower(message_header_id).as_str());
        }
    }
    if !is_blank(current_thread_id) {
        return current_thread_id.to_owned();
    }
    if !normalized_subject.is_empty() {
        return cat("subject:", normalized_subject);
    }
    provider_message_id.to_owned()
}

// ---------------------------------------------------------------------------
// Replies
// ---------------------------------------------------------------------------
/// What a reply needs to know of the message it answers.
pub struct ReplyContext {
    pub account_id: i64,
    pub thread_id: String,
    pub message_header_id: String,
    pub references_header: String,
}

/// One of `ids` is `id` but for the case of ASCII letters.
pub open spec fn holds_ci(ids: Seq<Seq<char>>, id: Seq<char>) -> bool {
    exists|i: int| 0 <= i < ids.len() && lower(#[trigger] ids[i]) == lower(id)
}

/// The ids without those that came before, in letters of whatever case.
pub open spec fn dedup(ids: Seq<Seq<char>>) -> Seq<Seq<char>>
    decreases ids.len(),
{
    if ids.len() == 0 {
        ids
    } else {
        let front = dedup(ids.drop_last());
        if holds_ci(ids.drop_last(), ids.last()) {
            front
        } else {
            front.push(ids.last())
        }
    }
}

/// Computes [`dedup`].
pub fn dedup_message_ids(ids: Vec<String>) -> (output: Vec<String>)
    ensures
        texts(output@) == dedup(texts(ids@)),
{
    let mut output: Vec<String> = Vec::new();
    let ghost all = texts(ids@);
    let mut i: usize = 0;
    while i < ids.len()
        invariant
            i <= ids.len(),
            all == texts(ids@),
            texts(output@) == dedup(all.take(i as int)),
        decreases ids.len() - i,
    {
        let seen = holds_ignoring_case(&output, ids[i].as_str());
        proof {
            let now = all.take(i + 1);
            assert(now.drop_last() =~= all.take(i as int));
            assert(now.last() == ids@[i as int]@);
            lemma_dedup_same_ids(all.take(i as int), now.last());
        }
        if !seen {
            let ghost before = texts(output@);
            output.push(copy(&ids[i]));
            assert(texts(output@) =~= before.push(all[i as int]));
        }
        i = i + 1;
    }
    assert(all.take(ids.len() as int) =~= all);
    output
}

/// Computes [`holds_ci`].
fn holds_ignoring_case(ids: &Vec<String>, id: &str) -> (r: bool)
    ensures
        r == holds_ci(texts(ids@), id@),
{
    let mut i: usize = 0;
    while i < ids.len()
        invariant
            i <= ids.len(),
            forall|j: int| 0 <= j < i ==> lower(#[trigger] texts(ids@)[j]) != lower(id@),
        decreases ids.len() - i,
    {
        if same_ignoring_case(ids[i].as_str(), id) {
            assert(lower(texts(ids@)[i as int]) == lower(id@));
            return true;
        }
        i = i + 1;
    }
    false
}

/// What the References header of a reply holds: the references of the message
/// that it answers, and then the id of that message.
pub open spec fn reply_references(references_header: Seq<char>, message_header_id: Seq<char>) -> Seq<
    char,
> {
    let refs = message_ids(references_header);
    let all = if message_header_id.len() > 0 {
        refs.push(message_header_id)
    } else {
        refs
    };
    join(dedup(all), space())
}

/// Computes [`reply_references`].
pub fn reply_references_header(reply_context: &ReplyContext) -> (r: String)
    ensures
        r@ == reply_references(
            reply_context.references_header@,
            reply_context.message_header_id@,
        ),
{
    let mut refs = parse_message_ids(reply_context.references_header.as_str());
    let ghost before = texts(refs@);
    if !reply_context.message_header_id.as_str().is_empty() {
        refs.push(copy(&reply_context.message_header_id));
        assert(texts(refs@) =~= before.push(reply_context.message_header_id@));
    }
    let ids = dedup_message_ids(refs);
    proof {
        reveal_strlit(" ");
        assert(" "@ =~= space());
    }
    join_strings(&ids, " ")
}

/// The id, with its angle brackets, that a stored message is known by upstream.
pub open spec fn header_id_of_provider(p: Seq<char>) -> Option<Seq<char>> {
    if starts(p, "local-sent:"@) {
        let id = trim(p.skip(11));
        if id.len() > 0 && id[0] == '<' && id.last() == '>' {
            Some(id)
        } else {
            None
        }
    } else {
        match (find_char(p, '<', 0), rfind_char(p, '>', p.len() as int)) {
            (Some(a), Some(e)) => if e > a {
                Some(p.subrange(a, e + 1))
            } else {
                None
            },
            _ => None,
        }
    }
}

/// Computes [`header_id_of_provider`].
pub fn reply_header_id(provider_message_id: &str) -> (r: Option<String>)
    ensures
        opt_text(r) == header_id_of_provider(provider_message_id@),
{
    proof {
        reveal_strlit("local-sent:");
    }
    if let Some(rest) = after_prefix(provider_message_id, "local-sent:") {
        let id = trimmed(rest.as_str());
        let v = chars_of(id.as_str());
        if v.len() > 0 && v[0] == '<' && v[v.len() - 1] == '>' {
            return Some(id);
        }
        return None;
    }
    let v = chars_of(provider_message_id);
    let a = find_one(&v, '<', 0);
    let e = rfind_one(&v, '>');
    match (a, e) {
        (Some(a), Some(e)) => if e > a {
            Some(string_of(&v, a, e + 1))
        } else {
            None
        },
        _ => None,
    }
}

// ---------------------------------------------------------------------------
// Small facts
// ---------------------------------------------------------------------------
pub proof fn lemma_find_char_shift(s: Seq<char>, c: char, k: int, i: int)
    requires
        0 <= k <= s.len(),
        0 <= i,
    ensures
        match find_char(s, c, k + i) {
            Some(p) => find_char(s.skip(k), c, i) == Some(p - k),
            None => find_char(s.skip(k), c, i) is None,
        },
{
    let t = s.skip(k);
    lemma_find_char(s, c, k + i);
    lemma_find_char(t, c, i);
    match find_char(s, c, k + i) {
        Some(p) => {
            assert(t[p - k] == c);
            assert forall|j: int| i <= j < p - k implies t[j] != c by {
                assert(s[j + k] != c);
            }
            lemma_find_char_unique(t, c, i, p - k);
        },
        None => {
            match find_char(t, c, i) {
                Some(j) => {
                    assert(s[j + k] == c);
                },
                None => {},
            }
        },
    }
}

/// Leaving out ids that came before loses none of the ids, whatever their case.
pub proof fn lemma_dedup_same_ids(ids: Seq<Seq<char>>, id: Seq<char>)
    ensures
        holds_ci(dedup(ids), id) == holds_ci(ids, id),
    decreases ids.len(),
{
    if ids.len() > 0 {
        let front = ids.drop_last();
        lemma_dedup_same_ids(front, id);
        lemma_dedup_same_ids(front, ids.last());
        if holds_ci(front, id) {
            let i = choose|i: int| 0 <= i < front.len() && lower(#[trigger] front[i]) == lower(id);
            assert(lower(ids[i]) == lower(id));
            let k = choose|k: int|
                0 <= k < dedup(front).len() && lower(#[trigger] dedup(front)[k]) == lower(id);
            assert(dedup(ids)[k] == dedup(front)[k]);
        } else {
            if lower(ids.last()) == lower(id) {
                assert(lower(ids[ids.len() - 1]) == lower(id));
                if holds_ci(front, ids.last()) {
                    let i = choose|i: int|
                        0 <= i < front.len() && lower(#[trigger] front[i]) == lower(ids.last());
                    assert(lower(front[i]) == lower(id));
                }
                assert(lower(dedup(ids)[dedup(ids).len() - 1]) == lower(id));
            } else {
                if holds_ci(ids, id) {
                    let i = choose|i: int| 0 <= i < ids.len() && lower(#[trigger] ids[i]) == lower(id);
                    assert(lower(front[i]) == lower(id));
                }
                if holds_ci(dedup(ids), id) {
                    let i = choose|i: int|
                        0 <= i < dedup(ids).len() && lower(#[trigger] dedup(ids)[i]) == lower(id);
                    assert(lower(dedup(front)[i]) == lower(id));
                }
            }
        }
    }
}

// ---------------------------------------------------------------------------
// Laws
// ---------------------------------------------------------------------------
/// An id as the library writes it: between angle brackets, trimmed, with no
/// closing bracket inside.
pub open spec fn canonical(p: Seq<char>) -> bool {
    &&& p.len() >= 2
    &&& p[0] == '<'
    &&& p.last() == '>'
    &&& trim(p.subrange(1, p.len() - 1)) == p.subrange(1, p.len() - 1)
    &&& forall|i: int| 0 <= i < p.len() - 1 ==> #[trigger] p[i] != '>'
}

proof fn lemma_bracketed_canonical(t: Seq<char>)
    requires
        forall|i: int| 0 <= i < t.len() ==> #[trigger] t[i] != '>',
    ensures
        canonical(bracketed(trim(t))),
{
    let u = trim(t);
    lemma_trimmed(t);
    lemma_trim_range(t);
    let p = bracketed(u);
    assert(p.subrange(1, p.len() - 1) =~= u);
    assert forall|i: int| 0 <= i < p.len() - 1 implies #[trigger] p[i] != '>' by {
        if i > 0 {
            assert(p[i] == u[i - 1]);
            assert(u[i - 1] == t[skip_white(t, 0) + i - 1]);
        }
    }
}

proof fn lemma_listed_lack(s: Seq<char>)
    ensures
        listed_ids(s) matches Some(ids) ==> forall|i: int, k: int|
            0 <= i < ids.len() && 0 <= k < ids[i].len() ==> #[trigger] ids[i][k] != '>',
    decreases s.len(),
{
    lemma_skip_white(s, 0);
    let r = trim_start(s);
    lemma_find_char(r, '>', 0);
    if r.len() > 0 && r[0] == '<' {
        match find_char(r, '>', 0) {
            Some(e) => {
                lemma_listed_lack(r.skip(e + 1));
                match listed_ids(r.skip(e + 1)) {
                    Some(rest) => {
                        let ids = listed_ids(s)->Some_0;
                        assert forall|i: int, k: int|
                            0 <= i < ids.len() && 0 <= k < ids[i].len() implies #[trigger] ids[i][k]
                            != '>' by {
                            if i > 0 {
                                assert(ids[i] == rest[i - 1]);
                            } else {
                                assert(ids[0][k] == r[k + 1]);
                            }
                        }
                    },
                    None => {},
                }
            },
            None => {},
        }
    }
}

proof fn lemma_bracket_ids_canonical(s: Seq<char>)
    ensures
        forall|i: int| 0 <= i < bracket_ids(s).len() ==> canonical(#[trigger] bracket_ids(s)[i]),
    decreases s.len(),
{
    lemma_find_char(s, '<', 0);
    match find_char(s, '<', 0) {
        Some(a) => {
            lemma_find_char(s, '>', a + 1);
            match find_char(s, '>', a + 1) {
                Some(e) => {
                    let inner = s.subrange(a + 1, e);
                    assert forall|i: int| 0 <= i < inner.len() implies #[trigger] inner[i] != '>' by {
                        assert(inner[i] == s[a + 1 + i]);
                    }
                    lemma_bracketed_canonical(inner);
                    lemma_bracket_ids_canonical(s.skip(e + 1));
                    assert forall|i: int| 0 <= i < bracket_ids(s).len() implies canonical(
                        #[trigger] bracket_ids(s)[i],
                    ) by {
                        if trim(inner).len() > 0 && i > 0 {
                            assert(bracket_ids(s)[i] == bracket_ids(s.skip(e + 1))[i - 1]);
                        }
                    }
                },
                None => {},
            }
        },
        None => {},
    }
}

/// Every id that is read from a header value is canonical.
pub proof fn message_ids_are_canonical(value: Seq<char>)
    ensures
        forall|i: int| 0 <= i < message_ids(value).len() ==> canonical(#[trigger] message_ids(value)[i]),
{
    match listed_ids(value) {
        Some(ids) => {
            lemma_listed_lack(value);
            assert forall|i: int| 0 <= i < message_ids(value).len() implies canonical(
                #[trigger] message_ids(value)[i],
            ) by {
                assert forall|k: int| 0 <= k < ids[i].len() implies #[trigger] ids[i][k] != '>' by {}
                lemma_bracketed_canonical(ids[i]);
            }
        },
        None => {
            lemma_bracket_ids_canonical(value);
        },
    }
}

/// A leading space does not change a list of ids.
proof fn lemma_listed_space(x: Seq<char>)
    ensures
        listed_ids(space() + x) == listed_ids(x),
{
    let y = space() + x;
    lemma_skip_white(x, 0);
    let k = skip_white(x, 0);
    assert forall|j: int| 0 <= j < k + 1 implies white(#[trigger] y[j]) by {
        if j > 0 {
            assert(y[j] == x[j - 1]);
        }
    }
    assert(k < x.len() ==> y[k + 1] == x[k]);
    lemma_skip_white_unique(y, 0, k + 1);
    assert(trim_start(y) =~= trim_start(x));
}

/// What is left of a list behind its first id.
proof fn lemma_listed_step(p: Seq<char>, rest: Seq<char>)
    requires
        canonical(p),
    ensures
        listed_ids(p + rest) == match listed_ids(rest) {
            Some(ids) => Some(seq![p.subrange(1, p.len() - 1)] + ids),
            None => None,
        },
{
    let x = p + rest;
    assert(x[0] == '<');
    lemma_skip_white_unique(x, 0, 0);
    assert(trim_start(x) =~= x);
    let e = p.len() - 1;
    assert(x[e] == '>');
    assert forall|j: int| 0 <= j < e implies x[j] != '>' by {
        assert(p[j] != '>');
    }
    lemma_find_char_unique(x, '>', 0, e);
    assert(x.skip(e + 1) =~= rest);
    assert(x.subrange(1, e) =~= p.subrange(1, e));
}

/// Canonical ids with spaces between them are read back as they are.
proof fn lemma_ids_of_join(ids: Seq<Seq<char>>)
    requires
        forall|i: int| 0 <= i < ids.len() ==> canonical(#[trigger] ids[i]),
    ensures
        listed_ids(join(ids, space())) matches Some(inner) && inner.len() == ids.len() && forall|i: int|
            0 <= i < ids.len() ==> inner[i] == (#[trigger] ids[i]).subrange(1, ids[i].len() - 1),
    decreases ids.len(),
{
    if ids.len() == 0 {
        let empty = join(ids, space());
        lemma_skip_white(empty, 0);
        assert(trim_start(empty).len() == 0);
    } else {
        let first = ids[0];
        let rest = ids.skip(1);
        assert(ids =~= seq![first] + rest);
        assert forall|i: int| 0 <= i < rest.len() implies canonical(#[trigger] rest[i]) by {
            assert(canonical(ids[i + 1]));
        }
        lemma_ids_of_join(rest);
        let tail = join(rest, space());
        if rest.len() == 0 {
            lemma_listed_step(first, tail);
            assert(join(ids, space()) == first);
            assert(first + tail =~= first);
        } else {
            lemma_join_front(first, rest, space());
            lemma_listed_step(first, space() + tail);
            lemma_listed_space(tail);
            assert(first + space() + tail =~= first + (space() + tail));
        }
        let inner = listed_ids(join(ids, space()))->Some_0;
        assert forall|i: int| 0 <= i < ids.len() implies inner[i] == (#[trigger] ids[i]).subrange(
            1,
            ids[i].len() - 1,
        ) by {
            if i > 0 {
                assert(rest[i - 1] == ids[i]);
            }
        }
    }
}

/// Law: canonical ids that are joined by spaces are read back unchanged.
pub proof fn joined_ids_are_read_back(ids: Seq<Seq<char>>)
    requires
        forall|i: int| 0 <= i < ids.len() ==> canonical(#[trigger] ids[i]),
    ensures
        message_ids(join(ids, space())) == ids,
{
    lemma_ids_of_join(ids);
    let got = message_ids(join(ids, space()));
    assert forall|i: int| 0 <= i < ids.len() implies got[i] == ids[i] by {
        let p = ids[i];
        assert(canonical(p));
        assert(bracketed(p.subrange(1, p.len() - 1)) =~= p);
    }
    assert(got =~= ids);
}

/// Law: a normalized header value lists the same ids as the value itself, and
/// normalizing it again changes nothing.
pub proof fn normalized_header_lists_same_ids(value: Seq<char>)
    ensures
        message_ids(join(message_ids(value), space())) == message_ids(value),
{
    message_ids_are_canonical(value);
    joined_ids_are_read_back(message_ids(value));
}

/// Law: after duplicates are left out, no two ids are the same, whatever their
/// case; every id that was there is still there in some case; and every id that
/// is left was there.
pub proof fn dedup_leaves_distinct_ids(ids: Seq<Seq<char>>)
    ensures
        forall|i: int, j: int|
            0 <= i < j < dedup(ids).len() ==> lower(#[trigger] dedup(ids)[i]) != lower(
                #[trigger] dedup(ids)[j],
            ),
        forall|i: int| 0 <= i < ids.len() ==> holds_ci(dedup(ids), #[trigger] ids[i]),
        forall|i: int| 0 <= i < dedup(ids).len() ==> ids.contains(#[trigger] dedup(ids)[i]),
    decreases ids.len(),
{
    if ids.len() > 0 {
        let front = ids.drop_last();
        dedup_leaves_distinct_ids(front);
        lemma_dedup_same_ids(front, ids.last());
        let d = dedup(ids);
        assert forall|i: int, j: int| 0 <= i < j < d.len() implies lower(#[trigger] d[i]) != lower(
            #[trigger] d[j],
        ) by {
            assert(d[i] == dedup(front)[i]);
            if j < dedup(front).len() {
                assert(d[j] == dedup(front)[j]);
            } else if lower(d[i]) == lower(d[j]) {
                assert(holds_ci(dedup(front), ids.last()));
            }
        }
        assert forall|i: int| 0 <= i < ids.len() implies holds_ci(d, #[trigger] ids[i]) by {
            lemma_dedup_same_ids(ids, ids[i]);
            assert(lower(ids[i]) == lower(ids[i]));
        }
        assert forall|i: int| 0 <= i < d.len() implies ids.contains(#[trigger] d[i]) by {
            if i < dedup(front).len() {
                assert(front.contains(dedup(front)[i]));
                let k = choose|k: int| 0 <= k < front.len() && front[k] == dedup(front)[i];
                assert(ids[k] == d[i]);
            } else {
                assert(ids[ids.len() - 1] == d[i]);
            }
        }
    }
}

/// The first id stays the first.
proof fn lemma_dedup_first(ids: Seq<Seq<char>>)
    requires
        ids.len() > 0,
    ensures
        dedup(ids).len() > 0,
        dedup(ids)[0] == ids[0],
    decreases ids.len(),
{
    if ids.len() == 1 {
        assert(dedup(ids.drop_last()).len() == 0);
        assert(!holds_ci(ids.drop_last(), ids.last()));
    } else {
        lemma_dedup_first(ids.drop_last());
        assert(ids.drop_last()[0] == ids[0]);
    }
}

/// Law: a reply belongs to the conversation of the message that it answers. Of a
/// message that names what it answers but refers to nothing, the reply starts
/// from that message itself; such a message is left out.
pub proof fn reply_joins_the_conversation(
    parent_id: Seq<char>,
    parent_in_reply_to: Seq<char>,
    parent_references: Seq<char>,
    parent_subject: Seq<char>,
    parent_fallback: Seq<char>,
    reply_id: Seq<char>,
    reply_subject: Seq<char>,
    reply_fallback: Seq<char>,
)
    requires
        canonical(parent_id),
        first_id(parent_references) is Some || first_id(parent_in_reply_to) is None,
    ensures
        conversation_id(
            reply_id,
            parent_id,
            reply_references(parent_references, parent_id),
            reply_subject,
            reply_fallback,
        ) == conversation_id(
            parent_id,
            parent_in_reply_to,
            parent_references,
            parent_subject,
            parent_fallback,
        ),
{
    let refs = message_ids(parent_references);
    let all = refs.push(parent_id);
    message_ids_are_canonical(parent_references);
    assert forall|i: int| 0 <= i < all.len() implies canonical(#[trigger] all[i]) by {
        if i < refs.len() {
            assert(canonical(refs[i]));
        }
    }
    dedup_leaves_distinct_ids(all);
    let d = dedup(all);
    assert forall|i: int| 0 <= i < d.len() implies canonical(#[trigger] d[i]) by {
        assert(all.contains(d[i]));
    }
    joined_ids_are_read_back(d);
    lemma_dedup_first(all);
    assert(!white(parent_id[0]) && !white(parent_id.last()));
    lemma_already_trimmed(parent_id);
}

/// Law: ids are found wherever they stand between angle brackets, in order, and what
/// stands around them is passed over; nothing else is an id.
pub proof fn bracketed_ids_are_found(junk: Seq<char>, id: Seq<char>, rest: Seq<char>)
    requires
        forall|i: int| 0 <= i < junk.len() ==> #[trigger] junk[i] != '<',
        forall|i: int| 0 <= i < id.len() ==> #[trigger] id[i] != '>',
    ensures
        bracket_ids(junk).len() == 0,
        !blank(id) ==> bracket_ids(junk + seq!['<'] + id + seq!['>'] + rest) == seq![
            seq!['<'] + trim(id) + seq!['>'],
        ] + bracket_ids(rest),
        blank(id) ==> bracket_ids(junk + seq!['<'] + id + seq!['>'] + rest) == bracket_ids(rest),
{
    let s = junk + seq!['<'] + id + seq!['>'] + rest;
    let a = junk.len() as int;
    let e = a + 1 + id.len();
    lemma_find_char(junk, '<', 0);
    assert(find_char(junk, '<', 0) is None);
    assert forall|j: int| 0 <= j < a implies s[j] != '<' by {
        assert(s[j] == junk[j]);
    }
    lemma_find_char_unique(s, '<', 0, a);
    assert forall|j: int| a + 1 <= j < e implies s[j] != '>' by {
        assert(s[j] == id[j - a - 1]);
    }
    lemma_find_char_unique(s, '>', a + 1, e);
    assert(s.subrange(a + 1, e) =~= id);
    assert(s.skip(e + 1) =~= rest);
}

/// Law: all ids of a header value are read, each trimmed and between angle brackets,
/// from a list of ids as from any other text, and the first of them is the first id.
pub proof fn every_listed_id_is_read(value: Seq<char>)
    ensures
        listed_ids(value) matches Some(ids) ==> message_ids(value).len() == ids.len() && forall|
            i: int,
        |
            0 <= i < ids.len() ==> #[trigger] message_ids(value)[i] == seq!['<'] + trim(ids[i])
                + seq!['>'],
        listed_ids(value) is None ==> message_ids(value) == bracket_ids(value),
        message_ids(value).len() == 0 <==> first_id(value) is None,
        first_id(value) matches Some(id) ==> id == message_ids(value)[0],
{
}

/// Law: a message belongs to the conversation of the first message it refers to, else
/// of the one it answers, else to its own, else to that of its subject, else to the one
/// that is given; ids name a conversation whatever the case of their letters.
pub proof fn conversations_are_named_by_what_is_known(
    id: Seq<char>,
    in_reply_to: Seq<char>,
    references: Seq<char>,
    subject: Seq<char>,
    fallback: Seq<char>,
)
    ensures
        ({
            let thread = conversation_id(id, in_reply_to, references, subject, fallback);
            let roots = message_ids(references);
            let parents = message_ids(in_reply_to);
            &&& roots.len() > 0 ==> thread == "message:"@ + lower(roots[0])
            &&& roots.len() == 0 && parents.len() > 0 ==> thread == "message:"@ + lower(parents[0])
            &&& roots.len() == 0 && parents.len() == 0 && !blank(id) ==> thread == "message:"@
                + lower(trim(id))
            &&& roots.len() == 0 && parents.len() == 0 && blank(id) && !blank(subject) ==> thread
                == "subject:"@ + trim(subject)
            &&& roots.len() == 0 && parents.len() == 0 && blank(id) && blank(subject) ==> thread
                == fallback
        }),
{
}

/// Law: of a stored message without headers, one that came by IMAP goes by its
/// subject, or else by its id; any other stays in its conversation, where it has one.
/// What is not known any better goes by the subject, or else by the name that the
/// message is stored under.
pub proof fn stored_messages_keep_their_conversation(
    provider: Seq<char>,
    thread: Seq<char>,
    subject: Seq<char>,
    id: Seq<char>,
)
    ensures
        ({
            let found = backfilled_thread("imap-uid:"@ + provider, thread, subject, id);
            &&& subject.len() > 0 ==> found == "subject:"@ + subject
            &&& subject.len() == 0 && id.len() > 0 ==> found == "message:"@ + lower(id)
            &&& subject.len() == 0 && id.len() == 0 && !blank(thread) ==> found == thread
            &&& subject.len() == 0 && id.len() == 0 && blank(thread) ==> found == "imap-uid:"@
                + provider
        }),
        !starts(provider, "imap-uid:"@) ==> {
            let found = backfilled_thread(provider, thread, subject, id);
            &&& !blank(thread) ==> found == thread
            &&& blank(thread) && subject.len() > 0 ==> found == "subject:"@ + subject
            &&& blank(thread) && subject.len() == 0 ==> found == provider
        },
{
    let p = "imap-uid:"@ + provider;
    assert(p.take("imap-uid:"@.len() as int) =~= "imap-uid:"@);
}

/// Law: leaving out duplicates keeps the order: ids that differ stay as they are, and
/// what follows other ids changes nothing in front.
pub proof fn dedup_keeps_the_order(a: Seq<Seq<char>>, b: Seq<Seq<char>>)
    ensures
        dedup(a + b).len() >= dedup(a).len(),
        dedup(a + b).take(dedup(a).len() as int) == dedup(a),
        (forall|i: int, j: int|
            0 <= i < j < a.len() ==> lower(#[trigger] a[i]) != lower(#[trigger] a[j])) ==> dedup(a)
            == a,
    decreases b.len(), a.len(),
{
    if b.len() == 0 {
        assert(a + b =~= a);
        assert(dedup(a).take(dedup(a).len() as int) =~= dedup(a));
        if a.len() > 0 && (forall|i: int, j: int|
            0 <= i < j < a.len() ==> lower(#[trigger] a[i]) != lower(#[trigger] a[j])) {
            let front = a.drop_last();
            assert forall|i: int, j: int| 0 <= i < j < front.len() implies lower(
                #[trigger] front[i],
            ) != lower(#[trigger] front[j]) by {
                assert(front[i] == a[i] && front[j] == a[j]);
            }
            dedup_keeps_the_order(front, b);
            if holds_ci(front, a.last()) {
                let i = choose|i: int|
                    0 <= i < front.len() && lower(#[trigger] front[i]) == lower(a.last());
                assert(front[i] == a[i]);
                assert(lower(a[i]) != lower(a[a.len() - 1]));
            }
            assert(front.push(a.last()) =~= a);
        }
    } else {
        assert((a + b).drop_last() =~= a + b.drop_last());
        dedup_keeps_the_order(a, b.drop_last());
        let shorter = dedup(a + b.drop_last());
        let n = dedup(a).len() as int;
        assert(shorter.push((a + b).last()).take(n) =~= shorter.take(n));
    }
}

/// Law: a reply refers to all that the message it answers referred to, in order, and
/// last to that message; no id is named twice.
pub proof fn replies_refer_to_what_came_before(references: Seq<char>, id: Seq<char>)
    requires
        canonical(id),
    ensures
        message_ids(reply_references(references, id)) == dedup(message_ids(references) + seq![id]),
        !holds_ci(message_ids(references), id) ==> message_ids(reply_references(references, id)).last()
            == id,
        reply_references(references, Seq::empty()) == join(
            dedup(message_ids(references)),
            space(),
        ),
{
    let refs = message_ids(references);
    let all = refs.push(id);
    assert(all =~= refs + seq![id]);
    message_ids_are_canonical(references);
    dedup_leaves_distinct_ids(all);
    assert forall|i: int| 0 <= i < dedup(all).len() implies canonical(#[trigger] dedup(all)[i]) by {
        assert(all.contains(dedup(all)[i]));
        let k = choose|k: int| 0 <= k < all.len() && all[k] == dedup(all)[i];
        if k < refs.len() {
            assert(canonical(refs[k]));
        }
    }
    joined_ids_are_read_back(dedup(all));
    assert(all.drop_last() =~= refs);
}

/// Law: a message that was sent from here is known by the id that it was sent under,
/// any other by the id that stands between angle brackets in the name it is stored
/// under.
pub proof fn messages_are_known_by_their_id(front: Seq<char>, id: Seq<char>, back: Seq<char>)
    requires
        forall|i: int| 0 <= i < front.len() ==> #[trigger] front[i] != '<',
        forall|i: int| 0 <= i < back.len() ==> #[trigger] back[i] != '>',
    ensures
        canonical(id) && trim(id) == id ==> header_id_of_provider("local-sent:"@ + id) == Some(id),
        ({
            let p = front + seq!['<'] + id + seq!['>'] + back;
            !starts(p, "local-sent:"@) ==> header_id_of_provider(p) == Some(
                seq!['<'] + id + seq!['>'],
            )
        }),
        !starts(front, "local-sent:"@) ==> header_id_of_provider(front) is None,
        !starts(back, "local-sent:"@) ==> header_id_of_provider(back) is None,
{
    reveal_strlit("local-sent:");
    let sent = "local-sent:"@ + id;
    assert(sent.take("local-sent:"@.len() as int) =~= "local-sent:"@);
    assert(sent.skip(11) =~= id);
    let p = front + seq!['<'] + id + seq!['>'] + back;
    let a = front.len() as int;
    let e = a + 1 + id.len();
    assert forall|j: int| 0 <= j < a implies p[j] != '<' by {
        assert(p[j] == front[j]);
    }
    lemma_find_char_unique(p, '<', 0, a);
    lemma_rfind_char(p, '>', p.len() as int);
    assert(p[e] == '>');
    match rfind_char(p, '>', p.len() as int) {
        Some(k) => {
            if k > e {
                assert(p[k] == back[k - e - 1]);
            }
            assert(k == e);
        },
        None => {},
    }
    assert(p.subrange(a, e + 1) =~= seq!['<'] + id + seq!['>']);
    lemma_find_char(front, '<', 0);
    lemma_rfind_char(back, '>', back.len() as int);
}

} // verus!
