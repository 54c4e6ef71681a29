//! Cleaning of header values, and the subject key that threads share.
use vstd::prelude::*;
use vstd::string::*;

use crate::text::{
    chars_of, contains_text, find_from, find_text, join, lemma_already_trimmed, lemma_find_from,
    lemma_find_from_none, lemma_find_from_unique, lemma_skip_white, lemma_skip_white_unique, lower,
    lower_char, lower_chars, skip_white, stands_at, starts, string_of, to_lower, trim_start, white,
    is_white, matches_at,
};
use crate::words::{
    collapse, collapse_spaces, lemma_collapse_tidy, lemma_join_front,
    lemma_join_tidy, lemma_lacks_collapse, lemma_lacks_part, lemma_lacks_split, lemma_skip_word,
    lemma_tidy_collapse, lemma_words_solid, lemma_words_white_head, lemma_words_word_head, skip_word,
    solid, space, tidy, words,
};

verus! {

/// `s` with every stretch that matches `p`, whatever the case of its ASCII
/// letters, replaced by `r`; matches are taken from left to right and do not
/// overlap.
pub open spec fn replace_ci(s: Seq<char>, p: Seq<char>, r: Seq<char>) -> Seq<char>
    decreases s.len(),
{
    proof {
        lemma_find_from(lower(s), lower(p), 0);
    }
    if p.len() == 0 {
        s
    } else {
        match find_from(lower(s), lower(p), 0) {
            Some(i) => s.take(i) + r + replace_ci(s.skip(i + p.len()), p, r),
            None => s,
        }
    }
}

/// Replaces every match of `pattern`, whatever the case of its ASCII letters.
pub fn replace_case_insensitive(value: &str, pattern: &str, replacement: &str) -> (output: String)
    requires
        pattern@.len() > 0,
    ensures
        output@ == replace_ci(value@, pattern@, replacement@),
{
    let v = chars_of(value);
    let lv = lower_chars(&v);
    let lp = lower_chars(&chars_of(pattern));
    let mut output = String::new();
    let mut offset: usize = 0;
    assert(v@.skip(0) =~= v@);
    loop
        invariant
            v@ == value@,
            lv@ == lower(v@),
            lp@ == lower(pattern@),
            lp@.len() > 0,
            offset <= v.len(),
            output@ + replace_ci(v@.skip(offset as int), pattern@, replacement@) == replace_ci(
                v@,
                pattern@,
                replacement@,
            ),
        decreases v.len() - offset,
    {
        let ghost tail = v@.skip(offset as int);
        proof {
            lemma_lower_parts(v@, offset as int);
            lemma_find_shift(lv@, lp@, offset as int);
            lemma_find_from(lv@, lp@, offset as int);
        }
        match find_text(&lv, &lp, offset) {
            Some(start) => {
                let ghost before = output@;
                let kept = string_of(&v, offset, start);
                output.append(kept.as_str());
                output.append(replacement);
                proof {
                    let i = start - offset;
                    assert(find_from(lower(tail), lp@, 0) == Some(i as int));
                    assert(tail.take(i as int) =~= v@.subrange(offset as int, start as int));
                    assert(tail.skip(i + pattern@.len()) =~= v@.skip(start + pattern@.len()));
                    assert(output@ + replace_ci(v@.skip(start + pattern@.len()), pattern@, replacement@)
                        =~= before + replace_ci(tail, pattern@, replacement@));
                }
                offset = start + lp.len();
            },
            None => {
                let rest = string_of(&v, offset, v.len());
                let ghost before = output@;
                output.append(rest.as_str());
                proof {
                    assert(find_from(lower(tail), lp@, 0) is None);
                    assert(tail =~= v@.subrange(offset as int, v.len() as int));
                    assert(output@ =~= before + replace_ci(tail, pattern@, replacement@));
                }
                return output;
            },
        }
    }
}

/// Carriage returns, line feeds and tabs become spaces.
pub open spec fn spaced_char(c: char) -> char {
    if c == '\r' || c == '\n' || c == '\t' {
        ' '
    } else {
        c
    }
}

/// [`spaced_char`] on every character.
pub open spec fn spaced(s: Seq<char>) -> Seq<char> {
    Seq::new(s.len(), |i: int| spaced_char(s[i]))
}

/// The remains of encoded words that a header value is cleaned of, in the order
/// in which they are removed.
pub open spec fn mark(i: int) -> Seq<char> {
    if i == 0 {
        "?==?utf-8?q?"@
    } else if i == 1 {
        "?==?utf-8?b?"@
    } else if i == 2 {
        "=?utf-8?q?"@
    } else if i == 3 {
        "=?utf-8?b?"@
    } else if i == 4 {
        "?==?"@
    } else {
        "?="@
    }
}

/// `s` with the first `n` marks replaced by spaces, one mark after the other.
pub open spec fn without_marks(s: Seq<char>, n: nat) -> Seq<char>
    decreases n,
{
    if n == 0 {
        s
    } else {
        replace_ci(without_marks(s, (n - 1) as nat), mark(n - 1), space())
    }
}

/// A header value on one line, without remains of encoded words, with one space
/// between its words.
pub open spec fn clean(s: Seq<char>) -> Seq<char> {
    collapse(without_marks(spaced(s), 6))
}

/// Computes [`clean`].
pub fn clean_header_value(value: &str) -> (r: String)
    ensures
        r@ == clean(value@),
{
    let v = chars_of(value);
    let mut line = String::new();
    let mut i: usize = 0;
    while i < v.len()
        invariant
            i <= v.len(),
            line@ == spaced(v@).take(i as int),
        decreases v.len() - i,
    {
        let c: char = v[i];
        if c == '\r' || c == '\n' || c == '\t' {
            line.push(' ');
        } else {
            line.push(c);
        }
        i = i + 1;
    }
    assert(spaced(v@).take(v.len() as int) =~= spaced(value@));
    proof {
        reveal_strlit(" ");
        assert(" "@ =~= space());
        reveal_with_fuel(without_marks, 7);
        lemma_mark(0);
        lemma_mark(1);
        lemma_mark(2);
        lemma_mark(3);
        lemma_mark(4);
        lemma_mark(5);
    }
    let a = replace_case_insensitive(line.as_str(), "?==?utf-8?q?", " ");
    let b = replace_case_insensitive(a.as_str(), "?==?utf-8?b?", " ");
    let c = replace_case_insensitive(b.as_str(), "=?utf-8?q?", " ");
    let d = replace_case_insensitive(c.as_str(), "=?utf-8?b?", " ");
    let e = replace_case_insensitive(d.as_str(), "?==?", " ");
    let f = replace_case_insensitive(e.as_str(), "?=", " ");
    collapse_spaces(f.as_str())
}

/// How long the reply or forward prefix of `t` is; 0 where it has none.
pub open spec fn prefix_len(t: Seq<char>) -> int {
    let l = lower(t);
    if starts(l, "re:"@) {
        3
    } else if starts(l, "fw:"@) {
        3
    } else if starts(l, "fwd:"@) {
        4
    } else {
        0
    }
}

/// A subject without the reply and forward prefixes at its start.
pub open spec fn without_prefixes(s: Seq<char>) -> Seq<char>
    decreases s.len(),
{
    let t = trim_start(s);
    let n = prefix_len(t);
    if n == 0 || t.len() < n || t.len() > s.len() {
        s
    } else {
        proof {
            lemma_skip_white(t.skip(n), 0);
        }
        without_prefixes(trim_start(t.skip(n)))
    }
}

/// What the subjects of one conversation have in common.
pub open spec fn subject_key(s: Seq<char>) -> Seq<char> {
    lower(clean(without_prefixes(clean(s))))
}

/// Computes [`subject_key`].
pub fn normalize_subject_key(subject: &str) -> (r: String)
    ensures
        r@ == subject_key(subject@),
{
    let mut value = clean_header_value(subject);
    let re = chars_of("re:");
    let fw = chars_of("fw:");
    let fwd = chars_of("fwd:");
    proof {
        reveal_strlit("re:");
        reveal_strlit("fw:");
        reveal_strlit("fwd:");
    }
    let ghost cleaned = value@;
    let mut more: bool = true;
    while more
        invariant
            without_prefixes(value@) == without_prefixes(cleaned),
            !more ==> without_prefixes(value@) == value@,
            re@ == "re:"@,
            fw@ == "fw:"@,
            fwd@ == "fwd:"@,
            re.len() == 3,
            fw.len() == 3,
            fwd.len() == 4,
        decreases value@.len() + (if more { 1int } else { 0int }),
    {
        let v = chars_of(value.as_str());
        let from = white_prefix(&v, 0);
        let low = lower_chars(&v);
        let ghost t = trim_start(v@);
        proof {
            lemma_skip_white(v@, 0);
            lemma_lower_parts(v@, from as int);
            lemma_stands_starts(low@, re@, from as int);
            lemma_stands_starts(low@, fw@, from as int);
            lemma_stands_starts(low@, fwd@, from as int);
        }
        let n: usize = if matches_at(&low, &re, from) || matches_at(&low, &fw, from) {
            3
        } else if matches_at(&low, &fwd, from) {
            4
        } else {
            0
        };
        assert(n == prefix_len(t));
        if n == 0 {
            more = false;
        } else {
            assert(t.len() >= n);
            let start = white_prefix(&v, from + n);
            proof {
                lemma_skip_shift(v@, from + n);
                lemma_skip_white(v@, from + n);
                assert(t.skip(n as int) =~= v@.skip(from + n));
                assert(trim_start(t.skip(n as int)) =~= v@.subrange(start as int, v.len() as int));
            }
            value = string_of(&v, start, v.len());
        }
    }
    let key = clean_header_value(value.as_str());
    to_lower(key.as_str())
}

/// Computes [`skip_white`].
pub fn white_prefix(v: &Vec<char>, from: usize) -> (r: usize)
    requires
        from <= v.len(),
    ensures
        r == skip_white(v@, from as int),
        from <= r <= v.len(),
{
    let mut i: usize = from;
    while i < v.len() && is_white(v[i])
        invariant
            from <= i <= v.len(),
            skip_white(v@, from as int) == skip_white(v@, i as int),
        decreases v.len() - i,
    {
        i = i + 1;
    }
    i
}

// ---------------------------------------------------------------------------
// Small facts
// ---------------------------------------------------------------------------
pub proof fn lemma_lower_parts(s: Seq<char>, k: int)
    requires
        0 <= k <= s.len(),
    ensures
        lower(s).skip(k) == lower(s.skip(k)),
        lower(s).take(k) == lower(s.take(k)),
{
    assert(lower(s).skip(k) =~= lower(s.skip(k)));
    assert(lower(s).take(k) =~= lower(s.take(k)));
}

pub proof fn lemma_lower_add(a: Seq<char>, b: Seq<char>)
    ensures
        lower(a + b) == lower(a) + lower(b),
{
    assert(lower(a + b) =~= lower(a) + lower(b));
}

/// Lower case is its own lower case.
pub proof fn lemma_lower_idempotent(s: Seq<char>)
    ensures
        lower(lower(s)) == lower(s),
{
    assert(lower(lower(s)) =~= lower(s));
}

pub proof fn lemma_find_shift(s: Seq<char>, p: Seq<char>, k: int)
    requires
        0 <= k <= s.len(),
    ensures
        match find_from(s, p, k) {
            Some(i) => find_from(s.skip(k), p, 0) == Some(i - k),
            None => find_from(s.skip(k), p, 0) is None,
        },
{
    let t = s.skip(k);
    lemma_find_from(s, p, k);
    lemma_find_from(t, p, 0);
    assert forall|j: int| 0 <= j implies (stands_at(t, p, j) <==> stands_at(s, p, j + k)) by {
        if j + k + p.len() <= s.len() {
            assert(t.subrange(j, j + p.len()) =~= s.subrange(j + k, j + k + p.len()));
        }
    }
    match find_from(s, p, k) {
        Some(i) => {
            assert(stands_at(t, p, i - k));
            assert forall|j: int| 0 <= j < i - k implies !stands_at(t, p, j) by {
                assert(!stands_at(s, p, j + k));
            }
            lemma_find_from_unique(t, p, 0, i - k);
        },
        None => {
            match find_from(t, p, 0) {
                Some(j) => {
                    assert(stands_at(s, p, j + k));
                },
                None => {},
            }
        },
    }
}

proof fn lemma_stands_starts(s: Seq<char>, p: Seq<char>, k: int)
    requires
        0 <= k <= s.len(),
    ensures
        stands_at(s, p, k) == starts(s.skip(k), p),
{
    if k + p.len() <= s.len() {
        assert(s.skip(k).take(p.len() as int) =~= s.subrange(k, k + p.len()));
    }
}

proof fn lemma_skip_shift(s: Seq<char>, k: int)
    requires
        0 <= k <= s.len(),
    ensures
        skip_white(s, k) == k + skip_white(s.skip(k), 0),
{
    let t = s.skip(k);
    lemma_skip_white(t, 0);
    let e = skip_white(t, 0);
    assert forall|j: int| k <= j < k + e implies white(#[trigger] s[j]) by {
        assert(white(t[j - k]));
    }
    assert(e < t.len() ==> s[k + e] == t[e]);
    lemma_skip_white_unique(s, k, k + e);
}

/// The marks are short words of lower case without spaces.
pub proof fn lemma_mark(i: int)
    ensures
        solid(mark(i)),
        !mark(i).contains(' '),
        mark(i).contains('?'),
        lower(mark(i)) == mark(i),
{
    reveal_strlit("?==?utf-8?q?");
    reveal_strlit("?==?utf-8?b?");
    reveal_strlit("=?utf-8?q?");
    reveal_strlit("=?utf-8?b?");
    reveal_strlit("?==?");
    reveal_strlit("?=");
    let m = mark(i);
    assert(m[0] == '?' || m[1] == '?');
    assert(lower(m) =~= m);
    assert forall|k: int| 0 <= k < m.len() implies !white(#[trigger] m[k]) by {}
    assert(!m.contains(' ')) by {
        if m.contains(' ') {
            let k = choose|k: int| 0 <= k < m.len() && m[k] == ' ';
            assert(white(m[k]));
        }
    }
}

// ---------------------------------------------------------------------------
// Replacing
// ---------------------------------------------------------------------------
/// `p` stands in `s`, whatever the case of ASCII letters.
pub open spec fn contains_ci(s: Seq<char>, p: Seq<char>) -> bool {
    contains_text(lower(s), lower(p))
}

/// Where there is no match, nothing is replaced.
pub proof fn lemma_replace_absent(s: Seq<char>, p: Seq<char>, r: Seq<char>)
    requires
        !contains_ci(s, p),
    ensures
        replace_ci(s, p, r) == s,
{
    lemma_find_from_none(lower(s), lower(p));
}

/// What has no space in it and does not stand in `s` does not stand there after
/// a replacement by spaces either.
pub proof fn lemma_replace_keeps_absent(s: Seq<char>, p: Seq<char>, q: Seq<char>)
    requires
        !contains_ci(s, q),
        !lower(q).contains(' '),
        p.len() > 0,
    ensures
        !contains_ci(replace_ci(s, p, space()), q),
    decreases s.len(),
{
    lemma_find_from(lower(s), lower(p), 0);
    match find_from(lower(s), lower(p), 0) {
        Some(i) => {
            let rest = s.skip(i + p.len());
            lemma_lower_parts(s, i);
            lemma_lower_parts(s, i + p.len());
            lemma_lacks_part(lower(s), lower(q), 0, i);
            lemma_lacks_part(lower(s), lower(q), i + p.len(), s.len() as int);
            assert(lower(s).subrange(0, i) =~= lower(s).take(i));
            assert(lower(s).subrange(i + p.len(), s.len() as int) =~= lower(s).skip(i + p.len()));
            lemma_replace_keeps_absent(rest, p, q);
            let tail = replace_ci(rest, p, space());
            lemma_lacks_split(lower(s.take(i)), lower(tail), lower(q));
            assert(lower(s.take(i) + space() + tail) =~= lower(s.take(i)) + space() + lower(tail));
        },
        None => {},
    }
}

/// After a replacement by spaces the pattern stands nowhere any more.
pub proof fn lemma_replace_removes(s: Seq<char>, p: Seq<char>)
    requires
        p.len() > 0,
        !lower(p).contains(' '),
    ensures
        !contains_ci(replace_ci(s, p, space()), p),
    decreases s.len(),
{
    lemma_find_from(lower(s), lower(p), 0);
    match find_from(lower(s), lower(p), 0) {
        Some(i) => {
            let rest = s.skip(i + p.len());
            let head = s.take(i);
            lemma_lower_parts(s, i);
            assert(!contains_text(lower(head), lower(p))) by {
                if contains_text(lower(head), lower(p)) {
                    let k = choose|k: int| stands_at(lower(head), lower(p), k);
                    assert(lower(s).subrange(k, k + p.len()) =~= lower(head).subrange(k, k + p.len()));
                    assert(stands_at(lower(s), lower(p), k));
                }
            }
            lemma_replace_removes(rest, p);
            let tail = replace_ci(rest, p, space());
            lemma_lacks_split(lower(head), lower(tail), lower(p));
            assert(lower(head + space() + tail) =~= lower(head) + space() + lower(tail));
        },
        None => {
            if contains_ci(s, p) {
                let k = choose|k: int| stands_at(lower(s), lower(p), k);
                assert(!stands_at(lower(s), lower(p), k));
            }
        },
    }
}

/// A replacement leaves alone a text in front that has no character of the
/// pattern in it.
pub proof fn lemma_replace_behind(a: Seq<char>, b: Seq<char>, p: Seq<char>, r: Seq<char>)
    requires
        p.len() > 0,
        forall|i: int| 0 <= i < a.len() ==> lower_char(#[trigger] a[i]) != lower(p)[0],
    ensures
        replace_ci(a + b, p, r) == a + replace_ci(b, p, r),
{
    let x = a + b;
    let n = a.len() as int;
    lemma_lower_add(a, b);
    assert(lower(x).skip(n) =~= lower(b));
    lemma_find_shift(lower(x), lower(p), n);
    assert forall|j: int| 0 <= j < n implies !stands_at(lower(x), lower(p), j) by {
        if stands_at(lower(x), lower(p), j) {
            assert(lower(x).subrange(j, j + p.len())[0] == lower(x)[j]);
            assert(lower(x)[j] == lower_char(a[j]));
        }
    }
    lemma_find_from(lower(x), lower(p), n);
    lemma_find_from(lower(x), lower(p), 0);
    lemma_find_from(lower(b), lower(p), 0);
    match find_from(lower(b), lower(p), 0) {
        Some(i) => {
            lemma_find_from_unique(lower(x), lower(p), 0, n + i);
            assert(x.take(n + i) =~= a + b.take(i));
            assert(x.skip(n + i + p.len()) =~= b.skip(i + p.len()));
            assert(replace_ci(x, p, r) =~= a + replace_ci(b, p, r));
        },
        None => {
            match find_from(lower(x), lower(p), 0) {
                Some(k) => {
                    assert(k >= n);
                    assert(false);
                },
                None => {},
            }
        },
    }
}

// ---------------------------------------------------------------------------
// Cleaning
// ---------------------------------------------------------------------------
/// None of the marks stands in `s`.
pub open spec fn unmarked(s: Seq<char>) -> bool {
    forall|i: int| 0 <= i < 6 ==> !contains_ci(s, #[trigger] mark(i))
}

/// Removing marks leaves none of those that were removed.
proof fn lemma_marks_removed(s: Seq<char>, n: nat)
    requires
        n <= 6,
    ensures
        forall|i: int| 0 <= i < n ==> !contains_ci(without_marks(s, n), #[trigger] mark(i)),
    decreases n,
{
    if n > 0 {
        let before = without_marks(s, (n - 1) as nat);
        lemma_marks_removed(s, (n - 1) as nat);
        lemma_mark(n - 1);
        lemma_replace_removes(before, mark(n - 1));
        assert forall|i: int| 0 <= i < n implies !contains_ci(
            without_marks(s, n),
            #[trigger] mark(i),
        ) by {
            if i < n - 1 {
                lemma_mark(i);
                lemma_replace_keeps_absent(before, mark(n - 1), mark(i));
            }
        }
    }
}

proof fn lemma_unmarked_stays(s: Seq<char>, n: nat)
    requires
        n <= 6,
        unmarked(s),
    ensures
        without_marks(s, n) == s,
    decreases n,
{
    if n > 0 {
        lemma_unmarked_stays(s, (n - 1) as nat);
        assert(!contains_ci(s, mark(n - 1)));
        lemma_replace_absent(s, mark(n - 1), space());
    }
}

proof fn lemma_lower_white(c: char)
    ensures
        white(lower_char(c)) == white(c),
        lower_char(c) == ' ' <==> c == ' ',
{
}

/// Lower case moves no word boundary.
pub proof fn lemma_lower_words(s: Seq<char>)
    ensures
        words(lower(s)).len() == words(s).len(),
        forall|i: int| 0 <= i < words(s).len() ==> words(lower(s))[i] == lower(#[trigger] words(s)[i]),
    decreases s.len(),
{
    let l = lower(s);
    if s.len() == 0 {
    } else if white(s[0]) {
        lemma_words_white_head(s);
        lemma_words_white_head(l);
        lemma_lower_parts(s, 1);
        lemma_lower_words(s.skip(1));
    } else {
        lemma_skip_word(s, 0);
        let e = skip_word(s, 0);
        assert forall|j: int| 0 <= j < e implies !white(#[trigger] l[j]) by {
            assert(!white(s[j]));
        }
        lemma_words_word_head(s, e);
        lemma_words_word_head(l, e);
        lemma_lower_parts(s, e);
        lemma_lower_words(s.skip(e));
        assert forall|i: int| 0 <= i < words(s).len() implies words(l)[i] == lower(
            #[trigger] words(s)[i],
        ) by {
            if i > 0 {
                assert(words(s)[i] == words(s.skip(e))[i - 1]);
                assert(words(l)[i] == words(l.skip(e))[i - 1]);
            }
        }
    }
}

proof fn lemma_lower_join(a: Seq<Seq<char>>, b: Seq<Seq<char>>)
    requires
        a.len() == b.len(),
        forall|i: int| 0 <= i < a.len() ==> b[i] == lower(#[trigger] a[i]),
    ensures
        join(b, space()) == lower(join(a, space())),
    decreases a.len(),
{
    if a.len() == 0 {
        assert(join(b, space()) =~= lower(join(a, space())));
    } else if a.len() > 1 {
        lemma_lower_join(a.drop_last(), b.drop_last());
        assert(b[b.len() - 1] == lower(a[a.len() - 1]));
        assert(join(b, space()) =~= lower(join(a, space())));
    }
}

/// Collapsing and lower case do not disturb each other.
pub proof fn lemma_lower_collapse(s: Seq<char>)
    ensures
        collapse(lower(s)) == lower(collapse(s)),
{
    lemma_lower_words(s);
    lemma_lower_join(words(s), words(lower(s)));
}

/// A clean text: tidy, and without marks.
pub open spec fn is_clean(s: Seq<char>) -> bool {
    tidy(s) && unmarked(s)
}

/// What [`clean`] gives is clean.
pub proof fn lemma_clean_is_clean(s: Seq<char>)
    ensures
        is_clean(clean(s)),
{
    let w = without_marks(spaced(s), 6);
    lemma_marks_removed(spaced(s), 6);
    lemma_collapse_tidy(w);
    assert forall|i: int| 0 <= i < 6 implies !contains_ci(clean(s), #[trigger] mark(i)) by {
        lemma_mark(i);
        lemma_lacks_collapse(lower(w), mark(i));
        lemma_lower_collapse(w);
    }
}

/// Cleaning a clean text changes nothing.
pub proof fn lemma_clean_stays(s: Seq<char>)
    requires
        is_clean(s),
    ensures
        clean(s) == s,
{
    assert(spaced(s) =~= s) by {
        assert forall|i: int| 0 <= i < s.len() implies spaced(s)[i] == s[i] by {
            assert(white(s[i]) ==> s[i] == ' ');
        }
    }
    lemma_unmarked_stays(s, 6);
    lemma_tidy_collapse(s);
}

/// Law: cleaning a header value a second time changes nothing.
pub proof fn clean_header_value_is_idempotent(value: Seq<char>)
    ensures
        clean(clean(value)) == clean(value),
{
    lemma_clean_is_clean(value);
    lemma_clean_stays(clean(value));
}

// ---------------------------------------------------------------------------
// Subject keys
// ---------------------------------------------------------------------------
/// The end of a clean text is clean where it does not start with a space.
proof fn lemma_clean_suffix(s: Seq<char>, k: int)
    requires
        is_clean(s),
        0 <= k <= s.len(),
        k < s.len() ==> !white(s[k]),
    ensures
        is_clean(s.skip(k)),
{
    let t = s.skip(k);
    assert(tidy(t)) by {
        assert forall|i: int| 0 <= i < t.len() && white(#[trigger] t[i]) implies t[i] == ' ' by {
            assert(t[i] == s[i + k]);
        }
        assert forall|i: int| #![trigger t[i]] 0 <= i < t.len() - 1 && white(t[i]) implies !white(
            t[i + 1],
        ) by {
            assert(t[i] == s[i + k]);
            assert(t[i + 1] == s[i + k + 1]);
        }
        if t.len() > 0 {
            assert(t[0] == s[k]);
            assert(t.last() == s.last());
        }
    }
    assert forall|i: int| 0 <= i < 6 implies !contains_ci(t, #[trigger] mark(i)) by {
        assert(!contains_ci(s, mark(i)));
        lemma_lower_parts(s, k);
        lemma_lacks_part(lower(s), lower(mark(i)), k, s.len() as int);
        assert(lower(s).subrange(k, s.len() as int) =~= lower(s).skip(k));
    }
}

proof fn lemma_prefix_len(t: Seq<char>)
    ensures
        0 <= prefix_len(t) <= 4,
        prefix_len(t) <= t.len(),
{
    reveal_strlit("re:");
    reveal_strlit("fw:");
    reveal_strlit("fwd:");
}

/// A clean subject without its prefixes is clean and has no prefix left.
proof fn lemma_without_prefixes(s: Seq<char>)
    requires
        is_clean(s),
    ensures
        is_clean(without_prefixes(s)),
        prefix_len(without_prefixes(s)) == 0,
    decreases s.len(),
{
    lemma_already_trimmed(s);
    lemma_prefix_len(s);
    let n = prefix_len(s);
    if n > 0 {
        let u = s.skip(n);
        lemma_skip_white(u, 0);
        let k = skip_white(u, 0);
        assert(u.skip(k) =~= s.skip(n + k));
        if n + k < s.len() {
            assert(u[k] == s[n + k]);
        }
        lemma_clean_suffix(s, n + k);
        lemma_without_prefixes(trim_start(u));
    }
}

/// Law: the key of a key is the key itself.
pub proof fn subject_key_is_idempotent(subject: Seq<char>)
    ensures
        subject_key(subject_key(subject)) == subject_key(subject),
{
    let c = clean(subject);
    lemma_clean_is_clean(subject);
    lemma_without_prefixes(c);
    let v = without_prefixes(c);
    lemma_clean_stays(v);
    let k = lower(v);
    lemma_lower_idempotent(v);
    assert(tidy(k)) by {
        assert forall|i: int| 0 <= i < k.len() && white(#[trigger] k[i]) implies k[i] == ' ' by {
            assert(white(v[i]));
        }
        assert forall|i: int| #![trigger k[i]] 0 <= i < k.len() - 1 && white(k[i]) implies !white(
            k[i + 1],
        ) by {
            assert(white(v[i]));
            assert(!white(v[i + 1]));
        }
    }
    assert(unmarked(k)) by {
        assert forall|i: int| 0 <= i < 6 implies !contains_ci(k, #[trigger] mark(i)) by {
            assert(!contains_ci(v, mark(i)));
        }
    }
    lemma_clean_stays(k);
    lemma_already_trimmed(k);
}

/// A reply or forward prefix, in letters of any case.
pub open spec fn is_reply_prefix(p: Seq<char>) -> bool {
    lower(p) == "re:"@ || lower(p) == "fw:"@ || lower(p) == "fwd:"@
}

proof fn lemma_marks_behind(p: Seq<char>, x: Seq<char>, n: nat)
    requires
        n <= 6,
        forall|i: int|
            0 <= i < p.len() ==> lower_char(#[trigger] p[i]) != '?' && lower_char(p[i]) != '=',
    ensures
        without_marks(p + x, n) == p + without_marks(x, n),
    decreases n,
{
    if n > 0 {
        lemma_marks_behind(p, x, (n - 1) as nat);
        let m = mark(n - 1);
        lemma_mark(n - 1);
        assert(lower(m)[0] == '?' || lower(m)[0] == '=') by {
            reveal_strlit("?==?utf-8?q?");
            reveal_strlit("?==?utf-8?b?");
            reveal_strlit("=?utf-8?q?");
            reveal_strlit("=?utf-8?b?");
            reveal_strlit("?==?");
            reveal_strlit("?=");
        }
        lemma_replace_behind(p, without_marks(x, (n - 1) as nat), m, space());
    }
}

proof fn lemma_prefix_chars(p: Seq<char>, i: int)
    requires
        is_reply_prefix(p),
        0 <= i < p.len(),
    ensures
        lower_char(p[i]) != '?',
        lower_char(p[i]) != '=',
        !white(p[i]),
        spaced_char(p[i]) == p[i],
        p.len() == 3 || p.len() == 4,
{
    reveal_strlit("re:");
    reveal_strlit("fw:");
    reveal_strlit("fwd:");
    let l = lower(p);
    assert(l[i] == lower_char(p[i]));
    assert(l.len() == p.len());
    assert(i == 0 || i == 1 || i == 2 || i == 3);
    assert(l[i] == 'r' || l[i] == 'e' || l[i] == ':' || l[i] == 'f' || l[i] == 'w' || l[i] == 'd');
    lemma_lower_white(p[i]);
}

/// Collapsing a text behind a prefix gives the prefix, at most one space, and
/// the collapsed text.
proof fn lemma_collapse_behind(p: Seq<char>, w: Seq<char>)
    requires
        solid(p),
    ensures
        trim_start(collapse(p + w).skip(p.len() as int)) == collapse(w),
        starts(collapse(p + w), p),
{
    let x = p + w;
    let n = p.len() as int;
    lemma_collapse_tidy(w);
    lemma_skip_word(w, 0);
    let e = skip_word(w, 0);
    assert forall|j: int| 0 <= j < n + e implies !white(#[trigger] x[j]) by {
        if j < n {
            assert(!white(p[j]));
        } else {
            assert(!white(w[j - n]));
        }
    }
    assert(e < w.len() ==> x[n + e] == w[e]);
    lemma_words_word_head(x, n + e);
    assert(x.take(n + e) =~= p + w.take(e));
    assert(x.skip(n + e) =~= w.skip(e));
    let rest = words(w.skip(e));
    if e > 0 {
        lemma_words_word_head(w, e);
    } else {
        assert(w.skip(0) =~= w);
    }
    if rest.len() > 0 {
        lemma_join_front(p + w.take(e), rest, space());
        if e > 0 {
            lemma_join_front(w.take(e), rest, space());
        }
    } else {
        assert(words(x) =~= seq![p + w.take(e)]);
        if e > 0 {
            assert(words(w) =~= seq![w.take(e)]);
        }
    }
    let c = collapse(x);
    assert(c.take(n) =~= p);
    if e > 0 {
        assert(c.skip(n) =~= collapse(w));
        lemma_already_trimmed(collapse(w));
    } else if rest.len() > 0 {
        assert(w.take(0) =~= Seq::<char>::empty());
        assert(c.skip(n) =~= space() + collapse(w));
        let y = c.skip(n);
        lemma_words_solid(w);
        lemma_join_tidy(words(w));
        assert(y[1] == collapse(w)[0]);
        lemma_skip_white_unique(y, 0, 1);
        assert(y.skip(1) =~= collapse(w));
    } else {
        assert(words(w) == rest);
        assert(collapse(w) =~= Seq::<char>::empty());
        assert(c.skip(n) =~= Seq::<char>::empty());
        assert(trim_start(c.skip(n)) =~= collapse(w));
    }
}

/// A space in front does not change the key of a subject.
proof fn lemma_key_behind_space(subject: Seq<char>)
    ensures
        subject_key(space() + subject) == subject_key(subject),
{
    let x = spaced(subject);
    assert(spaced(space() + subject) =~= space() + x);
    lemma_marks_behind(space(), x, 6);
    let w = without_marks(x, 6);
    lemma_words_white_head(space() + w);
    assert((space() + w).skip(1) =~= w);
}

/// A reply or forward prefix in front does not change the key of a subject.
proof fn lemma_key_behind_prefix(prefix: Seq<char>, subject: Seq<char>)
    requires
        is_reply_prefix(prefix),
    ensures
        subject_key(prefix + subject) == subject_key(subject),
{
    reveal_strlit("re:");
    reveal_strlit("fw:");
    reveal_strlit("fwd:");
    let x = prefix + subject;
    assert forall|i: int| 0 <= i < prefix.len() implies !white(#[trigger] prefix[i]) by {
        lemma_prefix_chars(prefix, i);
    }
    assert(prefix.len() == lower(prefix).len());
    assert(solid(prefix));
    assert(spaced(x) =~= prefix + spaced(subject)) by {
        assert forall|i: int| 0 <= i < x.len() implies spaced(x)[i] == (prefix + spaced(subject))[i] by {
            if i < prefix.len() {
                lemma_prefix_chars(prefix, i);
            }
        }
    }
    assert forall|i: int| 0 <= i < prefix.len() implies lower_char(#[trigger] prefix[i]) != '?'
        && lower_char(prefix[i]) != '=' by {
        lemma_prefix_chars(prefix, i);
    }
    lemma_marks_behind(prefix, spaced(subject), 6);
    let w = without_marks(spaced(subject), 6);
    lemma_collapse_behind(prefix, w);
    let c = clean(x);
    lemma_collapse_tidy(prefix + w);
    lemma_already_trimmed(c);
    let n = prefix.len() as int;
    assert(prefix_len(c) == n) by {
        lemma_lower_parts(c, n);
        let l = lower(c);
        assert(l.take(n) == lower(prefix));
        if lower(prefix) == "re:"@ {
            assert(starts(l, "re:"@));
        } else if lower(prefix) == "fw:"@ {
            assert(starts(l, "fw:"@));
            assert(l.take(3)[0] == 'f');
        } else {
            assert(starts(l, "fwd:"@));
            assert(l.take(4)[0] == 'f');
            assert(l.take(4)[2] == 'd');
            assert(l[0] == 'f');
            assert(l[2] == 'd');
            assert(l.take(3)[0] == l[0]);
            assert(l.take(3)[2] == l[2]);
        }
    }
    lemma_skip_white(c.skip(n), 0);
    assert(without_prefixes(c) == without_prefixes(clean(subject)));
}

/// Law: a reply or forward prefix in front, in letters of any case, with or
/// without a space behind it, does not change the key of a subject.
pub proof fn subject_key_ignores_prefixes(prefix: Seq<char>, subject: Seq<char>)
    requires
        is_reply_prefix(prefix),
    ensures
        subject_key(prefix + subject) == subject_key(subject),
        subject_key(prefix + space() + subject) == subject_key(subject),
{
    lemma_key_behind_prefix(prefix, subject);
    lemma_key_behind_prefix(prefix, space() + subject);
    lemma_key_behind_space(subject);
    assert(prefix + space() + subject =~= prefix + (space() + subject));
}

/// Law: every match is replaced, one after the other, and what stands before a match
/// stays as it is.
pub proof fn every_match_is_replaced(
    a: Seq<char>,
    found: Seq<char>,
    b: Seq<char>,
    p: Seq<char>,
    r: Seq<char>,
)
    requires
        p.len() > 0,
        lower(found) == lower(p),
        forall|i: int| 0 <= i < a.len() ==> lower_char(#[trigger] a[i]) != lower(p)[0],
    ensures
        replace_ci(a + found + b, p, r) == a + r + replace_ci(b, p, r),
        replace_ci(a, p, r) == a,
{
    let rest = found + b;
    lemma_replace_behind(a, rest, p, r);
    assert(a + found + b =~= a + rest);
    assert(found.len() == p.len()) by {
        assert(lower(found).len() == found.len());
        assert(lower(p).len() == p.len());
    }
    lemma_lower_add(found, b);
    assert(lower(rest).subrange(0, p.len() as int) =~= lower(p));
    lemma_find_from_unique(lower(rest), lower(p), 0, 0);
    assert(rest.take(0) =~= Seq::<char>::empty());
    assert(rest.skip(p.len() as int) =~= b);
    assert(Seq::<char>::empty() + r + replace_ci(b, p, r) =~= r + replace_ci(b, p, r));
    assert(a + (r + replace_ci(b, p, r)) =~= a + r + replace_ci(b, p, r));
    let none = Seq::<char>::empty();
    lemma_replace_behind(a, none, p, r);
    assert(a + none =~= a);
    lemma_find_from(lower(none), lower(p), 0);
    assert(lower(p).len() == p.len());
    assert(replace_ci(none, p, r) =~= none);
}

/// Law: a clean header value stands on one line and is tidy, and nothing of encoded
/// words is left in it, in letters of any case. Of a value without such remains only
/// the white space changes.
pub proof fn nothing_of_encoded_words_is_left(value: Seq<char>)
    ensures
        tidy(clean(value)),
        !contains_ci(clean(value), "?==?utf-8?q?"@),
        !contains_ci(clean(value), "?==?utf-8?b?"@),
        !contains_ci(clean(value), "=?utf-8?q?"@),
        !contains_ci(clean(value), "=?utf-8?b?"@),
        !contains_ci(clean(value), "?==?"@),
        !contains_ci(clean(value), "?="@),
        unmarked(spaced(value)) ==> clean(value) == collapse(spaced(value)),
        tidy(value) && unmarked(value) ==> clean(value) == value,
{
    lemma_clean_is_clean(value);
    assert(unmarked(clean(value)));
    assert(!contains_ci(clean(value), mark(0)));
    assert(!contains_ci(clean(value), mark(1)));
    assert(!contains_ci(clean(value), mark(2)));
    assert(!contains_ci(clean(value), mark(3)));
    assert(!contains_ci(clean(value), mark(4)));
    assert(!contains_ci(clean(value), mark(5)));
    if unmarked(spaced(value)) {
        lemma_unmarked_stays(spaced(value), 6);
    }
    if tidy(value) && unmarked(value) {
        lemma_clean_stays(value);
    }
}

/// Law: the key of a clean subject that starts with no prefix is that subject in
/// lower case: nothing but prefixes, case and white space is lost.
pub proof fn keys_keep_the_subject(subject: Seq<char>)
    requires
        is_clean(subject),
        !starts(lower(subject), "re:"@),
        !starts(lower(subject), "fw:"@),
        !starts(lower(subject), "fwd:"@),
    ensures
        subject_key(subject) == lower(subject),
{
    lemma_clean_stays(subject);
    lemma_already_trimmed(subject);
    assert(without_prefixes(subject) == subject);
}

} // verus!
