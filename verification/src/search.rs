//! What a user types to search for messages, as terms and as a full-text query.
use vstd::prelude::*;
use vstd::string::*;

use crate::text::{
    blank, cat, cat3, chars_of, find_char, find_one, join, join_strings, lemma_blank,
    lemma_find_char, lemma_find_char_unique, opt_text, string_of, texts, trim, trimmed, white,
};
use crate::words::{collapse, collapse_spaces, lemma_join_front};

verus! {

/// A letter or a digit in Unicode's sense.
pub uninterp spec fn alphanumeric(c: char) -> bool;

/// `char::is_alphanumeric` of the standard library. Of the ASCII characters the
/// letters and digits are alphanumeric and no others, and no white space is.
pub assume_specification[ char::is_alphanumeric ](c: char) -> (r: bool)
    ensures
        r == alphanumeric(c),
        (c as int) < 128 ==> r == ascii_alphanumeric(c),
        white(c) ==> !r,
;

/// An ASCII letter or digit.
pub open spec fn ascii_alphanumeric(c: char) -> bool {
    ||| '0' <= c && c <= '9'
    ||| 'A' <= c && c <= 'Z'
    ||| 'a' <= c && c <= 'z'
}

/// A character of a search word.
pub open spec fn word_char(c: char) -> bool {
    alphanumeric(c) || c == '_'
}

/// Computes [`word_char`].
fn is_word_char(c: char) -> (r: bool)
    ensures
        r == word_char(c),
        white(c) ==> !r,
{
    c.is_alphanumeric() || c == '_'
}

/// Something to search for: a word that may go on, or an exact phrase.
pub enum SearchTerm {
    Word(String),
    Phrase(String),
}

/// The view of a [`SearchTerm`].
pub enum TermView {
    Word(Seq<char>),
    Phrase(Seq<char>),
}

impl View for SearchTerm {
    type V = TermView;

    open spec fn view(&self) -> TermView {
        match *self {
            SearchTerm::Word(s) => TermView::Word(s@),
            SearchTerm::Phrase(s) => TermView::Phrase(s@),
        }
    }
}

/// The views of a list of terms.
pub open spec fn term_views(terms: Seq<SearchTerm>) -> Seq<TermView> {
    Seq::new(terms.len(), |i: int| terms[i]@)
}

/// A word, trimmed; nothing where that leaves nothing.
pub open spec fn word_term(s: Seq<char>) -> Seq<TermView> {
    if trim(s).len() == 0 {
        Seq::empty()
    } else {
        seq![TermView::Word(trim(s))]
    }
}

/// A phrase with single spaces; nothing where that leaves nothing.
pub open spec fn phrase_term(s: Seq<char>) -> Seq<TermView> {
    if collapse(s).len() == 0 {
        Seq::empty()
    } else {
        seq![TermView::Phrase(collapse(s))]
    }
}

/// The end of the word that stands at `i`.
pub open spec fn word_end(s: Seq<char>, i: int) -> int
    decreases s.len() - i,
{
    if 0 <= i < s.len() && word_char(s[i]) {
        word_end(s, i + 1)
    } else {
        i
    }
}

/// The words of an unquoted stretch, from position `i` on: the longest stretches
/// of word characters.
pub open spec fn plain_words(s: Seq<char>, i: int) -> Seq<TermView>
    decreases s.len() - i,
{
    if i < 0 || i >= s.len() {
        Seq::empty()
    } else if !word_char(s[i]) {
        plain_words(s, i + 1)
    } else {
        let e = word_end(s, i);
        if e <= i || e > s.len() {
            Seq::empty()
        } else {
            word_term(s.subrange(i, e)) + plain_words(s, e)
        }
    }
}

/// The terms of a search: words outside of quotes, phrases between quotes. What
/// follows a quote that is not closed is one word.
pub open spec fn search_terms(s: Seq<char>) -> Seq<TermView>
    decreases s.len(),
{
    match find_char(s, '"', 0) {
        None => plain_words(s, 0),
        Some(a) => if !(0 <= a < s.len()) {
            Seq::empty()
        } else {
            let before = plain_words(s.take(a), 0);
            match find_char(s, '"', a + 1) {
                None => before + word_term(s.skip(a + 1)),
                Some(b) => if !(a < b < s.len()) {
                    Seq::empty()
                } else {
                    before + phrase_term(s.subrange(a + 1, b)) + search_terms(s.skip(b + 1))
                },
            }
        },
    }
}

proof fn lemma_word_end(s: Seq<char>, i: int)
    requires
        0 <= i <= s.len(),
    ensures
        i <= word_end(s, i) <= s.len(),
        forall|k: int| i <= k < word_end(s, i) ==> word_char(#[trigger] s[k]),
    decreases s.len() - i,
{
    if i < s.len() && word_char(s[i]) {
        lemma_word_end(s, i + 1);
    }
}

/// Makes a word of the characters that were gathered, and starts over.
pub fn push_search_word(terms: &mut Vec<SearchTerm>, current: &mut String)
    ensures
        term_views(final(terms)@) == term_views(old(terms)@) + word_term(old(current)@),
        final(current)@ == Seq::<char>::empty(),
{
    let ghost before = term_views(terms@);
    let value = trimmed(current.as_str());
    *current = String::new();
    if !value.as_str().is_empty() {
        let ghost added = TermView::Word(value@);
        terms.push(SearchTerm::Word(value));
        assert(term_views(terms@) =~= before.push(added));
    }
    assert(term_views(terms@) =~= before + word_term(old(current)@));
}

/// Appends the words of an unquoted stretch.
fn push_plain_words(terms: &mut Vec<SearchTerm>, v: &Vec<char>, from: usize, to: usize)
    requires
        from <= to <= v.len(),
    ensures
        term_views(final(terms)@) == term_views(old(terms)@) + plain_words(
            v@.subrange(from as int, to as int),
            0,
        ),
        forall|k: int| from <= k < to && white(#[trigger] v@[k]) ==> !word_char(v@[k]),
{
    let ghost s = v@.subrange(from as int, to as int);
    let ghost start = term_views(terms@);
    let mut i: usize = from;
    while i < to
        invariant
            from <= i <= to <= v.len(),
            s == v@.subrange(from as int, to as int),
            term_views(terms@) + plain_words(s, i - from) == start + plain_words(s, 0),
            forall|k: int| from <= k < i && white(#[trigger] v@[k]) ==> !word_char(v@[k]),
        decreases to - i,
    {
        assert(s[i - from] == v@[i as int]);
        if !is_word_char(v[i]) {
            i = i + 1;
        } else {
            let b = i;
            let ghost before = term_views(terms@);
            while i < to && is_word_char(v[i])
                invariant
                    from <= b <= i <= to <= v.len(),
                    s == v@.subrange(from as int, to as int),
                    b < to,
                    word_char(v@[b as int]),
                    word_end(s, b - from) == word_end(s, i - from),
                    forall|k: int| from <= k < i && white(#[trigger] v@[k]) ==> !word_char(v@[k]),
                decreases to - i,
            {
                assert(s[i - from] == v@[i as int]);
                i = i + 1;
            }
            proof {
                lemma_word_end(s, b - from);
                if i < to {
                    assert(s[i - from] == v@[i as int]);
                }
                assert(word_end(s, b - from) == i - from);
                assert(s[b - from] == v@[b as int]);
                assert(word_end(s, b - from) == word_end(s, b - from + 1));
                lemma_word_end(s, b - from + 1);
                assert(s.subrange(b - from, i - from) =~= v@.subrange(b as int, i as int));
            }
            let mut word = string_of(v, b, i);
            push_search_word(terms, &mut word);
            proof {
                assert(term_views(terms@) + plain_words(s, i - from) =~= before + plain_words(
                    s,
                    b - from,
                ));
            }
        }
    }
    assert(term_views(terms@) =~= start + plain_words(s, 0));
}

/// Where there is no word character, there is no word.
proof fn lemma_no_words(s: Seq<char>, i: int)
    requires
        0 <= i,
        forall|k: int| i <= k < s.len() ==> !word_char(#[trigger] s[k]),
    ensures
        plain_words(s, i) == Seq::<TermView>::empty(),
    decreases s.len() - i,
{
    if i < s.len() {
        assert(!word_char(s[i]));
        lemma_no_words(s, i + 1);
    }
}

/// Computes [`search_terms`]. In a blank search there are none.
pub fn parse_search_terms(query: &str) -> (terms: Vec<SearchTerm>)
    ensures
        term_views(terms@) == search_terms(query@),
        blank(query@) ==> terms@.len() == 0,
{
    let v = chars_of(query);
    let mut terms: Vec<SearchTerm> = Vec::new();
    let mut from: usize = 0;
    assert(v@.skip(0) =~= v@);
    assert(term_views(terms@) + search_terms(v@) =~= search_terms(v@));
    loop
        invariant
            from <= v.len(),
            v@ == query@,
            term_views(terms@) + search_terms(v@.skip(from as int)) == search_terms(v@),
            blank(query@) ==> from == 0 && terms@.len() == 0,
        decreases v.len() - from,
    {
        let ghost tail = v@.skip(from as int);
        let ghost before = term_views(terms@);
        proof {
            crate::msgid::lemma_find_char_shift(v@, '"', from as int, 0);
        }
        let a = match find_one(&v, '"', from) {
            Some(a) => a,
            None => {
                push_plain_words(&mut terms, &v, from, v.len());
                assert(v@.subrange(from as int, v.len() as int) =~= tail);
                proof {
                    if blank(query@) {
                        lemma_blank(query@);
                        lemma_no_words(tail, 0);
                        assert(term_views(terms@).len() == 0);
                    }
                }
                return terms;
            },
        };
        push_plain_words(&mut terms, &v, from, a);
        proof {
            if blank(query@) {
                lemma_blank(query@);
                lemma_find_char(v@, '"', from as int);
                assert(white(v@[a as int]));
            }
            assert(v@.subrange(from as int, a as int) =~= tail.take(a - from));
            crate::msgid::lemma_find_char_shift(v@, '"', from as int, a - from + 1);
        }
        match find_one(&v, '"', a + 1) {
            Some(b) => {
                let phrase = string_of(&v, a + 1, b);
                let value = collapse_spaces(phrase.as_str());
                let ghost words = term_views(terms@);
                if !value.as_str().is_empty() {
                    let ghost added = TermView::Phrase(value@);
                    terms.push(SearchTerm::Phrase(value));
                    assert(term_views(terms@) =~= words.push(added));
                }
                proof {
                    assert(tail.subrange(a - from + 1, b - from) =~= v@.subrange(a + 1, b as int));
                    assert(tail.skip(b - from + 1) =~= v@.skip(b + 1));
                    assert(term_views(terms@) =~= words + phrase_term(phrase@));
                    assert(term_views(terms@) + search_terms(v@.skip(b + 1)) =~= before
                        + search_terms(tail));
                }
                from = b + 1;
            },
            None => {
                let mut rest = string_of(&v, a + 1, v.len());
                proof {
                    assert(v@.subrange(a + 1, v.len() as int) =~= tail.skip(a - from + 1));
                }
                push_search_word(&mut terms, &mut rest);
                assert(term_views(terms@) =~= before + search_terms(tail));
                return terms;
            },
        }
    }
}

/// The word characters of a text.
pub open spec fn only_word_chars(s: Seq<char>) -> Seq<char> {
    s.filter(|c: char| word_char(c))
}

/// Computes [`only_word_chars`].
pub fn fts_escape_word(value: &str) -> (r: String)
    ensures
        r@ == only_word_chars(value@),
{
    let v = chars_of(value);
    let mut r = String::new();
    let ghost keep = |c: char| word_char(c);
    let mut i: usize = 0;
    proof {
        reveal(Seq::filter);
        assert(v@.take(0) =~= Seq::<char>::empty());
    }
    while i < v.len()
        invariant
            i <= v.len(),
            keep == (|c: char| word_char(c)),
            r@ == v@.take(i as int).filter(keep),
        decreases v.len() - i,
    {
        proof {
            reveal(Seq::filter);
            assert(v@.take(i + 1).drop_last() =~= v@.take(i as int));
            assert(v@.take(i + 1).last() == v@[i as int]);
        }
        if is_word_char(v[i]) {
            r.push(v[i]);
        }
        i = i + 1;
    }
    assert(v@.take(v.len() as int) =~= value@);
    r
}

/// A text with every quote doubled.
pub open spec fn doubled_quotes(s: Seq<char>) -> Seq<char>
    decreases s.len(),
{
    if s.len() == 0 {
        s
    } else {
        doubled_quotes(s.drop_last()) + (if s.last() == '"' {
            seq!['"', '"']
        } else {
            seq![s.last()]
        })
    }
}

/// Computes [`doubled_quotes`].
fn double_quotes(value: &str) -> (r: String)
    ensures
        r@ == doubled_quotes(value@),
{
    let v = chars_of(value);
    let mut r = String::new();
    let mut i: usize = 0;
    while i < v.len()
        invariant
            i <= v.len(),
            r@ == doubled_quotes(v@.take(i as int)),
        decreases v.len() - i,
    {
        let ghost before = r@;
        let c: char = v[i];
        if c == '"' {
            r.push('"');
        }
        r.push(c);
        proof {
            assert(v@.take(i + 1).drop_last() =~= v@.take(i as int));
            assert(v@.take(i + 1).last() == c);
            assert(r@ =~= doubled_quotes(v@.take(i + 1)));
        }
        i = i + 1;
    }
    assert(v@.take(v.len() as int) =~= value@);
    r
}

/// A term in a full-text query: a word that may go on, or a quoted phrase.
pub open spec fn query_term(term: TermView) -> Seq<char> {
    match term {
        TermView::Word(s) => only_word_chars(s) + "*"@,
        TermView::Phrase(s) => "\""@ + doubled_quotes(s) + "\""@,
    }
}

/// The full-text query for a search: all of its terms have to be found. Nothing
/// where there are none.
pub open spec fn full_text_query(query: Seq<char>) -> Option<Seq<char>> {
    let terms = search_terms(query);
    if terms.len() == 0 {
        None
    } else {
        Some(join(terms.map_values(|t: TermView| query_term(t)), " AND "@))
    }
}

/// Computes [`full_text_query`]. There is none for a blank search.
pub fn fts_query_value(query: &str) -> (r: Option<String>)
    ensures
        opt_text(r) == full_text_query(query@),
        blank(query@) ==> r is None,
{
    let terms = parse_search_terms(query);
    assert(term_views(terms@).len() == terms.len());
    if terms.len() == 0 {
        return None;
    }
    let ghost all = search_terms(query@).map_values(|t: TermView| query_term(t));
    let mut parts: Vec<String> = Vec::new();
    let mut i: usize = 0;
    while i < terms.len()
        invariant
            i <= terms.len(),
            term_views(terms@) == search_terms(query@),
            all == search_terms(query@).map_values(|t: TermView| query_term(t)),
            texts(parts@) == all.take(i as int),
        decreases terms.len() - i,
    {
        let ghost before = texts(parts@);
        assert(search_terms(query@)[i as int] == terms@[i as int]@);
        let part = match &terms[i] {
            SearchTerm::Word(s) => cat(fts_escape_word(s.as_str()).as_str(), "*"),
            SearchTerm::Phrase(s) => cat3("\"", double_quotes(s.as_str()).as_str(), "\""),
        };
        let ghost added = part@;
        parts.push(part);
        assert(texts(parts@) =~= before.push(added));
        assert(added == all[i as int]);
        i = i + 1;
    }
    assert(all.take(terms.len() as int) =~= all);
    Some(join_strings(&parts, " AND "))
}

// ---------------------------------------------------------------------------
// Laws
// ---------------------------------------------------------------------------
/// Law: what is left of a word holds nothing but word characters.
pub proof fn escaped_words_are_words(s: Seq<char>)
    ensures
        forall|i: int| 0 <= i < only_word_chars(s).len() ==> word_char(#[trigger] only_word_chars(s)[i]),
{
    let keep = |c: char| word_char(c);
    assert forall|i: int| 0 <= i < only_word_chars(s).len() implies word_char(
        #[trigger] only_word_chars(s)[i],
    ) by {
        s.lemma_filter_pred(keep, i);
    }
}

/// No quote is among the characters.
pub open spec fn unquoted(s: Seq<char>) -> bool {
    forall|i: int| 0 <= i < s.len() ==> #[trigger] s[i] != '"'
}

proof fn lemma_part_unquoted(s: Seq<char>, a: int, b: int)
    requires
        0 <= a <= b <= s.len(),
        forall|i: int| a <= i < b ==> #[trigger] s[i] != '"',
    ensures
        unquoted(s.subrange(a, b)),
{
    let t = s.subrange(a, b);
    assert forall|i: int| 0 <= i < t.len() implies #[trigger] t[i] != '"' by {
        assert(t[i] == s[a + i]);
    }
}

proof fn lemma_collapse_unquoted(s: Seq<char>)
    requires
        unquoted(s),
    ensures
        unquoted(collapse(s)),
{
    let q = seq!['"'];
    assert(!crate::text::contains_text(s, q)) by {
        if crate::text::contains_text(s, q) {
            let i = choose|i: int| crate::text::stands_at(s, q, i);
            assert(s.subrange(i, i + 1)[0] == s[i]);
        }
    }
    crate::words::lemma_lacks_collapse(s, q);
    let c = collapse(s);
    assert forall|i: int| 0 <= i < c.len() implies #[trigger] c[i] != '"' by {
        if c[i] == '"' {
            assert(c.subrange(i, i + 1) =~= q);
            assert(crate::text::stands_at(c, q, i));
        }
    }
}

/// Law: no phrase holds a quote.
pub proof fn phrases_hold_no_quote(query: Seq<char>)
    ensures
        forall|i: int|
            0 <= i < search_terms(query).len() ==> (#[trigger] search_terms(query)[i] matches
                TermView::Phrase(p) ==> unquoted(p)),
    decreases query.len(),
{
    lemma_find_char(query, '"', 0);
    match find_char(query, '"', 0) {
        None => {
            lemma_plain_words_are_words(query, 0);
        },
        Some(a) => {
            let before = plain_words(query.take(a), 0);
            lemma_plain_words_are_words(query.take(a), 0);
            lemma_find_char(query, '"', a + 1);
            match find_char(query, '"', a + 1) {
                None => {},
                Some(b) => {
                    let inner = query.subrange(a + 1, b);
                    lemma_part_unquoted(query, a + 1, b);
                    lemma_collapse_unquoted(inner);
                    phrases_hold_no_quote(query.skip(b + 1));
                    let mid = before + phrase_term(inner);
                    let all = search_terms(query);
                    assert forall|i: int| 0 <= i < all.len() implies (#[trigger] all[i] matches
                        TermView::Phrase(p) ==> unquoted(p)) by {
                        if i < before.len() {
                            assert(all[i] == before[i]);
                        } else if i < mid.len() {
                            assert(all[i] == phrase_term(inner)[i - before.len()]);
                        } else {
                            assert(all[i] == search_terms(query.skip(b + 1))[i - mid.len()]);
                        }
                    }
                },
            }
        },
    }
}

proof fn lemma_plain_words_are_words(s: Seq<char>, i: int)
    ensures
        forall|k: int| 0 <= k < plain_words(s, i).len() ==> #[trigger] plain_words(s, i)[k] is Word,
    decreases s.len() - i,
{
    if 0 <= i < s.len() {
        if !word_char(s[i]) {
            lemma_plain_words_are_words(s, i + 1);
        } else {
            let e = word_end(s, i);
            if e > i && e <= s.len() {
                lemma_plain_words_are_words(s, e);
            }
        }
    }
}

/// Law: doubling quotes leaves a text without quotes alone, so phrases stand in a
/// full-text query as they are.
pub proof fn unquoted_text_is_not_doubled(s: Seq<char>)
    requires
        unquoted(s),
    ensures
        doubled_quotes(s) == s,
    decreases s.len(),
{
    if s.len() > 0 {
        assert(s[s.len() - 1] != '"');
        unquoted_text_is_not_doubled(s.drop_last());
        assert(doubled_quotes(s) =~= s);
    }
}

proof fn lemma_words_behind(a: Seq<char>, b: Seq<char>, i: int)
    requires
        0 <= i <= b.len(),
    ensures
        word_end(a + b, a.len() + i) == a.len() + word_end(b, i),
        plain_words(a + b, a.len() + i) == plain_words(b, i),
    decreases b.len() - i,
{
    let s = a + b;
    if i < b.len() {
        assert(s[a.len() + i] == b[i]);
        lemma_words_behind(a, b, i + 1);
        lemma_word_end(b, i);
        if word_char(b[i]) {
            let e = word_end(b, i);
            assert(word_end(b, i) == word_end(b, i + 1));
            lemma_word_end(b, i + 1);
            assert(e > i);
            assert(s.subrange(a.len() + i, a.len() + e) =~= b.subrange(i, e));
            lemma_words_behind(a, b, e);
        }
    }
}

proof fn lemma_words_before(a: Seq<char>, c: char, b: Seq<char>, i: int)
    requires
        !word_char(c),
        0 <= i <= a.len(),
    ensures
        word_end(a + seq![c] + b, i) == word_end(a, i),
        plain_words(a + seq![c] + b, i) == plain_words(a, i) + plain_words(b, 0),
    decreases a.len() - i,
{
    let s = a + seq![c] + b;
    if i == a.len() {
        assert(s[i] == c);
        lemma_words_behind(a + seq![c], b, 0);
        assert(plain_words(a, i) + plain_words(b, 0) =~= plain_words(b, 0));
    } else {
        assert(s[i] == a[i]);
        lemma_words_before(a, c, b, i + 1);
        lemma_word_end(a, i);
        if word_char(a[i]) {
            let e = word_end(a, i);
            lemma_word_end(a, i + 1);
            assert(s.subrange(i, e) =~= a.subrange(i, e));
            lemma_words_before(a, c, b, e);
            assert(word_term(a.subrange(i, e)) + (plain_words(a, e) + plain_words(b, 0)) =~= (
            word_term(a.subrange(i, e)) + plain_words(a, e)) + plain_words(b, 0));
        }
    }
}

proof fn lemma_one_word(w: Seq<char>, i: int)
    requires
        0 <= i <= w.len(),
        forall|k: int| 0 <= k < w.len() ==> word_char(#[trigger] w[k]),
    ensures
        word_end(w, i) == w.len(),
    decreases w.len() - i,
{
    if i < w.len() {
        assert(word_char(w[i]));
        lemma_one_word(w, i + 1);
    }
}

/// A text that is one word: no character of it stands between words.
pub open spec fn one_word(w: Seq<char>) -> bool {
    &&& w.len() > 0
    &&& trim(w) == w
    &&& forall|k: int| 0 <= k < w.len() ==> word_char(#[trigger] w[k])
}

/// Law: words are what stands between other characters: none of them is lost or put
/// elsewhere, whatever stands between them, and a word is searched for as a whole.
pub proof fn words_are_parted_by_other_characters(a: Seq<char>, c: char, b: Seq<char>)
    ensures
        !word_char(c) ==> plain_words(a + seq![c] + b, 0) == plain_words(a, 0) + plain_words(b, 0),
        one_word(a) ==> plain_words(a, 0) == seq![TermView::Word(a)],
        a.len() == 0 ==> plain_words(a, 0).len() == 0,
{
    if !word_char(c) {
        lemma_words_before(a, c, b, 0);
    }
    if one_word(a) {
        lemma_one_word(a, 0);
        assert(word_char(a[0]));
        assert(a.subrange(0, a.len() as int) =~= a);
        assert(plain_words(a, a.len() as int) =~= Seq::<TermView>::empty());
        assert(plain_words(a, 0) =~= seq![TermView::Word(a)]);
    }
}

/// Law: what stands between two quotes is searched for as one phrase, with single
/// spaces; before it stand words, and behind it the search goes on. What follows a
/// quote that is not closed is one word, and without quotes there are words alone.
pub proof fn quotes_hold_phrases(a: Seq<char>, p: Seq<char>, b: Seq<char>)
    requires
        unquoted(a),
        unquoted(p),
    ensures
        search_terms(a) == plain_words(a, 0),
        collapse(p).len() > 0 ==> search_terms(a + seq!['"'] + p + seq!['"'] + b) == plain_words(
            a,
            0,
        ) + seq![TermView::Phrase(collapse(p))] + search_terms(b),
        collapse(p).len() == 0 ==> search_terms(a + seq!['"'] + p + seq!['"'] + b) == plain_words(
            a,
            0,
        ) + search_terms(b),
        trim(p).len() > 0 ==> search_terms(a + seq!['"'] + p) == plain_words(a, 0) + seq![
            TermView::Word(trim(p)),
        ],
{
    let n = a.len() as int;
    lemma_find_char(a, '"', 0);
    assert(find_char(a, '"', 0) is None);
    let open = a + seq!['"'] + p;
    assert forall|j: int| 0 <= j < n implies open[j] != '"' by {
        assert(open[j] == a[j]);
    }
    lemma_find_char_unique(open, '"', 0, n);
    lemma_find_char(open, '"', n + 1);
    match find_char(open, '"', n + 1) {
        Some(k) => {
            assert(open[k] == p[k - n - 1]);
        },
        None => {},
    }
    assert(open.take(n) =~= a);
    assert(open.skip(n + 1) =~= p);
    let s = a + seq!['"'] + p + seq!['"'] + b;
    assert forall|j: int| 0 <= j < n implies s[j] != '"' by {
        assert(s[j] == a[j]);
    }
    lemma_find_char_unique(s, '"', 0, n);
    let m = n + 1 + p.len();
    assert forall|j: int| n + 1 <= j < m implies s[j] != '"' by {
        assert(s[j] == p[j - n - 1]);
    }
    lemma_find_char_unique(s, '"', n + 1, m);
    assert(s.take(n) =~= a);
    assert(s.subrange(n + 1, m) =~= p);
    assert(s.skip(m + 1) =~= b);
    assert(plain_words(a, 0) + Seq::<TermView>::empty() =~= plain_words(a, 0));
}

proof fn lemma_word_is_kept(w: Seq<char>)
    requires
        forall|k: int| 0 <= k < w.len() ==> word_char(#[trigger] w[k]),
    ensures
        only_word_chars(w) == w,
    decreases w.len(),
{
    reveal(Seq::filter);
    if w.len() > 0 {
        let front = w.drop_last();
        assert forall|k: int| 0 <= k < front.len() implies word_char(#[trigger] front[k]) by {
            assert(word_char(w[k]));
        }
        lemma_word_is_kept(front);
        assert(word_char(w[w.len() - 1]));
        assert(front.push(w.last()) =~= w);
    }
}

/// Law: a word is searched for by how it starts, two words have both to be found, and
/// a phrase has to be found as it is.
pub proof fn every_term_has_to_be_found(v: Seq<char>, c: char, w: Seq<char>, p: Seq<char>)
    requires
        one_word(v) && unquoted(v),
        one_word(w) && unquoted(w),
        !word_char(c) && c != '"',
        unquoted(p) && collapse(p).len() > 0,
    ensures
        full_text_query(v) == Some(v + "*"@),
        full_text_query(v + seq![c] + w) == Some(v + "*"@ + " AND "@ + (w + "*"@)),
        full_text_query(seq!['"'] + p + seq!['"']) == Some("\""@ + collapse(p) + "\""@),
{
    let none = Seq::<char>::empty();
    quotes_hold_phrases(v, p, none);
    words_are_parted_by_other_characters(v, c, w);
    words_are_parted_by_other_characters(w, c, none);
    words_are_parted_by_other_characters(none, c, none);
    lemma_word_is_kept(v);
    lemma_word_is_kept(w);
    let both = v + seq![c] + w;
    assert(unquoted(both)) by {
        assert forall|i: int| 0 <= i < both.len() implies #[trigger] both[i] != '"' by {
            if i < v.len() {
                assert(both[i] == v[i]);
            } else if i > v.len() {
                assert(both[i] == w[i - v.len() - 1]);
            }
        }
    }
    quotes_hold_phrases(both, p, none);
    let f = |t: TermView| query_term(t);
    let one = seq![TermView::Word(v)];
    assert(search_terms(v) == one);
    assert(one.map_values(f) =~= seq![v + "*"@]);
    assert(join(seq![v + "*"@], " AND "@) == v + "*"@);
    let two = seq![TermView::Word(v)] + seq![TermView::Word(w)];
    assert(search_terms(both) == two);
    assert(two.map_values(f) =~= seq![v + "*"@] + seq![w + "*"@]);
    lemma_join_front(v + "*"@, seq![w + "*"@], " AND "@);
    assert(join(seq![w + "*"@], " AND "@) == w + "*"@);
    quotes_hold_phrases(none, p, none);
    let quoted = seq!['"'] + p + seq!['"'];
    assert(none + seq!['"'] + p + seq!['"'] + none =~= quoted);
    quotes_hold_phrases(none, none, none);
    let phrase = seq![TermView::Phrase(collapse(p))];
    assert(search_terms(none) == plain_words(none, 0));
    assert(search_terms(quoted) =~= phrase);
    lemma_collapse_unquoted(p);
    unquoted_text_is_not_doubled(collapse(p));
    assert(phrase.map_values(f) =~= seq!["\""@ + collapse(p) + "\""@]);
    assert(join(seq!["\""@ + collapse(p) + "\""@], " AND "@) == "\""@ + collapse(p) + "\""@);
}

} // verus!
