//! The words of a text, and text with one space between its words.
use vstd::prelude::*;
use vstd::string::*;

use crate::text::{
    chars_of, is_white, join, join_strings, lemma_skip_white, lemma_skip_white_unique, skip_white,
    stands_at, string_of, texts, white, contains_text,
};

verus! {

/// The first position from `i` on that holds white space, or the end.
pub open spec fn skip_word(s: Seq<char>, i: int) -> int
    decreases s.len() - i,
{
    if 0 <= i < s.len() && !white(s[i]) {
        skip_word(s, i + 1)
    } else {
        i
    }
}

/// The words of `s` from position `i` on: the longest stretches without white
/// space, in order.
pub open spec fn words_from(s: Seq<char>, i: int) -> Seq<Seq<char>>
    decreases s.len() - i,
{
    if i < 0 || i > s.len() {
        Seq::empty()
    } else {
        let b = skip_white(s, i);
        let e = skip_word(s, b);
        if b >= s.len() || e <= i || e > s.len() {
            Seq::empty()
        } else {
            seq![s.subrange(b, e)] + words_from(s, e)
        }
    }
}

/// The words of `s`.
pub open spec fn words(s: Seq<char>) -> Seq<Seq<char>> {
    words_from(s, 0)
}

/// One space.
pub open spec fn space() -> Seq<char> {
    seq![' ']
}

/// The words of `s` with one space between neighbours.
pub open spec fn collapse(s: Seq<char>) -> Seq<char> {
    join(words(s), space())
}

/// No white space at the ends, none but single spaces in between.
pub open spec fn tidy(s: Seq<char>) -> bool {
    &&& forall|i: int| 0 <= i < s.len() && white(#[trigger] s[i]) ==> s[i] == ' '
    &&& s.len() > 0 ==> !white(s[0]) && !white(s.last())
    &&& forall|i: int| #![trigger s[i]] 0 <= i < s.len() - 1 && white(s[i]) ==> !white(s[i + 1])
}

/// A word: not empty, without white space.
pub open spec fn solid(w: Seq<char>) -> bool {
    w.len() > 0 && forall|i: int| 0 <= i < w.len() ==> !white(#[trigger] w[i])
}

pub proof fn lemma_skip_word(s: Seq<char>, i: int)
    requires
        0 <= i <= s.len(),
    ensures
        i <= skip_word(s, i) <= s.len(),
        forall|k: int| i <= k < skip_word(s, i) ==> !white(#[trigger] s[k]),
        skip_word(s, i) < s.len() ==> white(s[skip_word(s, i)]),
    decreases s.len() - i,
{
    if i < s.len() && !white(s[i]) {
        lemma_skip_word(s, i + 1);
    }
}

pub proof fn lemma_skip_word_unique(s: Seq<char>, i: int, k: int)
    requires
        0 <= i <= k <= s.len(),
        forall|j: int| i <= j < k ==> !white(#[trigger] s[j]),
        k < s.len() ==> white(s[k]),
    ensures
        skip_word(s, i) == k,
    decreases k - i,
{
    if i < k {
        lemma_skip_word_unique(s, i + 1, k);
    }
}

/// Words from a position on are the words of what follows that position.
pub proof fn lemma_words_shift(s: Seq<char>, k: int, i: int)
    requires
        0 <= k,
        0 <= i,
        k + i <= s.len(),
    ensures
        words_from(s, k + i) == words_from(s.skip(k), i),
    decreases s.len() - i,
{
    let t = s.skip(k);
    lemma_skip_white(s, k + i);
    let b = skip_white(s, k + i);
    assert forall|j: int| i <= j < b - k implies white(#[trigger] t[j]) by {
        assert(white(s[j + k]));
    }
    lemma_skip_white_unique(t, i, b - k);
    if b < s.len() {
        lemma_skip_word(s, b);
        let e = skip_word(s, b);
        assert forall|j: int| b - k <= j < e - k implies !white(#[trigger] t[j]) by {
            assert(!white(s[j + k]));
        }
        lemma_skip_word_unique(t, b - k, e - k);
        assert(e > b) by {
            assert(!white(s[b]));
        }
        assert(t.subrange(b - k, e - k) =~= s.subrange(b, e));
        lemma_words_shift(s, k, e - k);
    }
}

pub proof fn lemma_words_white_head(s: Seq<char>)
    requires
        s.len() > 0,
        white(s[0]),
    ensures
        words(s) == words(s.skip(1)),
{
    lemma_words_shift(s, 1, 0);
    lemma_skip_white(s, 1);
    assert(skip_white(s, 0) == skip_white(s, 1));
    let b = skip_white(s, 1);
    if b < s.len() {
        lemma_skip_word(s, b);
        assert(!white(s[b]));
        assert(skip_word(s, b) > b);
    }
}

pub proof fn lemma_words_word_head(s: Seq<char>, e: int)
    requires
        0 < e <= s.len(),
        forall|j: int| 0 <= j < e ==> !white(#[trigger] s[j]),
        e < s.len() ==> white(s[e]),
    ensures
        words(s) == seq![s.take(e)] + words(s.skip(e)),
{
    assert(!white(s[0]));
    lemma_skip_white_unique(s, 0, 0);
    lemma_skip_word_unique(s, 0, e);
    lemma_words_shift(s, e, 0);
    assert(s.subrange(0, e) =~= s.take(e));
}

/// The words of two texts with a space between them are those of the one and
/// then those of the other.
pub proof fn lemma_words_split(a: Seq<char>, b: Seq<char>)
    ensures
        words(a + space() + b) == words(a) + words(b),
    decreases a.len(),
{
    let x = a + space() + b;
    if a.len() == 0 {
        assert(x.skip(1) =~= b);
        lemma_words_white_head(x);
        assert(words(a) =~= Seq::<Seq<char>>::empty());
        assert(words(a) + words(b) =~= words(b));
    } else if white(a[0]) {
        lemma_words_white_head(a);
        lemma_words_white_head(x);
        assert(x.skip(1) =~= a.skip(1) + space() + b);
        lemma_words_split(a.skip(1), b);
    } else {
        lemma_skip_word(a, 0);
        let e = skip_word(a, 0);
        lemma_words_word_head(a, e);
        assert(forall|j: int| 0 <= j < e ==> x[j] == a[j]);
        assert(e < a.len() ==> x[e] == a[e]);
        assert(e == a.len() ==> x[e] == ' ');
        lemma_words_word_head(x, e);
        assert(x.take(e) =~= a.take(e));
        assert(x.skip(e) =~= a.skip(e) + space() + b);
        lemma_words_split(a.skip(e), b);
        assert(words(x) =~= words(a) + words(b));
    }
}

pub proof fn lemma_words_solid(s: Seq<char>)
    ensures
        forall|i: int| 0 <= i < words(s).len() ==> solid(#[trigger] words(s)[i]),
    decreases s.len(),
{
    if s.len() == 0 {
    } else if white(s[0]) {
        lemma_words_white_head(s);
        lemma_words_solid(s.skip(1));
    } else {
        lemma_skip_word(s, 0);
        let e = skip_word(s, 0);
        lemma_words_word_head(s, e);
        lemma_words_solid(s.skip(e));
        assert(solid(s.take(e))) by {
            assert forall|i: int| 0 <= i < e implies !white(#[trigger] s.take(e)[i]) by {
                assert(!white(s[i]));
            }
        }
        assert forall|i: int| 0 <= i < words(s).len() implies solid(#[trigger] words(s)[i]) by {
            if i > 0 {
                assert(words(s)[i] == words(s.skip(e))[i - 1]);
            }
        }
    }
}

/// A word has one word: itself.
pub proof fn lemma_words_one(w: Seq<char>)
    requires
        solid(w),
    ensures
        words(w) == seq![w],
{
    lemma_words_word_head(w, w.len() as int);
    assert(w.take(w.len() as int) =~= w);
    assert(w.skip(w.len() as int).len() == 0);
    assert(words(w) =~= seq![w]);
}

/// Joining words by spaces and taking the words again gives the same words.
pub proof fn lemma_words_of_join(ws: Seq<Seq<char>>)
    requires
        forall|i: int| 0 <= i < ws.len() ==> solid(#[trigger] ws[i]),
    ensures
        words(join(ws, space())) == ws,
    decreases ws.len(),
{
    if ws.len() == 0 {
        assert(words(join(ws, space())) =~= ws);
    } else if ws.len() == 1 {
        lemma_words_one(ws[0]);
        assert(ws =~= seq![ws[0]]);
    } else {
        let front = ws.drop_last();
        assert forall|i: int| 0 <= i < front.len() implies solid(#[trigger] front[i]) by {
            assert(solid(ws[i]));
        }
        lemma_words_of_join(front);
        lemma_words_split(join(front, space()), ws.last());
        assert(solid(ws[ws.len() - 1]));
        lemma_words_one(ws.last());
        assert(front + seq![ws.last()] =~= ws);
    }
}

/// Law: the words of a collapsed text are those of the text, and collapsing it
/// again changes nothing.
pub proof fn collapsing_keeps_the_words(s: Seq<char>)
    ensures
        words(collapse(s)) == words(s),
        collapse(collapse(s)) == collapse(s),
{
    lemma_words_solid(s);
    lemma_words_of_join(words(s));
}

pub proof fn lemma_join_tidy(ws: Seq<Seq<char>>)
    requires
        forall|i: int| 0 <= i < ws.len() ==> solid(#[trigger] ws[i]),
    ensures
        tidy(join(ws, space())),
        ws.len() > 0 ==> join(ws, space()).len() > 0,
    decreases ws.len(),
{
    if ws.len() == 1 {
        assert(solid(ws[0]));
    } else if ws.len() > 1 {
        let front = ws.drop_last();
        assert forall|i: int| 0 <= i < front.len() implies solid(#[trigger] front[i]) by {
            assert(solid(ws[i]));
        }
        lemma_join_tidy(front);
        let j = join(front, space());
        let w = ws.last();
        assert(solid(ws[ws.len() - 1]));
        let x = j + space() + w;
        assert forall|i: int| 0 <= i < x.len() && white(#[trigger] x[i]) implies x[i] == ' ' by {
            if i < j.len() {
                assert(x[i] == j[i]);
            } else if i > j.len() {
                assert(x[i] == w[i - j.len() - 1]);
            }
        }
        assert forall|i: int| #![trigger x[i]] 0 <= i < x.len() - 1 && white(x[i]) implies !white(x[i + 1]) by {
            if i < j.len() - 1 {
                assert(x[i] == j[i]);
                assert(x[i + 1] == j[i + 1]);
            } else if i == j.len() - 1 {
                assert(x[i] == j.last());
            } else {
                assert(x[i + 1] == w[i - j.len()]);
            }
        }
        assert(x[0] == j[0]);
        assert(x.last() == w[w.len() - 1]);
    }
}

/// A collapsed text is tidy.
pub proof fn lemma_collapse_tidy(s: Seq<char>)
    ensures
        tidy(collapse(s)),
{
    lemma_words_solid(s);
    lemma_join_tidy(words(s));
}

pub proof fn lemma_join_front(first: Seq<char>, rest: Seq<Seq<char>>, sep: Seq<char>)
    requires
        rest.len() > 0,
    ensures
        join(seq![first] + rest, sep) == first + sep + join(rest, sep),
    decreases rest.len(),
{
    let all = seq![first] + rest;
    assert(all.drop_last() =~= seq![first] + rest.drop_last());
    assert(all.last() == rest.last());
    if rest.len() == 1 {
        assert(all.drop_last() =~= seq![first]);
        assert(join(seq![first], sep) == first);
    } else {
        lemma_join_front(first, rest.drop_last(), sep);
        assert(join(all, sep) =~= first + sep + join(rest, sep));
    }
}

/// Collapsing a tidy text changes nothing.
pub proof fn lemma_tidy_collapse(x: Seq<char>)
    requires
        tidy(x),
    ensures
        collapse(x) == x,
    decreases x.len(),
{
    if x.len() == 0 {
        assert(collapse(x) =~= x);
    } else {
        lemma_skip_word(x, 0);
        let e = skip_word(x, 0);
        lemma_words_word_head(x, e);
        let w = x.take(e);
        let rest = x.skip(e);
        if e == x.len() {
            assert(w =~= x);
            assert(words(rest) =~= Seq::<Seq<char>>::empty());
            assert(words(x) =~= seq![x]);
        } else {
            assert(white(x[e]));
            lemma_words_white_head(rest);
            let y = rest.skip(1);
            assert(y =~= x.skip(e + 1));
            assert(y.len() > 0);
            assert(!white(x[e + 1]));
            assert(tidy(y)) by {
                assert forall|i: int| 0 <= i < y.len() && white(#[trigger] y[i]) implies y[i] == ' ' by {
                    assert(y[i] == x[i + e + 1]);
                }
                assert forall|i: int| #![trigger y[i]] 0 <= i < y.len() - 1 && white(y[i]) implies !white(y[i + 1]) by {
                    assert(y[i] == x[i + e + 1]);
                    assert(y[i + 1] == x[i + e + 2]);
                }
                assert(y[0] == x[e + 1]);
                assert(y.last() == x.last());
            }
            lemma_tidy_collapse(y);
            lemma_skip_word(y, 0);
            lemma_words_word_head(y, skip_word(y, 0));
            assert(words(y).len() > 0);
            lemma_join_front(w, words(y), space());
            assert(x =~= w + space() + y);
        }
    }
}

/// A word or a phrase without white space that does not stand in `s` does not
/// stand in any word of `s`.
pub proof fn lemma_words_lack(s: Seq<char>, p: Seq<char>)
    requires
        !contains_text(s, p),
    ensures
        forall|i: int| 0 <= i < words(s).len() ==> !contains_text(#[trigger] words(s)[i], p),
    decreases s.len(),
{
    if s.len() == 0 {
    } else if white(s[0]) {
        lemma_words_white_head(s);
        lemma_lacks_part(s, p, 1, s.len() as int);
        assert(s.subrange(1, s.len() as int) =~= s.skip(1));
        lemma_words_lack(s.skip(1), p);
    } else {
        lemma_skip_word(s, 0);
        let e = skip_word(s, 0);
        lemma_words_word_head(s, e);
        lemma_lacks_part(s, p, e, s.len() as int);
        assert(s.subrange(e, s.len() as int) =~= s.skip(e));
        lemma_lacks_part(s, p, 0, e);
        assert(s.subrange(0, e) =~= s.take(e));
        lemma_words_lack(s.skip(e), p);
        assert forall|i: int| 0 <= i < words(s).len() implies !contains_text(
            #[trigger] words(s)[i],
            p,
        ) by {
            if i > 0 {
                assert(words(s)[i] == words(s.skip(e))[i - 1]);
            }
        }
    }
}

/// What does not stand in a text does not stand in a part of it.
pub proof fn lemma_lacks_part(s: Seq<char>, p: Seq<char>, a: int, b: int)
    requires
        !contains_text(s, p),
        0 <= a <= b <= s.len(),
    ensures
        !contains_text(s.subrange(a, b), p),
{
    let t = s.subrange(a, b);
    if contains_text(t, p) {
        let i = choose|i: int| stands_at(t, p, i);
        assert(s.subrange(a + i, a + i + p.len()) =~= t.subrange(i, i + p.len()));
        assert(stands_at(s, p, a + i));
    }
}

/// What has no space in it and stands neither in `a` nor in `b` does not stand
/// in the two with a space between them.
pub proof fn lemma_lacks_split(a: Seq<char>, b: Seq<char>, p: Seq<char>)
    requires
        !contains_text(a, p),
        !contains_text(b, p),
        !p.contains(' '),
    ensures
        !contains_text(a + space() + b, p),
{
    let x = a + space() + b;
    if contains_text(x, p) {
        let i = choose|i: int| stands_at(x, p, i);
        let q = x.subrange(i, i + p.len());
        if i + p.len() <= a.len() {
            assert(a.subrange(i, i + p.len()) =~= q);
            assert(stands_at(a, p, i));
        } else if i > a.len() {
            let k = i - a.len() - 1;
            assert(b.subrange(k, k + p.len()) =~= q);
            assert(stands_at(b, p, k));
        } else {
            assert(q[a.len() - i] == ' ');
            assert(p[a.len() - i] == ' ');
        }
    }
}

/// What has no space in it and does not stand in any of the parts does not
/// stand in the parts joined by spaces.
pub proof fn lemma_lacks_join(ws: Seq<Seq<char>>, p: Seq<char>)
    requires
        forall|i: int| 0 <= i < ws.len() ==> !contains_text(#[trigger] ws[i], p),
        !p.contains(' '),
        p.len() > 0,
    ensures
        !contains_text(join(ws, space()), p),
    decreases ws.len(),
{
    if ws.len() == 0 {
        assert(forall|i: int| !stands_at(join(ws, space()), p, i));
    } else if ws.len() == 1 {
        assert(!contains_text(ws[0], p));
    } else {
        let front = ws.drop_last();
        assert forall|i: int| 0 <= i < front.len() implies !contains_text(#[trigger] front[i], p) by {
            assert(!contains_text(ws[i], p));
        }
        lemma_lacks_join(front, p);
        assert(!contains_text(ws[ws.len() - 1], p));
        lemma_lacks_split(join(front, space()), ws.last(), p);
    }
}

/// Collapsing brings in nothing that has no space in it.
pub proof fn lemma_lacks_collapse(s: Seq<char>, p: Seq<char>)
    requires
        !contains_text(s, p),
        !p.contains(' '),
        p.len() > 0,
    ensures
        !contains_text(collapse(s), p),
{
    lemma_words_lack(s, p);
    lemma_lacks_join(words(s), p);
}

/// The words of `s`, in order.
pub fn split_words(s: &str) -> (r: Vec<String>)
    ensures
        texts(r@) == words(s@),
{
    let v = chars_of(s);
    let mut r: Vec<String> = Vec::new();
    let mut i: usize = 0;
    let mut done: bool = false;
    while !done
        invariant
            i <= v.len(),
            v@ == s@,
            texts(r@) + (if done { Seq::empty() } else { words_from(v@, i as int) }) == words(v@),
        decreases v.len() - i + (if done { 0int } else { 1int }),
    {
        let ghost start = i;
        while i < v.len() && is_white(v[i])
            invariant
                start <= i <= v.len(),
                skip_white(v@, start as int) == skip_white(v@, i as int),
            decreases v.len() - i,
        {
            i = i + 1;
        }
        if i == v.len() {
            done = true;
            assert(words_from(v@, start as int) =~= Seq::<Seq<char>>::empty());
        } else {
            let b = i;
            while i < v.len() && !is_white(v[i])
                invariant
                    b <= i <= v.len(),
                    b < v.len(),
                    i == b ==> !white(v@[b as int]),
                    skip_word(v@, b as int) == skip_word(v@, i as int),
                decreases v.len() - i,
            {
                i = i + 1;
            }
            let ghost before = texts(r@);
            let w = string_of(&v, b, i);
            r.push(w);
            proof {
                assert(texts(r@) =~= before.push(v@.subrange(b as int, i as int)));
                assert(words_from(v@, start as int) == seq![v@.subrange(b as int, i as int)]
                    + words_from(v@, i as int));
                assert(texts(r@) + words_from(v@, i as int) =~= before + words_from(
                    v@,
                    start as int,
                ));
            }
        }
    }
    assert(texts(r@) =~= words(s@));
    r
}

/// Computes [`collapse`].
pub fn collapse_spaces(value: &str) -> (r: String)
    ensures
        r@ == collapse(value@),
{
    let ws = split_words(value);
    let r = join_strings(&ws, " ");
    proof {
        reveal_strlit(" ");
        assert(" "@ =~= space());
    }
    r
}

} // verus!
