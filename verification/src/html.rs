//! The readable text of an HTML body, and the snippet shown for a message.
use vstd::prelude::*;
use vstd::string::*;

use crate::header::lemma_lower_parts;
use crate::text::{
    cat3, char_utf8_width, chars_of, contains_text, find_char, find_from, find_one, find_text,
    lemma_find_char, lemma_find_char_unique, lemma_find_from, lower, lower_chars, same, same_ignoring_case, stands_at,
    string_of, utf8_width,
};
use crate::words::{collapse, collapse_spaces, lemma_lacks_part, lemma_lacks_split, space};

verus! {

// ---------------------------------------------------------------------------
// Dropping whole blocks
// ---------------------------------------------------------------------------
/// How a block with the tag `tag` starts.
pub open spec fn block_start(tag: Seq<char>) -> Seq<char> {
    "<"@ + tag
}

/// How a block with the tag `tag` ends.
pub open spec fn block_end(tag: Seq<char>) -> Seq<char> {
    "</"@ + tag + ">"@
}

/// `s` with the stretch from `a` up to `b` replaced by a space.
pub open spec fn cut(s: Seq<char>, a: int, b: int) -> Seq<char> {
    s.take(a) + space() + s.skip(b)
}

/// Where the block that starts at `a` ends: behind its closing tag, behind the
/// next `>` where it has none, or nowhere.
pub open spec fn block_stop(s: Seq<char>, tag: Seq<char>, a: int) -> Option<int> {
    match find_from(lower(s), block_end(tag), a) {
        Some(e) => Some(e + block_end(tag).len()),
        None => match find_char(lower(s), '>', a) {
            Some(e) => Some(e + 1),
            None => None,
        },
    }
}

/// `s` with every block with the tag `tag` replaced by a space. The tag is
/// looked for in the text in lower case.
pub open spec fn without_blocks(s: Seq<char>, tag: Seq<char>) -> Seq<char>
    decreases s.len(),
{
    proof {
        lemma_block(s, tag);
    }
    match find_from(lower(s), block_start(tag), 0) {
        None => s,
        Some(a) => match block_stop(s, tag, a) {
            Some(b) => without_blocks(cut(s, a, b), tag),
            None => s.take(a) + space(),
        },
    }
}

/// [`without_blocks`] for each of the first `n` tags in turn.
pub open spec fn without_all_blocks(s: Seq<char>, tags: Seq<Seq<char>>, n: nat) -> Seq<char>
    decreases n,
{
    if n == 0 {
        s
    } else {
        without_blocks(without_all_blocks(s, tags, (n - 1) as nat), tags[n - 1])
    }
}

/// Where a block starts and stops in a text.
pub proof fn lemma_block(s: Seq<char>, tag: Seq<char>)
    ensures
        find_from(lower(s), block_start(tag), 0) matches Some(a) ==> {
            &&& 0 <= a < s.len()
            &&& forall|j: int| 0 <= j < a ==> !stands_at(lower(s), block_start(tag), j)
            &&& block_stop(s, tag, a) matches Some(b) ==> a + 2 <= b <= s.len() && cut(
                s,
                a,
                b,
            ).len() < s.len()
        },
        find_from(lower(s), block_start(tag), 0) is None ==> !contains_text(
            lower(s),
            block_start(tag),
        ),
{
    reveal_strlit("<");
    reveal_strlit("</");
    reveal_strlit(">");
    let l = lower(s);
    lemma_find_from(l, block_start(tag), 0);
    match find_from(l, block_start(tag), 0) {
        Some(a) => {
            lemma_find_from(l, block_end(tag), a);
            lemma_find_char(l, '>', a);
            assert(l.subrange(a, a + block_start(tag).len())[0] == '<');
            assert(l[a] == '<');
            match find_from(l, block_end(tag), a) {
                Some(e) => {
                    assert(block_end(tag).len() >= 3);
                },
                None => {},
            }
        },
        None => {
            if contains_text(l, block_start(tag)) {
                let k = choose|k: int| stands_at(l, block_start(tag), k);
                assert(!stands_at(l, block_start(tag), k));
            }
        },
    }
}

/// The texts that a list of string slices holds.
pub open spec fn slice_texts(tags: Seq<&str>) -> Seq<Seq<char>> {
    Seq::new(tags.len(), |i: int| tags[i]@)
}

/// Replaces every block with one of the tags by a space.
pub fn remove_html_blocks(value: &str, tags: &[&str]) -> (r: String)
    ensures
        r@ == without_all_blocks(value@, slice_texts(tags@), tags@.len()),
{
    let mut output = value.to_owned();
    let mut i: usize = 0;
    while i < tags.len()
        invariant
            i <= tags.len(),
            output@ == without_all_blocks(value@, slice_texts(tags@), i as nat),
        decreases tags.len() - i,
    {
        output = remove_blocks(output.as_str(), tags[i]);
        i = i + 1;
    }
    output
}

/// Computes [`without_blocks`].
fn remove_blocks(value: &str, tag: &str) -> (r: String)
    ensures
        r@ == without_blocks(value@, tag@),
{
    let mut v = chars_of(value);
    let open = crate::text::cat("<", tag);
    let open = chars_of(open.as_str());
    let close = cat3("</", tag, ">");
    let close = chars_of(close.as_str());
    loop
        invariant
            open@ == block_start(tag@),
            close@ == block_end(tag@),
            without_blocks(v@, tag@) == without_blocks(value@, tag@),
        decreases v.len(),
    {
        let low = lower_chars(&v);
        proof {
            lemma_block(v@, tag@);
        }
        let a = match find_text(&low, &open, 0) {
            Some(a) => a,
            None => {
                return crate::text::string_all(&v);
            },
        };
        let mut next = prefix_chars(&v, a);
        next.push(' ');
        let stop = match find_text(&low, &close, a) {
            Some(e) => Some(e + close.len()),
            None => match find_one(&low, '>', a) {
                Some(e) => Some(e + 1),
                None => None,
            },
        };
        match stop {
            Some(b) => {
                push_chars(&mut next, &v, b);
                assert(next@ =~= cut(v@, a as int, b as int));
                v = next;
            },
            None => {
                assert(next@ =~= v@.take(a as int) + space());
                return crate::text::string_all(&next);
            },
        }
    }
}

/// The first `n` characters of `v`.
fn prefix_chars(v: &Vec<char>, n: usize) -> (r: Vec<char>)
    requires
        n <= v.len(),
    ensures
        r@ == v@.take(n as int),
{
    let mut r: Vec<char> = Vec::new();
    let mut i: usize = 0;
    while i < n
        invariant
            i <= n <= v.len(),
            r@ == v@.take(i as int),
        decreases n - i,
    {
        r.push(v[i]);
        i = i + 1;
    }
    r
}

/// Appends the characters of `v` from `from` on.
fn push_chars(out: &mut Vec<char>, v: &Vec<char>, from: usize)
    requires
        from <= v.len(),
    ensures
        final(out)@ == old(out)@ + v@.skip(from as int),
{
    let ghost before = out@;
    let mut i: usize = from;
    while i < v.len()
        invariant
            from <= i <= v.len(),
            out@ == before + v@.subrange(from as int, i as int),
        decreases v.len() - i,
    {
        out.push(v[i]);
        i = i + 1;
        assert(out@ =~= before + v@.subrange(from as int, i as int));
    }
    assert(v@.subrange(from as int, v.len() as int) =~= v@.skip(from as int));
}

// ---------------------------------------------------------------------------
// Tags and entities
// ---------------------------------------------------------------------------
/// How many bytes of an entity are taken up before it is given up.
pub open spec fn entity_limit() -> nat {
    12
}

/// Where an entity stops of which `w` bytes came before `i`: at its semicolon,
/// where it grows too long, or at the end of the text.
pub open spec fn entity_stop(s: Seq<char>, i: int, w: nat) -> int
    decreases s.len() - i,
{
    if 0 <= i < s.len() && s[i] != ';' && w < entity_limit() {
        entity_stop(s, i + 1, w + utf8_width(s[i]))
    } else {
        i
    }
}

/// The text that an entity stands for; a space for one that is not known.
pub open spec fn entity_text(name: Seq<char>) -> Seq<char> {
    if name == "nbsp"@ {
        " "@
    } else if name == "amp"@ {
        "&"@
    } else if name == "lt"@ {
        "<"@
    } else if name == "gt"@ {
        ">"@
    } else if name == "quot"@ {
        "\""@
    } else if name == "#39"@ || name == "apos"@ {
        "'"@
    } else {
        " "@
    }
}

/// The text between the tags, with a space for each tag and with entities
/// resolved. A tag or an entity that does not end gives nothing; an entity that
/// is too long is dropped, up to the character that made it so.
pub open spec fn plain(s: Seq<char>) -> Seq<char>
    decreases s.len(),
{
    if s.len() == 0 {
        s
    } else if s[0] == '<' {
        match find_char(s, '>', 1) {
            Some(e) => if 0 < e < s.len() {
                space() + plain(s.skip(e + 1))
            } else {
                Seq::empty()
            },
            None => Seq::empty(),
        }
    } else if s[0] == '&' {
        let e = entity_stop(s, 1, 0);
        if e < 1 || e >= s.len() {
            Seq::empty()
        } else if s[e] == ';' {
            entity_text(s.subrange(1, e)) + plain(s.skip(e + 1))
        } else {
            plain(s.skip(e + 1))
        }
    } else {
        seq![s[0]] + plain(s.skip(1))
    }
}

/// The tags whose blocks hold nothing to read.
pub open spec fn dropped_tags() -> Seq<Seq<char>> {
    seq!["script"@, "style"@, "head"@, "title"@]
}

/// The readable text of an HTML body.
pub open spec fn readable(s: Seq<char>) -> Seq<char> {
    plain(without_all_blocks(s, dropped_tags(), 4))
}

/// Computes [`readable`].
pub fn html_to_text(value: &str) -> (r: String)
    ensures
        r@ == readable(value@),
{
    let tags: [&str; 4] = ["script", "style", "head", "title"];
    let cleaned = remove_html_blocks(value, tags.as_slice());
    assert(slice_texts(tags@) =~= dropped_tags());
    strip_tags(cleaned.as_str())
}

/// Computes [`plain`].
fn strip_tags(value: &str) -> (text: String)
    ensures
        text@ == plain(value@),
{
    let v = chars_of(value);
    let mut text = String::new();
    let mut i: usize = 0;
    assert(v@.skip(0) =~= v@);
    while i < v.len()
        invariant
            i <= v.len(),
            v@ == value@,
            text@ + plain(v@.skip(i as int)) == plain(v@),
        decreases v.len() - i,
    {
        let ghost tail = v@.skip(i as int);
        let ghost before = text@;
        let c: char = v[i];
        if c == '<' {
            proof {
                crate::msgid::lemma_find_char_shift(v@, '>', i as int, 1);
            }
            match find_one(&v, '>', i + 1) {
                Some(e) => {
                    text.push(' ');
                    proof {
                        assert(tail.skip(e - i + 1) =~= v@.skip(e + 1));
                        assert(text@ + plain(v@.skip(e + 1)) =~= before + plain(tail));
                    }
                    i = e + 1;
                },
                None => {
                    assert(text@ + plain(tail) =~= text@);
                    return text;
                },
            }
        } else if c == '&' {
            let e = entity_end(&v, i);
            if e == v.len() {
                assert(text@ + plain(tail) =~= text@);
                return text;
            }
            if v[e] == ';' {
                let name = string_of(&v, i + 1, e);
                text.append(resolve_entity(name.as_str()));
                proof {
                    assert(tail.subrange(1, e - i) =~= v@.subrange(i + 1, e as int));
                    assert(tail.skip(e - i + 1) =~= v@.skip(e + 1));
                    assert(text@ + plain(v@.skip(e + 1)) =~= before + plain(tail));
                }
            } else {
                assert(tail.skip(e - i + 1) =~= v@.skip(e + 1));
            }
            i = e + 1;
        } else {
            text.push(c);
            proof {
                assert(tail.skip(1) =~= v@.skip(i + 1));
                assert(text@ + plain(v@.skip(i + 1)) =~= before + plain(tail));
            }
            i = i + 1;
        }
    }
    assert(text@ + plain(v@.skip(i as int)) =~= text@);
    text
}

/// Where the entity that starts at `start` stops.
fn entity_end(v: &Vec<char>, start: usize) -> (e: usize)
    requires
        start < v.len(),
    ensures
        start < e <= v.len(),
        e == start + entity_stop(v@.skip(start as int), 1, 0),
{
    let ghost tail = v@.skip(start as int);
    let mut i: usize = start + 1;
    let mut width: usize = 0;
    while i < v.len() && v[i] != ';' && width < 12
        invariant
            start < i <= v.len(),
            width <= 15,
            tail == v@.skip(start as int),
            entity_stop(tail, 1, 0) == entity_stop(tail, i - start, width as nat),
        decreases v.len() - i,
    {
        assert(tail[i - start] == v@[i as int]);
        width = width + char_utf8_width(v[i]);
        i = i + 1;
    }
    i
}

/// Computes [`entity_text`].
fn resolve_entity(name: &str) -> (r: &'static str)
    ensures
        r@ == entity_text(name@),
{
    if same(name, "nbsp") {
        " "
    } else if same(name, "amp") {
        "&"
    } else if same(name, "lt") {
        "<"
    } else if same(name, "gt") {
        ">"
    } else if same(name, "quot") {
        "\""
    } else if same(name, "#39") || same(name, "apos") {
        "'"
    } else {
        " "
    }
}

// ---------------------------------------------------------------------------
// Snippets
// ---------------------------------------------------------------------------
/// A text cut behind its 180th character.
pub open spec fn first_180(s: Seq<char>) -> Seq<char> {
    if s.len() > 180 {
        s.take(180)
    } else {
        s
    }
}

/// The start of the readable text of a body, on one line.
pub open spec fn snippet(body: Seq<char>, body_mime: Seq<char>) -> Seq<char> {
    let text = if lower(body_mime) == "text/html"@ {
        readable(body)
    } else {
        body
    };
    first_180(collapse(text))
}

/// Computes [`snippet`].
pub fn snippet_for_body(body: &str, body_mime: &str) -> (r: String)
    ensures
        r@ == snippet(body@, body_mime@),
        r@.len() <= 180,
{
    proof {
        reveal_strlit("text/html");
        assert(lower("text/html"@) =~= "text/html"@);
    }
    let text = if same_ignoring_case(body_mime, "text/html") {
        html_to_text(body)
    } else {
        body.to_owned()
    };
    let line = collapse_spaces(text.as_str());
    let v = chars_of(line.as_str());
    let n: usize = if v.len() > 180 {
        180
    } else {
        v.len()
    };
    let r = string_of(&v, 0, n);
    assert(r@ =~= first_180(line@));
    r
}

// ---------------------------------------------------------------------------
// Laws
// ---------------------------------------------------------------------------
/// Cutting a stretch out brings in nothing that has no space in it.
proof fn lemma_cut_lacks(s: Seq<char>, a: int, b: int, p: Seq<char>)
    requires
        0 <= a <= b <= s.len(),
        !contains_text(lower(s), p),
        !p.contains(' '),
    ensures
        !contains_text(lower(cut(s, a, b)), p),
        p.len() > 0 ==> !contains_text(lower(s.take(a) + space()), p),
{
    lemma_lower_parts(s, a);
    lemma_lower_parts(s, b);
    lemma_lacks_part(lower(s), p, 0, a);
    lemma_lacks_part(lower(s), p, b, s.len() as int);
    assert(lower(s).subrange(0, a) =~= lower(s).take(a));
    assert(lower(s).subrange(b, s.len() as int) =~= lower(s).skip(b));
    lemma_lacks_split(lower(s.take(a)), lower(s.skip(b)), p);
    assert(lower(cut(s, a, b)) =~= lower(s.take(a)) + space() + lower(s.skip(b)));
    if p.len() > 0 {
        let none = Seq::<char>::empty();
        assert(!contains_text(none, p));
        lemma_lacks_split(lower(s.take(a)), none, p);
        assert(lower(s.take(a) + space()) =~= lower(s.take(a)) + space() + none);
    }
}

proof fn lemma_blocks_keep_absent(s: Seq<char>, tag: Seq<char>, p: Seq<char>)
    requires
        !contains_text(lower(s), p),
        !p.contains(' '),
        p.len() > 0,
    ensures
        !contains_text(lower(without_blocks(s, tag)), p),
    decreases s.len(),
{
    lemma_block(s, tag);
    match find_from(lower(s), block_start(tag), 0) {
        None => {},
        Some(a) => match block_stop(s, tag, a) {
            Some(b) => {
                lemma_cut_lacks(s, a, b, p);
                lemma_blocks_keep_absent(cut(s, a, b), tag, p);
            },
            None => {
                lemma_cut_lacks(s, a, s.len() as int, p);
            },
        },
    }
}

proof fn lemma_blocks_removed(s: Seq<char>, tag: Seq<char>)
    requires
        !tag.contains(' '),
    ensures
        !contains_text(lower(without_blocks(s, tag)), block_start(tag)),
    decreases s.len(),
{
    reveal_strlit("<");
    lemma_block(s, tag);
    let p = block_start(tag);
    match find_from(lower(s), p, 0) {
        None => {},
        Some(a) => match block_stop(s, tag, a) {
            Some(b) => {
                lemma_blocks_removed(cut(s, a, b), tag);
            },
            None => {
                let head = s.take(a);
                lemma_lower_parts(s, a);
                assert(!contains_text(lower(head), p)) by {
                    if contains_text(lower(head), p) {
                        let k = choose|k: int| stands_at(lower(head), p, k);
                        assert(lower(s).subrange(k, k + p.len()) =~= lower(head).subrange(
                            k,
                            k + p.len(),
                        ));
                        assert(stands_at(lower(s), p, k));
                    }
                }
                assert(!p.contains(' ')) by {
                    if p.contains(' ') {
                        let k = choose|k: int| 0 <= k < p.len() && p[k] == ' ';
                        assert(tag[k - 1] == ' ');
                    }
                }
                lemma_cut_lacks(head, a, a, p);
                assert(head.take(a) =~= head);
            },
        },
    }
}

/// Law: after blocks are removed, none of the tags starts a block any more,
/// in letters of whatever case.
pub proof fn removed_blocks_are_gone(s: Seq<char>, tags: Seq<Seq<char>>, n: nat)
    requires
        n <= tags.len(),
        forall|i: int| 0 <= i < tags.len() ==> !(#[trigger] tags[i]).contains(' '),
    ensures
        forall|i: int|
            0 <= i < n ==> !contains_text(
                lower(without_all_blocks(s, tags, n)),
                block_start(#[trigger] tags[i]),
            ),
    decreases n,
{
    if n > 0 {
        let m = (n - 1) as nat;
        removed_blocks_are_gone(s, tags, m);
        let before = without_all_blocks(s, tags, m);
        assert forall|i: int| 0 <= i < n implies !contains_text(
            lower(without_all_blocks(s, tags, n)),
            block_start(#[trigger] tags[i]),
        ) by {
            if i < m {
                let p = block_start(tags[i]);
                reveal_strlit("<");
                assert(!p.contains(' ')) by {
                    if p.contains(' ') {
                        let k = choose|k: int| 0 <= k < p.len() && p[k] == ' ';
                        assert(tags[i][k - 1] == ' ');
                    }
                }
                lemma_blocks_keep_absent(before, tags[n - 1], p);
            } else {
                lemma_blocks_removed(before, tags[i]);
            }
        }
    }
}

/// Law: text without tags and entities is its own plain text.
pub proof fn plain_text_stays(s: Seq<char>)
    requires
        forall|i: int| 0 <= i < s.len() ==> #[trigger] s[i] != '<' && s[i] != '&',
    ensures
        plain(s) == s,
    decreases s.len(),
{
    if s.len() > 0 {
        let t = s.skip(1);
        assert forall|i: int| 0 <= i < t.len() implies #[trigger] t[i] != '<' && t[i] != '&' by {
            assert(t[i] == s[i + 1]);
        }
        plain_text_stays(t);
        assert(plain(s) =~= s);
    }
}

/// Law: of a text without entities no tag is left.
pub proof fn no_tag_is_left(s: Seq<char>)
    requires
        forall|i: int| 0 <= i < s.len() ==> #[trigger] s[i] != '&',
    ensures
        forall|i: int| 0 <= i < plain(s).len() ==> #[trigger] plain(s)[i] != '<',
    decreases s.len(),
{
    if s.len() > 0 {
        lemma_find_char(s, '>', 1);
        let k: int = if s[0] == '<' {
            match find_char(s, '>', 1) {
                Some(e) => e + 1,
                None => s.len() as int,
            }
        } else {
            1
        };
        let t = s.skip(k);
        assert forall|i: int| 0 <= i < t.len() implies #[trigger] t[i] != '&' by {
            assert(t[i] == s[i + k]);
        }
        no_tag_is_left(t);
        assert forall|i: int| 0 <= i < plain(s).len() implies #[trigger] plain(s)[i] != '<' by {
            assert(s[0] != '&');
            if i > 0 {
                assert(plain(s)[i] == plain(t)[i - 1]);
            }
        }
    }
}

/// Law: the snippet of a message is the start of its readable text on one line: every
/// character of it is the one at that place in the text, and it is as long as the
/// text, but no longer than 180 characters.
pub proof fn snippets_are_the_start_of_the_text(body: Seq<char>, body_mime: Seq<char>)
    ensures
        ({
            let line = if lower(body_mime) == "text/html"@ {
                collapse(readable(body))
            } else {
                collapse(body)
            };
            let shown = snippet(body, body_mime);
            &&& line.len() <= 180 ==> shown.len() == line.len()
            &&& line.len() > 180 ==> shown.len() == 180
            &&& forall|i: int| 0 <= i < shown.len() ==> #[trigger] shown[i] == line[i]
        }),
{
}

/// Law: a text goes on unchanged up to the first tag, the tag becomes a space, and
/// what follows the tag is read in the same way.
pub proof fn tags_become_spaces(before: Seq<char>, tag: Seq<char>, after: Seq<char>)
    requires
        forall|i: int| 0 <= i < before.len() ==> #[trigger] before[i] != '<' && before[i] != '&',
        forall|i: int| 0 <= i < tag.len() ==> #[trigger] tag[i] != '>',
    ensures
        plain(before + (seq!['<'] + tag + seq!['>'] + after)) == before + seq![' '] + plain(after),
    decreases before.len(),
{
    let rest = seq!['<'] + tag + seq!['>'] + after;
    let s = before + rest;
    if before.len() == 0 {
        assert(s =~= rest);
        let e = tag.len() as int + 1;
        assert(s[e] == '>');
        assert forall|j: int| 1 <= j < e implies s[j] != '>' by {
            assert(s[j] == tag[j - 1]);
        }
        lemma_find_char_unique(s, '>', 1, e);
        assert(s.skip(e + 1) =~= after);
        assert(before + seq![' '] + plain(after) =~= space() + plain(after));
    } else {
        tags_become_spaces(before.skip(1), tag, after);
        assert(s[0] == before[0]);
        assert(s.skip(1) =~= before.skip(1) + rest);
        assert(before =~= seq![before[0]] + before.skip(1));
        assert(plain(s) =~= before + seq![' '] + plain(after));
    }
}

proof fn lemma_entity_stop_ascii(s: Seq<char>, i: int, w: nat, e: int)
    requires
        1 <= i <= e < s.len(),
        s[e] == ';',
        forall|j: int| i <= j < e ==> #[trigger] s[j] != ';' && (s[j] as int) < 0x80,
        w + (e - i) < 12,
    ensures
        entity_stop(s, i, w) == e,
    decreases e - i,
{
    if i < e {
        assert(s[i] != ';');
        lemma_entity_stop_ascii(s, i + 1, w + 1, e);
    }
}

/// The names of entities that stand for a character, with that character.
pub open spec fn known_entity(name: Seq<char>, c: char) -> bool {
    ||| name == "nbsp"@ && c == ' '
    ||| name == "amp"@ && c == '&'
    ||| name == "lt"@ && c == '<'
    ||| name == "gt"@ && c == '>'
    ||| name == "quot"@ && c == '"'
    ||| name == "apos"@ && c == '\''
    ||| name == "#39"@ && c == '\''
}

/// Law: a text goes on unchanged up to the first entity, the entity becomes the
/// character that it stands for, and what follows it is read in the same way.
pub proof fn entities_are_resolved(before: Seq<char>, name: Seq<char>, c: char, after: Seq<char>)
    requires
        forall|i: int| 0 <= i < before.len() ==> #[trigger] before[i] != '<' && before[i] != '&',
        known_entity(name, c),
    ensures
        plain(before + (seq!['&'] + name + seq![';'] + after)) == before + seq![c] + plain(after),
    decreases before.len(),
{
    let rest = seq!['&'] + name + seq![';'] + after;
    let s = before + rest;
    if before.len() == 0 {
        reveal_strlit("nbsp");
        reveal_strlit("amp");
        reveal_strlit("lt");
        reveal_strlit("gt");
        reveal_strlit("quot");
        reveal_strlit("apos");
        reveal_strlit("#39");
        reveal_strlit(" ");
        reveal_strlit("&");
        reveal_strlit("<");
        reveal_strlit(">");
        reveal_strlit("\"");
        reveal_strlit("'");
        assert(s =~= rest);
        let e = name.len() as int + 1;
        assert(2 <= name.len() <= 4);
        assert(s[e] == ';');
        assert forall|j: int| 1 <= j < e implies #[trigger] s[j] != ';' && (s[j] as int) < 0x80 by {
            assert(s[j] == name[j - 1]);
            assert(j == 1 || j == 2 || j == 3 || j == 4);
        }
        lemma_entity_stop_ascii(s, 1, 0, e);
        assert(s.subrange(1, e as int) =~= name);
        assert(s.skip(e + 1) =~= after);
        lemma_entity_text(name, c);
        assert(before + seq![c] + plain(after) =~= seq![c] + plain(after));
    } else {
        entities_are_resolved(before.skip(1), name, c, after);
        assert(s[0] == before[0]);
        assert(s.skip(1) =~= before.skip(1) + rest);
        assert(before =~= seq![before[0]] + before.skip(1));
        assert(plain(s) =~= before + seq![c] + plain(after));
    }
}

proof fn lemma_entity_text(name: Seq<char>, c: char)
    requires
        known_entity(name, c),
    ensures
        entity_text(name) == seq![c],
{
    reveal_strlit("nbsp");
    reveal_strlit("amp");
    reveal_strlit("lt");
    reveal_strlit("gt");
    reveal_strlit("quot");
    reveal_strlit("apos");
    reveal_strlit("#39");
    reveal_strlit(" ");
    reveal_strlit("&");
    reveal_strlit("<");
    reveal_strlit(">");
    reveal_strlit("\"");
    reveal_strlit("'");
    assert("nbsp"@[0] == 'n' && "amp"@[0] == 'a' && "lt"@[0] == 'l' && "gt"@[0] == 'g');
    assert("quot"@[0] == 'q' && "apos"@[0] == 'a' && "apos"@[1] == 'p' && "#39"@[0] == '#');
    assert("amp"@[1] == 'm');
    assert(entity_text(name) =~= seq![c]);
}

/// Law: what stands in a script, in a style sheet, in a head or in a title is not
/// read: none of them starts in what is read.
pub proof fn hidden_blocks_are_dropped(s: Seq<char>)
    ensures
        !contains_text(lower(without_all_blocks(s, dropped_tags(), 4)), "<"@ + "script"@),
        !contains_text(lower(without_all_blocks(s, dropped_tags(), 4)), "<"@ + "style"@),
        !contains_text(lower(without_all_blocks(s, dropped_tags(), 4)), "<"@ + "head"@),
        !contains_text(lower(without_all_blocks(s, dropped_tags(), 4)), "<"@ + "title"@),
        readable(s) == plain(without_all_blocks(s, dropped_tags(), 4)),
{
    reveal_strlit("script");
    reveal_strlit("style");
    reveal_strlit("head");
    reveal_strlit("title");
    let tags = dropped_tags();
    assert(tags[0] == "script"@);
    assert(tags[1] == "style"@);
    assert(tags[2] == "head"@);
    assert(tags[3] == "title"@);
    assert forall|i: int| 0 <= i < tags.len() implies !(#[trigger] tags[i]).contains(' ') by {
        assert(i == 0 || i == 1 || i == 2 || i == 3);
    }
    removed_blocks_are_gone(s, tags, 4);
    assert(!contains_text(lower(without_all_blocks(s, tags, 4)), block_start(tags[0])));
    assert(!contains_text(lower(without_all_blocks(s, tags, 4)), block_start(tags[1])));
    assert(!contains_text(lower(without_all_blocks(s, tags, 4)), block_start(tags[2])));
    assert(!contains_text(lower(without_all_blocks(s, tags, 4)), block_start(tags[3])));
}

/// Law: a text without a block stays as it is. Of any other the first block goes, from
/// its start to behind its closing tag, with a space in its place, and the rest stays
/// to be looked through.
pub proof fn only_blocks_are_dropped(s: Seq<char>, tag: Seq<char>, a: int, e: int)
    requires
        stands_at(lower(s), "<"@ + tag, a),
        forall|j: int| 0 <= j < a ==> !stands_at(lower(s), "<"@ + tag, j),
        a <= e,
        stands_at(lower(s), "</"@ + tag + ">"@, e),
        forall|j: int| a <= j < e ==> !stands_at(lower(s), "</"@ + tag + ">"@, j),
    ensures
        without_blocks(s, tag) == without_blocks(
            s.take(a) + seq![' '] + s.skip(e + tag.len() + 3),
            tag,
        ),
{
    reveal_strlit("<");
    reveal_strlit("</");
    reveal_strlit(">");
    crate::text::lemma_find_from_unique(lower(s), block_start(tag), 0, a);
    crate::text::lemma_find_from_unique(lower(s), block_end(tag), a, e);
    assert(cut(s, a, e + block_end(tag).len()) == s.take(a) + seq![' '] + s.skip(
        e + tag.len() + 3,
    ));
}

/// Law: a text without tags and entities is read as it is.
pub proof fn text_is_read_as_it_is(s: Seq<char>)
    requires
        forall|i: int| 0 <= i < s.len() ==> #[trigger] s[i] != '<' && s[i] != '&',
    ensures
        readable(s) == s,
{
    lemma_no_block(s, dropped_tags(), 4);
    plain_text_stays(s);
}

proof fn lemma_no_block(s: Seq<char>, tags: Seq<Seq<char>>, n: nat)
    requires
        n <= tags.len(),
        forall|i: int| 0 <= i < s.len() ==> #[trigger] s[i] != '<' && s[i] != '&',
    ensures
        without_all_blocks(s, tags, n) == s,
    decreases n,
{
    if n > 0 {
        lemma_no_block(s, tags, (n - 1) as nat);
        let p = block_start(tags[n - 1]);
        reveal_strlit("<");
        lemma_find_from(lower(s), p, 0);
        if let Some(a) = find_from(lower(s), p, 0) {
            assert(p[0] == '<');
            assert(lower(s).subrange(a, a + p.len())[0] == lower(s)[a]);
            assert(lower(s)[a] == crate::text::lower_char(s[a]));
            assert(s[a] != '<');
        }
    }
}

} // verus!
