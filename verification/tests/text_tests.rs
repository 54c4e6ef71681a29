use mailwind::number::{decimal_int_text, decimal_text, parse_i64, parse_u32};
use mailwind::text::{
    after_prefix, cat3, char_utf8_width, chars_of, find_one, find_text, has_prefix, is_blank,
    is_white, join_strings, rfind_one, same, same_ignoring_case, to_lower, trimmed,
};
use mailwind::words::{collapse_spaces, split_words};

fn every_char() -> impl Iterator<Item = char> {
    (0u32..0x110000).filter_map(char::from_u32)
}

#[test]
fn white_characters_are_those_of_unicode() {
    for c in every_char() {
        assert_eq!(is_white(c), c.is_whitespace(), "{c:?}");
    }
}

#[test]
fn utf8_widths_are_those_of_std() {
    for c in every_char() {
        assert_eq!(char_utf8_width(c), c.len_utf8(), "{c:?}");
    }
}

#[test]
fn only_ascii_letters_are_lowered() {
    let all: String = every_char().collect();
    assert_eq!(to_lower(&all), all.to_ascii_lowercase());
}

#[test]
fn numbers_are_read_as_std_reads_them() {
    for s in [
        "", "0", "7", "+7", "-7", "+", "-", "-0", "007", "4294967295", "4294967296", "99999999999",
        "1 ", " 1", "1x", "x", "++1", "\u{0661}", "9223372036854775807", "9223372036854775808",
        "-9223372036854775808", "-9223372036854775809", "1_000",
    ] {
        assert_eq!(parse_u32(s), s.parse::<u32>().ok(), "{s:?}");
        assert_eq!(parse_i64(s), s.parse::<i64>().ok(), "{s:?}");
    }
}

#[test]
fn numbers_are_written_as_std_writes_them() {
    for n in [0u64, 1, 9, 10, 12, 99, 100, 4294967295, u64::MAX] {
        assert_eq!(decimal_text(n), n.to_string());
    }
    for n in [0i64, -1, 1, -10, i64::MIN, i64::MAX] {
        assert_eq!(decimal_int_text(n), n.to_string());
    }
}

#[test]
fn trimming_takes_white_space_from_both_ends() {
    for s in ["", " ", " a ", "\u{a0}a b\u{3000}", "\t\n", "a", "\u{200b}a"] {
        assert_eq!(trimmed(s), s.trim(), "{s:?}");
        assert_eq!(is_blank(s), s.trim().is_empty(), "{s:?}");
    }
}

#[test]
fn words_are_split_at_white_space() {
    let s = "  one\u{a0}two\r\n\tthree  ";
    assert_eq!(split_words(s), vec!["one", "two", "three"]);
    assert_eq!(collapse_spaces(s), "one two three");
    assert_eq!(collapse_spaces(&collapse_spaces(s)), "one two three");
    assert_eq!(collapse_spaces(" \n "), "");
}

#[test]
fn places_in_texts_are_found() {
    let v = chars_of("a:b:cd");
    assert_eq!(find_one(&v, ':', 0), Some(1));
    assert_eq!(find_one(&v, ':', 2), Some(3));
    assert_eq!(find_one(&v, 'x', 0), None);
    assert_eq!(rfind_one(&v, ':'), Some(3));
    assert_eq!(rfind_one(&v, 'x'), None);
    assert_eq!(find_text(&v, &chars_of("cd"), 0), Some(4));
    assert_eq!(find_text(&v, &chars_of("cde"), 0), None);
}

#[test]
fn texts_are_compared() {
    assert!(same("\u{e9}t\u{e9}", "\u{e9}t\u{e9}"));
    assert!(!same("ete", "\u{e9}t\u{e9}"));
    assert!(!same("a", "ab"));
    assert!(same_ignoring_case("Text/HTML", "text/html"));
    assert!(!same_ignoring_case("\u{c9}", "\u{e9}"));
    assert!(has_prefix("imap-uid:x", "imap-uid:"));
    assert!(!has_prefix("imap", "imap-uid:"));
    assert_eq!(after_prefix("local-sent:<a>", "local-sent:"), Some("<a>".to_string()));
    assert_eq!(after_prefix("x", "local-sent:"), None);
}

#[test]
fn texts_are_put_together() {
    assert_eq!(cat3("a", "", "c"), "ac");
    assert_eq!(join_strings(&vec![], ", "), "");
    assert_eq!(join_strings(&vec!["a".to_string(), "b".to_string()], ", "), "a, b");
}
