use mailwind::header::{clean_header_value, normalize_subject_key, replace_case_insensitive};

#[test]
fn patterns_are_replaced_whatever_their_case() {
    assert_eq!(replace_case_insensitive("aXxXb", "xX", "-"), "a-Xb");
    assert_eq!(replace_case_insensitive("\u{e9}ABC\u{e9}abc", "abc", ""), "\u{e9}\u{e9}");
    assert_eq!(replace_case_insensitive("none", "abc", "-"), "none");
    assert_eq!(replace_case_insensitive("", "abc", "-"), "");
}

#[test]
fn header_values_are_cleaned() {
    assert_eq!(clean_header_value("  Hello\r\n\tWorld  "), "Hello World");
    assert_eq!(clean_header_value("=?UTF-8?Q?Hello?="), "Hello");
    assert_eq!(clean_header_value("=?utf-8?b?SGk=?= there"), "SGk= there");
    assert_eq!(clean_header_value("a?==?UTF-8?q?b?="), "a b");
    assert_eq!(clean_header_value("a?==?b"), "a b");
    assert_eq!(clean_header_value("?="), "");
}

#[test]
fn cleaning_twice_is_cleaning_once() {
    for s in ["", " a  b ", "=?utf-8?q?x?=", "?=?=?=", "=?utf-8?=?utf-8?q?q?", "?==?utf-8?b?"] {
        let once = clean_header_value(s);
        assert_eq!(clean_header_value(&once), once, "{s:?}");
    }
}

#[test]
fn subject_keys_lack_prefixes() {
    assert_eq!(normalize_subject_key("Re: Hello"), "hello");
    assert_eq!(normalize_subject_key("RE:FW: fwd:  Hello   World"), "hello world");
    assert_eq!(normalize_subject_key("Regarding: x"), "regarding: x");
    assert_eq!(normalize_subject_key("re:"), "");
    assert_eq!(normalize_subject_key(""), "");
    assert_eq!(normalize_subject_key("\u{c9}t\u{e9}"), "\u{c9}t\u{e9}");
}

#[test]
fn replies_and_forwards_keep_the_subject_key() {
    for s in ["Hello", "Re: Hello", "=?utf-8?q?Hello?=", "a  b", ""] {
        let key = normalize_subject_key(s);
        for prefix in ["Re: ", "re:", "FW: ", "Fwd: "] {
            assert_eq!(normalize_subject_key(&format!("{prefix}{s}")), key, "{prefix:?} {s:?}");
        }
        assert_eq!(normalize_subject_key(&key), key);
    }
}
