use mailwind::search::{
    fts_escape_word, fts_query_value, parse_search_terms, push_search_word, SearchTerm,
};

fn shown(query: &str) -> Vec<String> {
    parse_search_terms(query)
        .into_iter()
        .map(|term| match term {
            SearchTerm::Word(s) => format!("w:{s}"),
            SearchTerm::Phrase(s) => format!("p:{s}"),
        })
        .collect()
}

#[test]
fn queries_are_split_into_terms() {
    assert_eq!(shown("hello world"), vec!["w:hello", "w:world"]);
    assert_eq!(shown("a.b-c_d"), vec!["w:a", "w:b", "w:c_d"]);
    assert_eq!(shown("x \"two  words\" y"), vec!["w:x", "p:two words", "w:y"]);
    assert_eq!(shown("ab\"c\"de"), vec!["w:ab", "p:c", "w:de"]);
    assert_eq!(shown("\" \""), Vec::<String>::new());
    assert_eq!(shown(" \t"), Vec::<String>::new());
    assert_eq!(shown("\u{e9}t\u{e9} \u{4e2d}\u{6587}!"), vec!["w:\u{e9}t\u{e9}", "w:\u{4e2d}\u{6587}"]);
}

#[test]
fn an_open_phrase_is_a_word() {
    assert_eq!(shown("a \"b c"), vec!["w:a", "w:b c"]);
}

#[test]
fn words_are_those_of_unicode() {
    for n in 0u32..0x110000 {
        if let Some(c) = char::from_u32(n) {
            let expected = if c.is_alphanumeric() || c == '_' { c.to_string() } else { String::new() };
            assert_eq!(fts_escape_word(&c.to_string()), expected, "{c:?}");
        }
    }
}

#[test]
fn blank_words_are_dropped() {
    let mut terms = Vec::new();
    let mut current = "  ".to_string();
    push_search_word(&mut terms, &mut current);
    assert!(terms.is_empty());
    assert_eq!(current, "");
    current.push_str(" a ");
    push_search_word(&mut terms, &mut current);
    assert!(matches!(&terms[..], [SearchTerm::Word(s)] if s == "a"));
    assert_eq!(current, "");
}

#[test]
fn terms_become_a_match_expression() {
    assert_eq!(fts_query_value("hello \"big  world\""), Some("hello* AND \"big world\"".to_string()));
    assert_eq!(fts_query_value("\"a b"), Some("ab*".to_string()));
    assert_eq!(fts_query_value("  "), None);
    assert_eq!(fts_query_value("!!"), None);
}

#[test]
fn a_blank_search_finds_no_terms() {
    for query in ["", " ", "\u{a0}", "\u{2003}\u{3000}", "\t\u{85}\n\u{2028}"] {
        assert_eq!(shown(query), Vec::<String>::new());
        assert_eq!(fts_query_value(query), None);
    }
    assert_eq!(shown("a\u{a0}b"), vec!["w:a", "w:b"]);
}

#[test]
fn white_space_is_no_part_of_a_word() {
    for n in 0u32..0x110000 {
        if let Some(c) = char::from_u32(n) {
            assert!(!(c.is_whitespace() && c.is_alphanumeric()), "{c:?}");
        }
    }
}
