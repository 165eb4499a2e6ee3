use async_chat::text::{decimal_string, is_whitespace, join_from, split_words, trimmed};

#[test]
fn whitespace_matches_std() {
    for c in ['\t', '\n', '\u{b}', '\u{c}', '\r', ' ', '\u{85}', '\u{a0}', '\u{1680}', '\u{2000}',
        '\u{200a}', '\u{2028}', '\u{2029}', '\u{202f}', '\u{205f}', '\u{3000}', 'a', '-', '\u{200b}',
        '\u{180e}', '0']
    {
        assert_eq!(is_whitespace(c), c.is_whitespace(), "{:?}", c);
    }
}

#[test]
fn split_words_like_split_whitespace() {
    for s in ["", "  ", "a", " a  b\tc\n", "x\u{3000}y", "über  straße "] {
        let expected: Vec<String> = s.split_whitespace().map(|w| w.to_string()).collect();
        assert_eq!(split_words(s), expected);
    }
}

#[test]
fn trimmed_like_trim() {
    for s in ["", "  ", " a b ", "\u{a0}x\u{2029}", "plain"] {
        assert_eq!(trimmed(s), s.trim());
    }
}

#[test]
fn join_from_index() {
    let ws = vec!["a".to_string(), "bb".to_string(), "c".to_string()];
    assert_eq!(join_from(&ws, 0), "a bb c");
    assert_eq!(join_from(&ws, 2), "c");
    assert_eq!(join_from(&ws, 3), "");
}

#[test]
fn decimal_strings() {
    assert_eq!(decimal_string(0), "0");
    assert_eq!(decimal_string(7), "7");
    assert_eq!(decimal_string(10), "10");
    assert_eq!(decimal_string(1234567890), "1234567890");
    assert_eq!(decimal_string(u64::MAX), u64::MAX.to_string());
}
