use goose::text::{chars_of, contains, decimal_digits_of, is_blank, is_whitespace, join_lines, push_decimal_i64, push_decimal_u64};

#[test]
fn whitespace_follows_char_is_whitespace() {
    for c in ['\t', '\n', '\u{0B}', '\u{0C}', '\r', ' ', '\u{85}', '\u{A0}', '\u{1680}', '\u{2000}', '\u{200A}', '\u{2028}', '\u{2029}', '\u{202F}', '\u{205F}', '\u{3000}'] {
        assert!(is_whitespace(c), "{c:?}");
        assert_eq!(is_whitespace(c), c.is_whitespace());
    }
    for c in ['a', '\u{200B}', '\u{FEFF}', '0', '\u{0}', '\u{1F600}'] {
        assert!(!is_whitespace(c), "{c:?}");
        assert_eq!(is_whitespace(c), c.is_whitespace());
    }
}

#[test]
fn blank_means_nothing_after_trim() {
    for s in ["", " ", "\t\n", "\u{3000}\u{2003}", "a", " a ", "\u{200B}"] {
        assert_eq!(is_blank(s), s.trim().is_empty(), "{s:?}");
    }
}

#[test]
fn decimals_render_as_display_does() {
    for n in [0u64, 7, 10, 99, 100, 12345, u64::MAX] {
        let mut s = String::new();
        push_decimal_u64(&mut s, n);
        assert_eq!(s, n.to_string());
        assert_eq!(decimal_digits_of(n).into_iter().collect::<String>(), n.to_string());
    }
    for n in [0i64, -1, -10, 42, i64::MIN, i64::MAX] {
        let mut s = String::from("x");
        push_decimal_i64(&mut s, n);
        assert_eq!(s, format!("x{n}"));
    }
}

#[test]
fn joins_and_searches() {
    let lines = vec!["a".to_string(), String::new(), "b".to_string()];
    assert_eq!(join_lines(&lines, "\n"), "a\n\nb");
    assert_eq!(join_lines(&vec![], "\n"), "");
    assert!(contains("abcabd", "abd"));
    assert!(contains("abc", ""));
    assert!(!contains("ab", "abc"));
    assert!(!contains("aXb", "ab"));
    assert_eq!(chars_of("hé"), vec!['h', 'é']);
}

