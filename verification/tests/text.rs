use vnc_bridge::text::{
    contains_char, decimal_text, is_white_space, starts_with_char, trim, trim_trailing,
};

#[test]
fn white_space_agrees_with_char_on_all_characters() {
    for code in 0..=0x10ffffu32 {
        if let Some(c) = char::from_u32(code) {
            assert_eq!(is_white_space(c), c.is_whitespace());
        }
    }
}

#[test]
fn trims_both_ends() {
    for s in ["", " ", " a ", "\u{3000}\u{e9} b\n", "ab", "\t\r\n"] {
        assert_eq!(trim(s), s.trim());
        assert_eq!(trim(trim(s)), trim(s));
    }
}

#[test]
fn trims_a_trailing_run() {
    for s in ["", "/", "http://a//", "a/b", "///"] {
        assert_eq!(trim_trailing(s, '/'), s.trim_end_matches('/'));
    }
}

#[test]
fn finds_characters() {
    assert!(contains_char("a?b", '?'));
    assert!(!contains_char("", '?'));
    assert!(!contains_char("ab", '?'));
    assert!(starts_with_char("{x", '{'));
    assert!(!starts_with_char("", '{'));
    assert!(!starts_with_char(" {", '{'));
}

#[test]
fn writes_decimals() {
    for n in [0u64, 7, 10, 99, 100, 1700000000, u64::MAX] {
        assert_eq!(decimal_text(n), n.to_string());
        assert_eq!(decimal_text(n).parse::<u64>().unwrap(), n);
    }
}
