use line_bridge::text::{
    decimal_of, starts_with, trim, trim_end_matches, trim_start_matches, white_space,
};

#[test]
fn white_space_is_that_of_unicode() {
    for c in '\0'..=char::MAX {
        assert_eq!(white_space(c), c.is_whitespace(), "{:?}", c);
    }
}

#[test]
fn trimming_agrees_with_std() {
    for s in ["", " ", "a", " a ", "\u{3000}a b\u{a0}\n", "\u{200b}a\u{200b}", "\r\n\tx"] {
        assert_eq!(trim(s), s.trim());
    }
    for s in ["", "/", "a", "a/", "a//", "/a", "a/b/"] {
        assert_eq!(trim_end_matches(s, '/'), s.trim_end_matches('/'));
    }
    for s in ["", "ab", "abab", "ababa", "xab", "a"] {
        assert_eq!(trim_start_matches(s, "ab"), s.trim_start_matches("ab"));
        assert_eq!(starts_with(s, "ab"), s.starts_with("ab"));
    }
    assert_eq!(trim(&trim("  a  ")), "a");
}

#[test]
fn decimal_agrees_with_std() {
    for n in [0u64, 7, 9, 10, 30, 99, 100, 1_234_567_890, u64::MAX] {
        assert_eq!(decimal_of(n), n.to_string());
    }
}
