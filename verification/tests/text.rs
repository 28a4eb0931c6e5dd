use squelch::text::{str_concat, is_blank, str_contains, str_equal, trim, u32_decimal};

#[test]
fn trim_matches_std() {
    for s in ["", "  ", " a ", "\t\nx y\r\n", "\u{3000}wide\u{a0}", "plain", "\u{85}z"] {
        assert_eq!(trim(s), s.trim(), "{s:?}");
        assert_eq!(is_blank(s), s.trim().is_empty());
    }
}

#[test]
fn contains_and_equal() {
    assert!(str_contains("Logging in to Matrix…", "Logging"));
    assert!(!str_contains("Logged in", "Logging"));
    assert!(str_contains("abc", ""));
    assert!(!str_contains("ab", "abc"));
    assert!(str_equal("é", "é"));
    assert!(!str_equal("a", "b"));
    assert_eq!(str_concat("ab", "cd"), "abcd");
}

#[test]
fn decimal_text() {
    for n in [0u32, 7, 10, 99, 100, 4294967295, 1234567] {
        assert_eq!(u32_decimal(n), n.to_string());
    }
}
