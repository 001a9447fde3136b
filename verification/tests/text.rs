use greader_sync::number::{from_hex, to_decimal, to_signed_decimal};
use greader_sync::text::{
    after_first, before, contains, ends_with, eq_ignore_ascii_case, find, is_blank, join, same,
    starts_with, strip_prefix, tail_after, trim, trim_end_matches, white,
};

#[test]
fn white_space_is_that_of_the_standard_library() {
    for code in 0..=0x10ffffu32 {
        if let Some(c) = char::from_u32(code) {
            assert_eq!(white(c), c.is_whitespace(), "U+{code:04X}");
        }
    }
}

#[test]
fn texts_are_trimmed() {
    for s in ["", " ", " a ", "a b", "\u{3000}ü\u{a0}", "\u{200b}x\u{200b}", "\r\n"] {
        assert_eq!(trim(s), s.trim());
        assert_eq!(is_blank(s), s.trim().is_empty());
    }
    for s in ["", "a//b//", "///", "a/ ", "/a"] {
        assert_eq!(trim_end_matches(s, '/'), s.trim_end_matches('/'));
    }
}

#[test]
fn parts_are_found() {
    assert_eq!(find("aXbXc", "X"), Some(1));
    assert_eq!(find("abc", ""), Some(0));
    assert_eq!(find("", "a"), None);
    assert_eq!(find("üa", "a"), Some(1));
    assert!(contains("abc", "bc") && !contains("abc", "cb"));
    assert!(starts_with("abc", "ab") && !starts_with("a", "ab"));
    assert!(ends_with("abc", "bc") && ends_with("abc", "") && !ends_with("c", "bc"));
    assert_eq!(strip_prefix("Auth=x", "Auth="), Some("x"));
    assert_eq!(strip_prefix("auth=x", "Auth="), None);
    assert_eq!(after_first("a/label/b/label/c", "/label/"), Some("b/label/c"));
    assert_eq!(after_first("abc", "/label/"), None);
    assert_eq!(tail_after("a/b/c", '/'), "c");
    assert_eq!(tail_after("abc", '/'), "abc");
    assert_eq!(join("ab", "c"), "abc");
}

#[test]
fn texts_are_compared() {
    assert!(same("ü", "ü") && !same("a", "A") && !same("a", "ab"));
    assert!(eq_ignore_ascii_case("FOLDER", "folder"));
    assert!(!eq_ignore_ascii_case("Ü", "ü"));
    assert!(!eq_ignore_ascii_case("[", "{"));
    let words = ["", "a", "ab", "b", "read", "starred", "Z", "\u{ffff}", "\u{10000}"];
    for a in words {
        for b in words {
            assert_eq!(before(a, b), a < b, "{a} {b}");
        }
    }
}

#[test]
fn numbers_are_written_and_read() {
    for n in [0u64, 9, 10, 1000, 1779685342776844, u64::MAX] {
        assert_eq!(to_decimal(n), n.to_string());
    }
    for n in [0i64, -1, 7, -10, i64::MAX, i64::MIN] {
        assert_eq!(to_signed_decimal(n), n.to_string());
    }
    assert_eq!(from_hex("DeadBeef"), Some(0xdead_beef));
    assert_eq!(from_hex("g"), None);
    assert_eq!(from_hex("-1"), None);
    assert_eq!(from_hex("1ffffffffffffffff"), None);
}
