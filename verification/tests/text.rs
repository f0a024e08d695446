//! Texts by their characters.

use fileman::text::chars_of;
use fileman::text::contains;
use fileman::text::decimal_of;
use fileman::text::join;
use fileman::text::matches_at;
use fileman::text::numeral_of;
use fileman::text::parse_i64;
use fileman::text::plural;
use fileman::text::replace;
use fileman::text::same;
use fileman::text::signed_decimal_of;
use fileman::text::starts_with;
use fileman::text::trim;
use fileman::text::trim_end;

#[test]
fn white_space_is_trimmed_at_the_ends_only() {
    for s in ["", " ", " a b ", "\t\u{3000}x\u{2028}", "\u{85}y\u{a0}", "plain"] {
        assert_eq!(trim(s), s.trim());
        assert_eq!(trim_end(s), s.trim_end());
    }
}

#[test]
fn needles_are_found_anywhere() {
    for (hay, needle) in [("abc", "bc"), ("abc", ""), ("", "a"), ("aab", "ab"), ("ñandú", "dú")] {
        assert_eq!(contains(hay, needle), hay.contains(needle));
        assert_eq!(starts_with(hay, needle), hay.starts_with(needle));
    }
    assert!(matches_at(&chars_of("abc"), &chars_of("c"), 2));
    assert!(!matches_at(&chars_of("abc"), &chars_of("cd"), 2));
}

#[test]
fn replacing_goes_from_left_to_right() {
    for (s, from, to) in
        [("aaaa", "aa", "b"), ("aaa", "aa", "aaa"), ("x", "y", "z"), ("áéá", "á", "")]
    {
        assert_eq!(replace(s, from, to), s.replace(from, to));
    }
}

#[test]
fn parts_are_joined_with_separators_between_them() {
    let parts = ["a".to_string(), "".to_string(), "c".to_string()];
    assert_eq!(join(&parts, ", "), "a, , c");
    assert_eq!(join(&[], ", "), "");
}

#[test]
fn numbers_are_written_as_std_writes_them() {
    for n in [0, 7, 10, 255, 65_536, u64::MAX] {
        assert_eq!(decimal_of(n), n.to_string());
        assert_eq!(numeral_of(n, 16), format!("{n:X}"));
        assert_eq!(numeral_of(n, 8), format!("{n:o}"));
    }
    for n in [0, -1, 42, i64::MIN, i64::MAX] {
        assert_eq!(signed_decimal_of(n), n.to_string());
    }
}

#[test]
fn numbers_read_back() {
    for n in [0, -1, 42, i64::MIN, i64::MAX] {
        assert_eq!(parse_i64(&signed_decimal_of(n)), Some(n));
    }
    for s in ["", "-", "+", "+5", "007", "12a", " 1", "9223372036854775808", "-9223372036854775809"] {
        assert_eq!(parse_i64(s), s.parse::<i64>().ok(), "{s:?}");
    }
}

#[test]
fn one_is_singular() {
    assert_eq!(plural(0), "s");
    assert_eq!(plural(1), "");
    assert_eq!(plural(2), "s");
    assert!(same("a", "a") && !same("a", "b"));
}
