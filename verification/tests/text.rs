use openfang_core::decimal::{i64_text, parse_i64, u64_text};
use openfang_core::order::{bytes_ordered, text_ordered};
use openfang_core::text::{
    contains_text, equal_ignoring_ascii_case, has_prefix, has_suffix, join, split,
    splitn, str_equal, strip_prefix, trim, trim_leading_char,
};

#[test]
fn trimming_takes_unicode_white_space() {
    assert_eq!(trim(" \t\r\na b\u{a0}\u{3000}"), "a b");
    assert_eq!(trim("\u{200b}a"), "\u{200b}a");
    assert_eq!(trim(" \u{2028} "), "");
    assert_eq!(trim_leading_char("..a.", '.'), "a.");
    assert_eq!(trim_leading_char("...", '.'), "");
}

#[test]
fn pieces_and_joins() {
    assert_eq!(split("a;b;", ';'), vec!["a", "b", ""]);
    assert_eq!(split("", ';'), vec![""]);
    assert_eq!(splitn("a:b:c", 2, ':'), vec!["a", "b:c"]);
    assert_eq!(splitn("a", 3, ':'), vec!["a"]);
    let parts = vec!["a".to_string(), String::new(), "\u{fc}".to_string()];
    assert_eq!(join(&parts, "--"), "a----\u{fc}");
    assert_eq!(join(&Vec::new(), "--"), "");
}

#[test]
fn prefixes_suffixes_and_searches() {
    assert!(has_prefix("\u{fc}ber", "\u{fc}b"));
    assert!(!has_prefix("a", "ab"));
    assert!(has_suffix("a_TOKEN", "_TOKEN"));
    assert!(!has_suffix("TOKEN", "_TOKEN"));
    assert_eq!(strip_prefix("a=b", "a="), Some("b"));
    assert_eq!(strip_prefix("b", "a"), None);
    assert!(contains_text("rate limit hit", "limit"));
    assert!(contains_text("", ""));
    assert!(!contains_text("limi", "limit"));
}

#[test]
fn equality_with_and_without_case() {
    assert!(str_equal("\u{fc}", "\u{fc}"));
    assert!(!str_equal("a", "A"));
    assert!(equal_ignoring_ascii_case("MD", "md"));
    assert!(!equal_ignoring_ascii_case("\u{dc}", "\u{fc}"));
    assert!(!equal_ignoring_ascii_case("md", "mdx"));
}

#[test]
fn decimals_are_written() {
    assert_eq!(u64_text(0), "0");
    assert_eq!(u64_text(u64::MAX), "18446744073709551615");
    assert_eq!(i64_text(-42), "-42");
    assert_eq!(i64_text(i64::MIN), "-9223372036854775808");
}

#[test]
fn decimals_are_read() {
    assert_eq!(parse_i64("9223372036854775807"), Some(i64::MAX));
    assert_eq!(parse_i64("9223372036854775808"), None);
    assert_eq!(parse_i64("-9223372036854775808"), Some(i64::MIN));
    assert_eq!(parse_i64("+007"), Some(7));
    assert_eq!(parse_i64("-0"), Some(0));
    for text in ["", "+", "-", "1 ", "0x1", "--1", "1_0", "\u{661}"] {
        assert_eq!(parse_i64(text), None);
        assert!(text.parse::<i64>().is_err());
    }
}

#[test]
fn strings_are_ordered_by_bytes() {
    for (a, b) in [("", "a"), ("B", "a"), ("a", "a/"), ("a.txt", "a/z"), ("z", "\u{e9}")] {
        assert!(text_ordered(a, b));
        assert!(!text_ordered(b, a));
        assert!(a < b);
    }
    assert!(text_ordered("same", "same"));
    assert!(bytes_ordered(&[1, 2], &[1, 2, 0]));
    assert!(!bytes_ordered(&[0xff], &[0x7f]));
}
