use panels::text::{
    chars_of, contains, decimal_text, join2, join3, only_digits, padded_text,
    parse_u32, replace_char, same_text, starts_with, text_after_last, text_before, text_le,
    text_of, trim,
};

#[test]
fn numbers_are_written_in_decimal() {
    assert_eq!(decimal_text(0), "0");
    assert_eq!(decimal_text(7), "7");
    assert_eq!(decimal_text(10), "10");
    assert_eq!(decimal_text(4294967295), "4294967295");
    assert_eq!(decimal_text(u64::MAX), "18446744073709551615");
}

#[test]
fn numbers_are_padded_with_zeros() {
    assert_eq!(padded_text(7, 2), "07");
    assert_eq!(padded_text(12, 2), "12");
    assert_eq!(padded_text(123, 2), "123");
    assert_eq!(padded_text(0, 4), "0000");
    assert_eq!(padded_text(5, 0), "5");
}

#[test]
fn numbers_are_read_like_the_standard_parser() {
    for text in [
        "0", "7", "007", "+5", "4294967295", "4294967296", "99999999999999999999", "", "+",
        "-1", "1a", " 1", "1 ", "++1", "٣", "#1",
    ] {
        assert_eq!(parse_u32(text), text.parse::<u32>().ok(), "{text:?}");
    }
}

#[test]
fn texts_are_joined_and_compared() {
    assert_eq!(join2("ab", "cd"), "abcd");
    assert_eq!(join3("a", "", "c"), "ac");
    assert!(same_text("straße", "straße"));
    assert!(!same_text("a", "b"));
    assert!(!same_text("a", "ab"));
    assert_eq!(chars_of("héllo"), vec!['h', 'é', 'l', 'l', 'o']);
    assert_eq!(text_of(&chars_of("héllo"), 1, 3), "él");
}

#[test]
fn texts_are_searched() {
    assert!(contains("featureassets.gocomics.com/x", "gocomics"));
    assert!(contains("abc", ""));
    assert!(!contains("abc", "abcd"));
    assert!(starts_with("//assets", "//"));
    assert!(!starts_with("/assets", "//"));
    assert_eq!(text_before("Blondie by Dean Young", " by "), "Blondie");
    assert_eq!(text_before("Standby", " by "), "Standby");
    assert_eq!(text_before("a?b?c", "?"), "a");
    assert_eq!(text_after_last("dilbert.com/strip/2020-01-15", '/'), "2020-01-15");
    assert_eq!(text_after_last("no-slash", '/'), "no-slash");
    assert_eq!(text_after_last("trailing/", '/'), "");
    assert_eq!(replace_char("2020-01-15", '-', '/'), "2020/01/15");
    assert!(only_digits(&chars_of("20200115")));
    assert!(!only_digits(&chars_of("2020-01")));
}

#[test]
fn texts_are_trimmed_like_the_standard_library() {
    for text in ["", " ", " a ", "\n\ta b\r\n", "a", "\u{a0}x\u{3000}", "x  y"] {
        assert_eq!(trim(text), text.trim(), "{text:?}");
    }
}

#[test]
fn texts_are_ordered_like_strings() {
    let samples = ["", "a", "ab", "b", "2026-02-12", "2026-02-13", "é", "z", "Z"];
    for a in samples {
        for b in samples {
            assert_eq!(text_le(&chars_of(a), &chars_of(b)), a <= b, "{a:?} {b:?}");
        }
    }
}
