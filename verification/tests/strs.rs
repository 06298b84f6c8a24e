//! Text.
use cs_tui::strs::{
    begins, bytes_of, contains, decimal_text, is_control_char, join, repeat, same,
    signed_decimal_text, split, to_ascii_lower, trim, words,
};

#[test]
fn trimming_takes_all_white_space() {
    assert_eq!(trim(" \u{2003}\ta b\u{a0}\n"), "a b");
    assert_eq!(trim("   "), "");
}

#[test]
fn words_are_what_white_space_parts() {
    assert_eq!(words(" a \t b\u{2003}c\n"), vec!["a", "b", "c"]);
    assert!(words(" \n").is_empty());
}

#[test]
fn splitting_keeps_empty_parts() {
    assert_eq!(split("a+b++c", '+'), vec!["a", "b", "", "c"]);
    assert_eq!(split("", '+'), vec![""]);
    assert_eq!(join(&split("a+b++c", '+'), "+"), "a+b++c");
}

#[test]
fn texts_are_searched() {
    assert!(contains("abcabd", "abd"));
    assert!(contains("x", ""));
    assert!(!contains("ab", "abc"));
    assert!(begins("abc", "ab"));
    assert!(!begins("ab", "abc"));
    assert!(same("日", "日") && !same("日", "本"));
    assert_eq!(to_ascii_lower("ÀBC"), "Àbc");
}

#[test]
fn numbers_are_written_in_decimal() {
    assert_eq!(decimal_text(0), "0");
    assert_eq!(decimal_text(u64::MAX), "18446744073709551615");
    assert_eq!(signed_decimal_text(-42), "-42");
    assert_eq!(signed_decimal_text(i64::MIN), "-9223372036854775808");
    assert_eq!(signed_decimal_text(7), "7");
}

#[test]
fn texts_are_repeated_and_encoded() {
    assert_eq!(repeat("ab", 3), "ababab");
    assert_eq!(repeat("ab", 0), "");
    assert_eq!(bytes_of("é"), "é".as_bytes());
    assert!(is_control_char('\u{1b}') && is_control_char('\u{9b}') && !is_control_char('a'));
}
