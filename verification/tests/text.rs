use textspill::number::{decimal_text, long_decimal_text, read_number, signed_decimal_text};
use textspill::text::{same_text, sanitize, trim, trim_end};

#[test]
fn sanitize_removes_every_line_break() {
    assert_eq!(sanitize("rm -rf /\nyes\r\n"), "rm -rf / yes");
    assert_eq!(sanitize("  hello  "), "hello");
    assert_eq!(sanitize("\n\n"), "");
    assert_eq!(sanitize("en mening"), "en mening");
}

#[test]
fn sanitize_is_idempotent_and_keeps_inner_space() {
    let once = sanitize("\t a  b \r\n\u{a0}c\u{2003}\n \nd");
    assert_eq!(once, "a  b c d");
    assert_eq!(sanitize(&once), once);
    // A vertical tab is trimmed at a line's edge, but it breaks no line.
    assert_eq!(sanitize("a\u{b}b\u{b}"), "a\u{b}b");
}

#[test]
fn trimming_takes_unicode_white_space() {
    assert_eq!(trim("\u{3000}x \u{85}"), "x");
    assert_eq!(trim(" \t "), "");
    assert_eq!(trim_end(" pw-record\n"), " pw-record");
    // A zero-width space is no white space.
    assert_eq!(trim("\u{200b}x"), "\u{200b}x");
}

#[test]
fn texts_are_compared_by_their_characters() {
    assert!(same_text("sv", "sv"));
    assert!(!same_text("sv", "SV"));
    assert!(!same_text("", " "));
}

#[test]
fn numerals_are_decimal() {
    assert_eq!(decimal_text(0), "0");
    assert_eq!(decimal_text(u64::MAX), "18446744073709551615");
    assert_eq!(
        long_decimal_text(u128::MAX),
        "340282366920938463463374607431768211455"
    );
    assert_eq!(signed_decimal_text(-1), "-1");
    assert_eq!(signed_decimal_text(i32::MIN), "-2147483648");
    assert_eq!(signed_decimal_text(4242), "4242");
}

#[test]
fn numerals_read_back_up_to_a_limit() {
    let digits: Vec<char> = "x4242".chars().collect();
    assert_eq!(read_number(&digits, 1, 5000), Some(4242));
    assert_eq!(read_number(&digits, 1, 4241), None);
    assert_eq!(read_number(&digits, 0, 5000), None);
    assert_eq!(read_number(&digits, 5, 5000), None);
}
