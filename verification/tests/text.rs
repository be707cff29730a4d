use clawnicle::clock::{now_ms, to_duration_ms, to_stored_ms};
use clawnicle::text::{
    format_ts, hex, is_truncatable, push_decimal, push_duration, push_left_aligned,
    push_right_aligned, push_run, push_signed, same, truncate,
};
use clawnicle::Error;

fn duration(ns: u128) -> String {
    let mut out = String::new();
    push_duration(&mut out, ns);
    out
}

#[test]
fn decimals_have_no_leading_zeros() {
    let mut out = String::from("n=");
    push_decimal(&mut out, 0);
    out.push(' ');
    push_decimal(&mut out, 1024);
    out.push(' ');
    push_decimal(&mut out, u128::MAX);
    assert_eq!(out, "n=0 1024 340282366920938463463374607431768211455");
}

#[test]
fn signed_numbers_have_a_sign_where_negative() {
    let mut out = String::new();
    push_signed(&mut out, i64::MIN);
    out.push(' ');
    push_signed(&mut out, 7);
    assert_eq!(out, "-9223372036854775808 7");
}

#[test]
fn hex_is_two_lower_case_digits_per_byte() {
    assert_eq!(hex(&[0x00, 0x9f, 0xa0, 0xff]), "009fa0ff");
    assert_eq!(hex(&[]), "");
}

#[test]
fn different_bytes_have_different_hex_text() {
    assert_ne!(hex(&[0x12, 0x3f]), hex(&[0x12, 0x3e]));
    assert_ne!(hex(&[0x12]), hex(&[0x12, 0x00]));
}

#[test]
fn columns_are_padded_by_characters() {
    let mut out = String::new();
    push_left_aligned(&mut out, "\u{e9}t\u{e9}", 5);
    out.push('|');
    push_right_aligned(&mut out, "42", 4);
    out.push('|');
    push_left_aligned(&mut out, "too long", 3);
    push_run(&mut out, '-', 3);
    assert_eq!(out, "\u{e9}t\u{e9}  |  42|too long---");
}

#[test]
fn long_texts_are_cut_with_an_ellipsis() {
    assert_eq!(truncate("short", 28), "short");
    assert_eq!(truncate("abcdefgh", 8), "abcdefgh");
    assert_eq!(truncate("abcdefghi", 8), "abcdefg\u{2026}");
    assert_eq!(truncate("abc", 0), "\u{2026}");
}

#[test]
fn texts_are_not_cut_within_a_character() {
    assert!(!is_truncatable("\u{e9}\u{e9}\u{e9}", 4));
    assert!(is_truncatable("\u{e9}\u{e9}\u{e9}", 5));
    assert_eq!(truncate("\u{e9}\u{e9}\u{e9}", 5), "\u{e9}\u{e9}\u{2026}");
    assert!(is_truncatable("\u{e9}\u{e9}\u{e9}", 6));
}

#[test]
fn timestamps_are_seconds_with_three_decimals() {
    assert_eq!(format_ts(0), "0.000s");
    assert_eq!(format_ts(1_700_000_000_042), "1700000000.042s");
    assert_eq!(format_ts(-1_500), "-1.500s");
    assert_eq!(format_ts(-500), "-0.500s");
    assert_eq!(format_ts(500), "0.500s");
    assert_eq!(format_ts(-7), "-0.007s");
    assert_eq!(format_ts(i64::MIN), "-9223372036854775.808s");
}

#[test]
fn lengths_of_time_use_the_largest_unit() {
    assert_eq!(duration(5_000_000_000), "5s");
    assert_eq!(duration(1_500_000_000), "1.5s");
    assert_eq!(duration(1_000_000_001), "1.000000001s");
    assert_eq!(duration(100_000_000), "100ms");
    assert_eq!(duration(2_050_000), "2.05ms");
    assert_eq!(duration(3_007), "3.007\u{b5}s");
    assert_eq!(duration(999), "999ns");
    assert_eq!(duration(0), "0ns");
}

#[test]
fn lengths_of_time_read_like_durations() {
    for ns in [
        1u64,
        999,
        1_000,
        123_456,
        10_000_000,
        999_999_999,
        60_000_000_000,
        90_061_000_000_001,
    ] {
        let expected = format!("{:?}", std::time::Duration::from_nanos(ns));
        assert_eq!(duration(ns as u128), expected);
    }
}

#[test]
fn texts_are_compared_whole() {
    assert!(same("abc", "abc"));
    assert!(!same("abc", "abd"));
    assert!(!same("abc", "ab"));
    assert!(same("", ""));
}

#[test]
fn clock_before_the_epoch_reads_zero() {
    assert_eq!(to_stored_ms(None), 0);
    assert_eq!(to_stored_ms(Some(1_700_000_000_042)), 1_700_000_000_042);
}

#[test]
fn clock_reads_the_present() {
    // Later than September 2001.
    assert!(now_ms() > 1_000_000_000_000);
}

#[test]
fn every_error_has_its_message() {
    assert_eq!(Error::Journal("x".to_string()).message(), "journal error: x");
    assert_eq!(Error::Serde("x".to_string()).message(), "serialization error: x");
    assert_eq!(Error::Io("x".to_string()).message(), "io error: x");
    assert_eq!(Error::Tool("x".to_string()).message(), "tool failed: x");
    assert_eq!(Error::BudgetExceeded("usd").message(), "budget exceeded: usd");
    assert_eq!(Error::Cancelled.message(), "cancelled");
}

#[test]
fn durations_are_stored_in_64_bits() {
    assert_eq!(to_duration_ms(0), 0);
    assert_eq!(to_duration_ms(1_234), 1_234);
    assert_eq!(to_duration_ms(u64::MAX as u128), u64::MAX);
    assert_eq!(to_duration_ms(u64::MAX as u128 + 6), 5);
}
