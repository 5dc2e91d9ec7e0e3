//! Tests of the text helpers and of record kind names.

use bindy::crd::DNSRecordKind;
use bindy::text::{comma_list_contains_either, i64_to_decimal, str_less, u64_to_decimal};

#[test]
fn decimal_renderings_are_exact() {
    assert_eq!(u64_to_decimal(0), "0");
    assert_eq!(u64_to_decimal(1_234_567), "1234567");
    assert_eq!(u64_to_decimal(u64::MAX), "18446744073709551615");
    assert_eq!(i64_to_decimal(-42), "-42");
    assert_eq!(i64_to_decimal(i64::MIN), "-9223372036854775808");
}

#[test]
fn comma_lists_are_trimmed_entry_by_entry() {
    assert!(comma_list_contains_either("a, b ,c", "*", "b"));
    assert!(comma_list_contains_either("x,*", "*", "nope"));
    assert!(!comma_list_contains_either("ab,c", "*", "a"));
    assert!(!comma_list_contains_either("", "*", "a"));
    assert!(comma_list_contains_either(",", "*", ""));
}

#[test]
fn string_order_is_lexicographic_by_code_point() {
    assert!(str_less("alpha", "beta"));
    assert!(str_less("ab", "abc"));
    assert!(!str_less("abc", "ab"));
    assert!(!str_less("same", "same"));
    assert!(str_less("Z", "a"));
}

#[test]
fn record_kind_names_round_trip() {
    for kind in DNSRecordKind::all() {
        assert_eq!(DNSRecordKind::from_kind(kind.as_str()), Some(kind));
    }
    assert_eq!(DNSRecordKind::from_kind("arecord"), None);
}
