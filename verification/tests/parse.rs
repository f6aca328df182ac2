//! Numeric text parsing used by the services.

use dasch_science::parse::{parse_decimal_udeg, parse_i8_bytes, parse_u64_bytes};

#[test]
fn degrees_parse_to_micro_degrees() {
    assert_eq!(parse_decimal_udeg(&b"83.8".to_vec()), Some(83_800_000));
    assert_eq!(parse_decimal_udeg(&b"-5.4".to_vec()), Some(-5_400_000));
    assert_eq!(parse_decimal_udeg(&b"123.456789".to_vec()), Some(123_456_789));
    assert_eq!(parse_decimal_udeg(&b"12".to_vec()), Some(12_000_000));
    assert_eq!(parse_decimal_udeg(&b"+0.000001".to_vec()), Some(1));
    assert_eq!(parse_decimal_udeg(&b"360".to_vec()), Some(360_000_000));
    assert_eq!(parse_decimal_udeg(&b"1.".to_vec()), Some(1_000_000));
}

#[test]
fn extra_fraction_digits_are_dropped() {
    assert_eq!(parse_decimal_udeg(&b"1.2345678".to_vec()), Some(1_234_567));
}

#[test]
fn malformed_degrees_are_rejected() {
    assert_eq!(parse_decimal_udeg(&b"".to_vec()), None);
    assert_eq!(parse_decimal_udeg(&b".5".to_vec()), None);
    assert_eq!(parse_decimal_udeg(&b"1e5".to_vec()), None);
    assert_eq!(parse_decimal_udeg(&b"1.2.3".to_vec()), None);
    assert_eq!(parse_decimal_udeg(&b"--1".to_vec()), None);
    assert_eq!(parse_decimal_udeg(&b"1234567890".to_vec()), None);
}

#[test]
fn small_integers_parse() {
    assert_eq!(parse_i8_bytes(&b"0".to_vec()), Some(0));
    assert_eq!(parse_i8_bytes(&b"-1".to_vec()), Some(-1));
    assert_eq!(parse_i8_bytes(&b"+7".to_vec()), Some(7));
    assert_eq!(parse_i8_bytes(&b"127".to_vec()), Some(127));
    assert_eq!(parse_i8_bytes(&b"-128".to_vec()), Some(-128));
    assert_eq!(parse_i8_bytes(&b"128".to_vec()), None);
    assert_eq!(parse_i8_bytes(&b"".to_vec()), None);
    assert_eq!(parse_i8_bytes(&b"1a".to_vec()), None);
}

#[test]
fn reference_numbers_parse() {
    assert_eq!(parse_u64_bytes(&b"712345".to_vec()), Some(712345));
    assert_eq!(parse_u64_bytes(&b"0".to_vec()), Some(0));
    assert_eq!(
        parse_u64_bytes(&b"9999999999999999999".to_vec()),
        Some(9_999_999_999_999_999_999)
    );
    assert_eq!(parse_u64_bytes(&b"".to_vec()), None);
    assert_eq!(parse_u64_bytes(&b"12x".to_vec()), None);
}
