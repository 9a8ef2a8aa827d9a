use sd_ingest::decimal::{parse_i32, parse_i64};
use sd_ingest::error::ParseCause;

#[test]
fn parse_i64_reads_plain_and_signed_numbers() {
    assert_eq!(parse_i64("0"), Ok(0));
    assert_eq!(parse_i64("1690000000"), Ok(1690000000));
    assert_eq!(parse_i64("-42"), Ok(-42));
    assert_eq!(parse_i64("+7"), Ok(7));
    assert_eq!(parse_i64("-0"), Ok(0));
    assert_eq!(parse_i64("007"), Ok(7));
}

#[test]
fn parse_i64_reaches_both_ends_of_its_range() {
    assert_eq!(parse_i64("9223372036854775807"), Ok(i64::MAX));
    assert_eq!(parse_i64("-9223372036854775808"), Ok(i64::MIN));
    assert_eq!(parse_i64("9223372036854775808"), Err(ParseCause::Overflow));
    assert_eq!(parse_i64("-9223372036854775809"), Err(ParseCause::Overflow));
    assert_eq!(parse_i64("99999999999999999999999999999999999999999999"), Err(ParseCause::Overflow));
}

#[test]
fn parse_i64_rejects_what_is_no_number() {
    assert_eq!(parse_i64(""), Err(ParseCause::Empty));
    assert_eq!(parse_i64("+"), Err(ParseCause::InvalidDigit));
    assert_eq!(parse_i64("-"), Err(ParseCause::InvalidDigit));
    assert_eq!(parse_i64("abc"), Err(ParseCause::InvalidDigit));
    assert_eq!(parse_i64(" 1"), Err(ParseCause::InvalidDigit));
    assert_eq!(parse_i64("1 "), Err(ParseCause::InvalidDigit));
    assert_eq!(parse_i64("1_000"), Err(ParseCause::InvalidDigit));
    assert_eq!(parse_i64("--1"), Err(ParseCause::InvalidDigit));
    assert_eq!(parse_i64("1.5"), Err(ParseCause::InvalidDigit));
    assert_eq!(parse_i64("١٢"), Err(ParseCause::InvalidDigit));
}

#[test]
fn parse_i32_reaches_both_ends_of_its_range() {
    assert_eq!(parse_i32("-42"), Ok(-42));
    assert_eq!(parse_i32("2147483647"), Ok(i32::MAX));
    assert_eq!(parse_i32("-2147483648"), Ok(i32::MIN));
    assert_eq!(parse_i32("2147483648"), Err(ParseCause::Overflow));
    assert_eq!(parse_i32("-2147483649"), Err(ParseCause::Overflow));
    assert_eq!(parse_i32(""), Err(ParseCause::Empty));
    assert_eq!(parse_i32("x"), Err(ParseCause::InvalidDigit));
}

#[test]
fn parse_agrees_with_the_standard_parser_on_success() {
    let samples = ["0", "-1", "+17", "123456789", "-2147483648", "2147483648", "x1", "", "-", "12a"];
    for s in samples {
        assert_eq!(parse_i64(s).ok(), s.parse::<i64>().ok());
        assert_eq!(parse_i32(s).ok(), s.parse::<i32>().ok());
    }
}
