//! Tests of the decimal parser.

use member_hss::parse::InputParseError;
use member_hss::parse::parse_decimal_milli;

const LIMIT: i64 = 10_000_000_000;

#[test]
fn parse_whole_numbers() {
    assert_eq!(parse_decimal_milli(b"150", LIMIT), Ok(150_000));
    assert_eq!(parse_decimal_milli(b"0", LIMIT), Ok(0));
    assert_eq!(parse_decimal_milli(b"+7", LIMIT), Ok(7_000));
    assert_eq!(parse_decimal_milli(b"-300", LIMIT), Ok(-300_000));
}

#[test]
fn parse_decimals_exactly() {
    assert_eq!(parse_decimal_milli(b"3.5", LIMIT), Ok(3_500));
    assert_eq!(parse_decimal_milli(b"-12.75", LIMIT), Ok(-12_750));
    assert_eq!(parse_decimal_milli(b".5", LIMIT), Ok(500));
    assert_eq!(parse_decimal_milli(b"1.", LIMIT), Ok(1_000));
    assert_eq!(parse_decimal_milli(b"0.079", LIMIT), Ok(79));
    assert_eq!(parse_decimal_milli(b"-0.001", LIMIT), Ok(-1));
}

#[test]
fn parse_cuts_off_beyond_thousandths() {
    assert_eq!(parse_decimal_milli(b"1.2345", LIMIT), Ok(1_234));
    assert_eq!(parse_decimal_milli(b"0.0009", LIMIT), Ok(0));
    assert_eq!(parse_decimal_milli(b"2.71828", LIMIT), Ok(2_718));
}

#[test]
fn parse_rejects_non_numbers() {
    for text in [
        &b""[..],
        b".",
        b"+",
        b"-",
        b"abc",
        b"12a",
        b"1.2.3",
        b"--5",
        b"1 2",
        b"+.",
        b"1e3",
    ] {
        assert_eq!(
            parse_decimal_milli(text, LIMIT),
            Err(InputParseError::NotANumber),
            "accepted {:?}",
            String::from_utf8_lossy(text)
        );
    }
}

#[test]
fn parse_rejects_out_of_range() {
    assert_eq!(parse_decimal_milli(b"10000000.001", LIMIT), Err(InputParseError::OutOfRange));
    assert_eq!(parse_decimal_milli(b"-10000000.001", LIMIT), Err(InputParseError::OutOfRange));
    assert_eq!(
        parse_decimal_milli(b"99999999999999999999999", LIMIT),
        Err(InputParseError::OutOfRange)
    );
}

#[test]
fn parse_accepts_the_bound_itself() {
    assert_eq!(parse_decimal_milli(b"10000000", LIMIT), Ok(10_000_000_000));
    assert_eq!(parse_decimal_milli(b"-10000000", LIMIT), Ok(-10_000_000_000));
}
