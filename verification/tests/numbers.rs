use tally::errors::ParseError;
use tally::num::{i64_to_string, parse_i64};

#[test]
fn renders_decimal_values() {
    assert_eq!(i64_to_string(0), "0");
    assert_eq!(i64_to_string(5), "5");
    assert_eq!(i64_to_string(10), "10");
    assert_eq!(i64_to_string(-1), "-1");
    assert_eq!(i64_to_string(1234567890), "1234567890");
    assert_eq!(i64_to_string(i64::MAX), "9223372036854775807");
    assert_eq!(i64_to_string(i64::MIN), "-9223372036854775808");
}

#[test]
fn reads_well_formed_literals() {
    assert_eq!(parse_i64("0"), Ok(0));
    assert_eq!(parse_i64("42"), Ok(42));
    assert_eq!(parse_i64("+42"), Ok(42));
    assert_eq!(parse_i64("-7"), Ok(-7));
    assert_eq!(parse_i64("-0"), Ok(0));
    assert_eq!(parse_i64("007"), Ok(7));
    assert_eq!(parse_i64("9223372036854775807"), Ok(i64::MAX));
    assert_eq!(parse_i64("-9223372036854775808"), Ok(i64::MIN));
}

#[test]
fn rejects_malformed_literals() {
    assert_eq!(parse_i64(""), Err(ParseError::Malformed));
    assert_eq!(parse_i64("-"), Err(ParseError::Malformed));
    assert_eq!(parse_i64("+"), Err(ParseError::Malformed));
    assert_eq!(parse_i64("12x"), Err(ParseError::Malformed));
    assert_eq!(parse_i64("x12"), Err(ParseError::Malformed));
    assert_eq!(parse_i64(" 12"), Err(ParseError::Malformed));
    assert_eq!(parse_i64("--5"), Err(ParseError::Malformed));
    assert_eq!(parse_i64("1.5"), Err(ParseError::Malformed));
}

#[test]
fn rejects_out_of_range_literals() {
    assert_eq!(parse_i64("9223372036854775808"), Err(ParseError::OutOfRange));
    assert_eq!(parse_i64("-9223372036854775809"), Err(ParseError::OutOfRange));
    assert_eq!(parse_i64("99999999999999999999999999"), Err(ParseError::OutOfRange));
    assert_eq!(parse_i64("-99999999999999999999999999"), Err(ParseError::OutOfRange));
}

#[test]
fn round_trips_through_text() {
    for v in [0i64, 1, -1, 99, -1000, i64::MAX, i64::MIN] {
        assert_eq!(parse_i64(&i64_to_string(v)), Ok(v));
    }
}
