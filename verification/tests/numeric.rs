use edi855::numbers::{i32_dec, pad3, parse_i32, price_string, u64_dec};
use edi855::ParseError;

#[test]
fn decimal_rendering() {
    assert_eq!(u64_dec(0), "0");
    assert_eq!(u64_dec(7), "7");
    assert_eq!(u64_dec(5452), "5452");
    assert_eq!(i32_dec(0), "0");
    assert_eq!(i32_dec(-5), "-5");
    assert_eq!(i32_dec(2147483647), "2147483647");
    assert_eq!(i32_dec(-2147483648), "-2147483648");
}

#[test]
fn price_rendering_drops_trailing_zeros() {
    assert_eq!(price_string(13000000), "130");
    assert_eq!(price_string(7585000), "75.85");
    assert_eq!(price_string(100), "0.001");
    assert_eq!(price_string(1), "0.00001");
    assert_eq!(price_string(40000), "0.4");
    assert_eq!(price_string(0), "0");
    assert_eq!(price_string(-7585000), "-75.85");
    assert_eq!(price_string(123456789), "1234.56789");
}

#[test]
fn integer_parsing_accepts_signed_decimals() {
    assert_eq!(parse_i32("123"), Ok(123));
    assert_eq!(parse_i32("-123"), Ok(-123));
    assert_eq!(parse_i32("+7"), Ok(7));
    assert_eq!(parse_i32("0"), Ok(0));
    assert_eq!(parse_i32("2147483647"), Ok(2147483647));
    assert_eq!(parse_i32("-2147483648"), Ok(-2147483648));
}

#[test]
fn integer_parsing_rejects_malformed_and_overflowing_input() {
    assert_eq!(parse_i32(""), Err(ParseError::InvalidNumber));
    assert_eq!(parse_i32("-"), Err(ParseError::InvalidNumber));
    assert_eq!(parse_i32("+"), Err(ParseError::InvalidNumber));
    assert_eq!(parse_i32("12a"), Err(ParseError::InvalidNumber));
    assert_eq!(parse_i32(" 12"), Err(ParseError::InvalidNumber));
    assert_eq!(parse_i32("2147483648"), Err(ParseError::InvalidNumber));
    assert_eq!(parse_i32("-2147483649"), Err(ParseError::InvalidNumber));
}

#[test]
fn control_numbers_pad_to_three_digits() {
    assert_eq!(pad3("5"), "005");
    assert_eq!(pad3("45"), "045");
    assert_eq!(pad3("455"), "455");
    assert_eq!(pad3("5452"), "5452");
    assert_eq!(pad3(""), "000");
}
