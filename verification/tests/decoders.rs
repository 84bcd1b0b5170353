use xdftuneparser::decode::{is_float_literal, parse_dec_i32, parse_dec_u32, parse_int};
use xdftuneparser::error::Error;

#[test]
fn parse_int_hex() {
    assert_eq!(parse_int("0x1F"), Ok(31));
}

#[test]
fn parse_int_dec() {
    assert_eq!(parse_int("31"), Ok(31));
}

#[test]
fn parse_int_bad_hex_digits() {
    assert_eq!(parse_int("0xZZ"), Err(Error::BadValue));
}

#[test]
fn parse_int_empty() {
    assert_eq!(parse_int(""), Err(Error::BadValue));
}

#[test]
fn parse_int_bare_hex_prefix() {
    assert_eq!(parse_int("0x"), Err(Error::BadValue));
}

#[test]
fn parse_int_overflow() {
    assert_eq!(parse_int("4294967295"), Ok(u32::MAX));
    assert_eq!(parse_int("4294967296"), Err(Error::BadValue));
    assert_eq!(parse_int("0xFFFFFFFF"), Ok(u32::MAX));
    assert_eq!(parse_int("0x100000000"), Err(Error::BadValue));
}

#[test]
fn parse_int_lowercase_hex() {
    assert_eq!(parse_int("0x14dae"), Ok(0x14DAE));
    assert_eq!(parse_int("0x14DAE"), Ok(0x14DAE));
}

#[test]
fn parse_dec_u32_cases() {
    assert_eq!(parse_dec_u32("0"), Some(0));
    assert_eq!(parse_dec_u32("+31"), Some(31));
    assert_eq!(parse_dec_u32("31a"), None);
    assert_eq!(parse_dec_u32("-1"), None);
    assert_eq!(parse_dec_u32(""), None);
}

#[test]
fn parse_dec_i32_cases() {
    assert_eq!(parse_dec_i32("-32"), Some(-32));
    assert_eq!(parse_dec_i32("32"), Some(32));
    assert_eq!(parse_dec_i32("+7"), Some(7));
    assert_eq!(parse_dec_i32("-2147483648"), Some(i32::MIN));
    assert_eq!(parse_dec_i32("-2147483649"), None);
    assert_eq!(parse_dec_i32("2147483647"), Some(i32::MAX));
    assert_eq!(parse_dec_i32("2147483648"), None);
    assert_eq!(parse_dec_i32("-+5"), None);
    assert_eq!(parse_dec_i32("-"), None);
}

#[test]
fn float_literals_accepted() {
    assert!(is_float_literal("0.000000"));
    assert!(is_float_literal("255.000000"));
    assert!(is_float_literal("-1.5e-3"));
    assert!(is_float_literal("1e5"));
    assert!(is_float_literal(".5"));
    assert!(is_float_literal("1."));
    assert!(is_float_literal("inf"));
    assert!(is_float_literal("NaN"));
    assert!(is_float_literal("+Infinity"));
}

#[test]
fn float_literals_rejected() {
    assert!(!is_float_literal(""));
    assert!(!is_float_literal("."));
    assert!(!is_float_literal("abc"));
    assert!(!is_float_literal("1.2.3"));
    assert!(!is_float_literal("1e"));
    assert!(!is_float_literal("e5"));
    assert!(!is_float_literal("--1"));
}
