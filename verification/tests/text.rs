use diffsquare::factor::{progress_line, scinot, verbose};
use diffsquare::parse::{conclude, parse_bigint, ParseError};
use malachite::Integer;
use std::str::FromStr;

#[test]
fn scinot_keeps_short_numbers_whole() {
    assert_eq!(scinot(&Integer::from(0), 6), "0");
    assert_eq!(scinot(&Integer::from(59), 6), "59");
    assert_eq!(scinot(&Integer::from(123456), 6), "123456");
    assert_eq!(scinot(&Integer::from(-123456), 6), "-123456");
}

#[test]
fn scinot_cuts_long_numbers_down() {
    assert_eq!(scinot(&Integer::from(123456), 3), "1.23e+5");
    assert_eq!(scinot(&Integer::from(1234567), 6), "1.23456e+6");
    assert_eq!(scinot(&Integer::from(100000), 1), "1e+5");
    let big = Integer::from_str("2761929023323646159").unwrap();
    assert_eq!(scinot(&big, 30), "2761929023323646159");
    assert_eq!(scinot(&big, 5), "2.7619e+18");
}

#[test]
fn scinot_rounds_towards_negative_infinity() {
    assert_eq!(scinot(&Integer::from(129), 2), "1.2e+2");
    assert_eq!(scinot(&Integer::from(199), 1), "1e+2");
    assert_eq!(scinot(&Integer::from(-121), 2), "-1.3e+2");
}

#[test]
fn verbose_names_iteration_and_factors() {
    let line = verbose(&Integer::from(3), &Integer::from(59), &Integer::from(101), 6);
    assert_eq!(line, "Iteration: 3 p = 59 q = 101");
    let line = verbose(
        &Integer::from(1000001),
        &Integer::from(1652465729u64),
        &Integer::from(1671398671u64),
        4,
    );
    assert_eq!(line, "Iteration: 1e+6 p = 1.652e+9 q = 1.671e+9");
}

#[test]
fn progress_line_joins_its_parts() {
    assert_eq!(progress_line("1", "2", "3"), "Iteration: 1 p = 2 q = 3");
    assert_eq!(progress_line("", "", ""), "Iteration:  p =  q = ");
}

#[test]
fn parse_reads_decimal() {
    assert_eq!(parse_bigint("5959"), Ok(Integer::from(5959)));
    assert_eq!(parse_bigint("0"), Ok(Integer::from(0)));
    assert_eq!(parse_bigint("-12"), Ok(Integer::from(-12)));
    assert_eq!(
        parse_bigint("2761929023323646159000000000000"),
        Ok(Integer::from_str("2761929023323646159000000000000").unwrap())
    );
}

#[test]
fn parse_reads_scientific_notation() {
    assert_eq!(parse_bigint("1e3"), Ok(Integer::from(1000)));
    assert_eq!(parse_bigint("1.5e1"), Ok(Integer::from(15)));
    assert_eq!(parse_bigint("5.959E3"), Ok(Integer::from(5959)));
}

#[test]
fn parse_reads_hexadecimal() {
    assert_eq!(parse_bigint("0x1747"), Ok(Integer::from(5959)));
    assert_eq!(parse_bigint("0X1747"), Ok(Integer::from(5959)));
    assert_eq!(parse_bigint("0xff"), Ok(Integer::from(255)));
    assert_eq!(parse_bigint("0xFF"), Ok(Integer::from(255)));
    assert_eq!(
        parse_bigint("0x10000000000000000"),
        Ok(Integer::from_str("18446744073709551616").unwrap())
    );
}

#[test]
fn parse_names_the_notation_that_failed() {
    assert_eq!(parse_bigint("0x"), Err(ParseError::InvalidHex));
    assert_eq!(parse_bigint("0xzz"), Err(ParseError::InvalidHex));
    assert_eq!(parse_bigint("0X12g"), Err(ParseError::InvalidHex));
    assert_eq!(parse_bigint(""), Err(ParseError::InvalidInteger));
    assert_eq!(parse_bigint("abc"), Err(ParseError::InvalidInteger));
    assert_eq!(parse_bigint("x12"), Err(ParseError::InvalidInteger));
    assert_eq!(parse_bigint("12 34"), Err(ParseError::InvalidInteger));
    // the prefix is two characters, not one
    assert_eq!(parse_bigint("0"), Ok(Integer::from(0)));
    assert_eq!(parse_bigint("x"), Err(ParseError::InvalidInteger));
}

#[test]
fn parse_error_messages() {
    assert_eq!(ParseError::InvalidHex.message(), "Invalid hex");
    assert_eq!(ParseError::InvalidInteger.message(), "Invalid integer");
}

#[test]
fn conclude_keeps_the_number() {
    assert_eq!(conclude(true, Some(Integer::from(7))), Ok(Integer::from(7)));
    assert_eq!(conclude(false, Some(Integer::from(7))), Ok(Integer::from(7)));
    assert_eq!(conclude(true, None), Err(ParseError::InvalidHex));
    assert_eq!(conclude(false, None), Err(ParseError::InvalidInteger));
}
