use webp_anim::parse_centi_or;
use webp_anim::parse_i32_or;

#[test]
fn parses_plain_integers() {
    assert_eq!(parse_i32_or("42", 0), 42);
    assert_eq!(parse_i32_or("0", 7), 0);
    assert_eq!(parse_i32_or("007", 0), 7);
    assert_eq!(parse_i32_or("+5", 0), 5);
    assert_eq!(parse_i32_or("-7", 0), -7);
}

#[test]
fn integer_defaults_on_malformed_input() {
    assert_eq!(parse_i32_or("", 13), 13);
    assert_eq!(parse_i32_or("abc", 13), 13);
    assert_eq!(parse_i32_or("1x", 13), 13);
    assert_eq!(parse_i32_or("-", 13), 13);
    assert_eq!(parse_i32_or("+", 13), 13);
    assert_eq!(parse_i32_or(" 5", 13), 13);
    assert_eq!(parse_i32_or("5 ", 13), 13);
}

#[test]
fn integer_range_limits() {
    assert_eq!(parse_i32_or("2147483647", 0), 2147483647);
    assert_eq!(parse_i32_or("2147483648", 0), 0);
    assert_eq!(parse_i32_or("-2147483648", 0), -2147483648);
    assert_eq!(parse_i32_or("-2147483649", 0), 0);
    assert_eq!(parse_i32_or("99999999999999999999", 0), 0);
    assert_eq!(parse_i32_or("00000000000000000005", 0), 5);
}

#[test]
fn parses_decimal_quality_in_hundredths() {
    assert_eq!(parse_centi_or("75", 0), 7500);
    assert_eq!(parse_centi_or("75.5", 0), 7550);
    assert_eq!(parse_centi_or("75.25", 0), 7525);
    assert_eq!(parse_centi_or("0.25", 0), 25);
    assert_eq!(parse_centi_or(".5", 0), 50);
    assert_eq!(parse_centi_or("5.", 0), 500);
    assert_eq!(parse_centi_or("100", 0), 10000);
    assert_eq!(parse_centi_or("-1.5", 0), -150);
    assert_eq!(parse_centi_or("75.999", 0), 7599);
}

#[test]
fn quality_defaults_on_malformed_input() {
    assert_eq!(parse_centi_or("", 7500), 7500);
    assert_eq!(parse_centi_or("bad", 7500), 7500);
    assert_eq!(parse_centi_or(".", 7500), 7500);
    assert_eq!(parse_centi_or("-", 7500), 7500);
    assert_eq!(parse_centi_or("1.2.3", 7500), 7500);
    assert_eq!(parse_centi_or("1e3", 7500), 7500);
}

#[test]
fn oversized_quality_saturates_out_of_range() {
    assert_eq!(parse_centi_or("999999", 0), 2000000);
    assert_eq!(parse_centi_or("101", 0), 10100);
    assert_eq!(parse_centi_or("20000", 0), 2000000);
    assert_eq!(parse_centi_or("20001", 0), 2000000);
}
