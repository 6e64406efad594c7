use wataxrate::numeral::{
    digits_end, parse_decimal, parse_i32, parse_natural, parse_u32, parse_u8,
};
use wataxrate::Decimal;

fn chars(s: &str) -> Vec<char> {
    s.chars().collect()
}

fn decimal(negative: bool, unscaled: u64, scale: usize) -> Option<Decimal> {
    Some(Decimal { negative, unscaled, scale })
}

#[test]
fn digits_end_stops_at_the_first_other_character() {
    assert_eq!(digits_end(&chars("123 45"), 0), 3);
    assert_eq!(digits_end(&chars("123 45"), 3), 3);
    assert_eq!(digits_end(&chars("123 45"), 4), 6);
    assert_eq!(digits_end(&chars("123 45"), 6), 6);
    assert_eq!(digits_end(&chars(""), 0), 0);
    assert_eq!(digits_end(&chars("x1"), 0), 0);
}

#[test]
fn naturals_are_digits_within_the_limit() {
    assert_eq!(parse_natural(&chars("0"), 10), Some(0));
    assert_eq!(parse_natural(&chars("10"), 10), Some(10));
    assert_eq!(parse_natural(&chars("11"), 10), None);
    assert_eq!(parse_natural(&chars("0010"), 10), Some(10));
    assert_eq!(parse_natural(&chars(""), 10), None);
    assert_eq!(parse_natural(&chars("+1"), 10), None);
    assert_eq!(parse_natural(&chars("1a"), 10), None);
    assert_eq!(parse_natural(&chars("18446744073709551615"), u64::MAX), Some(u64::MAX));
    assert_eq!(parse_natural(&chars("18446744073709551616"), u64::MAX), None);
    assert_eq!(parse_natural(&chars("99999999999999999999999"), u64::MAX), None);
}

#[test]
fn small_integers_follow_the_standard_grammar() {
    assert_eq!(parse_u8(&chars("255")), Some(255));
    assert_eq!(parse_u8(&chars("256")), None);
    assert_eq!(parse_u8(&chars("+7")), Some(7));
    assert_eq!(parse_u8(&chars("-0")), None);
    assert_eq!(parse_u8(&chars("+")), None);
    assert_eq!(parse_u8(&chars("++1")), None);
    assert_eq!(parse_u32(&chars("98109")), Some(98109));
    assert_eq!(parse_u32(&chars("4294967295")), Some(u32::MAX));
    assert_eq!(parse_u32(&chars("4294967296")), None);
    assert_eq!(parse_u32(&chars("")), None);
    assert_eq!(parse_u32(&chars("12 ")), None);
}

#[test]
fn signed_integers_take_either_sign() {
    assert_eq!(parse_i32(&chars("1726")), Some(1726));
    assert_eq!(parse_i32(&chars("+1726")), Some(1726));
    assert_eq!(parse_i32(&chars("-1")), Some(-1));
    assert_eq!(parse_i32(&chars("-0")), Some(0));
    assert_eq!(parse_i32(&chars("2147483647")), Some(i32::MAX));
    assert_eq!(parse_i32(&chars("2147483648")), None);
    assert_eq!(parse_i32(&chars("-2147483648")), Some(i32::MIN));
    assert_eq!(parse_i32(&chars("-2147483649")), None);
    assert_eq!(parse_i32(&chars("-")), None);
    assert_eq!(parse_i32(&chars("-+1")), None);
    assert_eq!(parse_i32(&chars("1.0")), None);
    assert_eq!(parse_i32(&chars("")), None);
}

#[test]
fn decimals_keep_their_digits() {
    assert_eq!(parse_decimal(&chars(".095")), decimal(false, 95, 3));
    assert_eq!(parse_decimal(&chars("0.095")), decimal(false, 95, 3));
    assert_eq!(parse_decimal(&chars("0.0950")), decimal(false, 950, 4));
    assert_eq!(parse_decimal(&chars("0.101")), decimal(false, 101, 3));
    assert_eq!(parse_decimal(&chars("12")), decimal(false, 12, 0));
    assert_eq!(parse_decimal(&chars("12.")), decimal(false, 12, 0));
    assert_eq!(parse_decimal(&chars("-1")), decimal(true, 1, 0));
    assert_eq!(parse_decimal(&chars("-0.5")), decimal(true, 5, 1));
    assert_eq!(parse_decimal(&chars("+6.5")), decimal(false, 65, 1));
    assert_eq!(parse_decimal(&chars("0")), decimal(false, 0, 0));
    assert_eq!(parse_decimal(&chars("1844674407370955.1615")), decimal(false, u64::MAX, 4));
}

#[test]
fn what_is_no_decimal_is_refused() {
    assert_eq!(parse_decimal(&chars("")), None);
    assert_eq!(parse_decimal(&chars(".")), None);
    assert_eq!(parse_decimal(&chars("-")), None);
    assert_eq!(parse_decimal(&chars("+.")), None);
    assert_eq!(parse_decimal(&chars("1.2.3")), None);
    assert_eq!(parse_decimal(&chars("1,5")), None);
    assert_eq!(parse_decimal(&chars("1e5")), None);
    assert_eq!(parse_decimal(&chars("0.1 ")), None);
    assert_eq!(parse_decimal(&chars(" 0.1")), None);
    assert_eq!(parse_decimal(&chars("--1")), None);
    assert_eq!(parse_decimal(&chars("NaN")), None);
    assert_eq!(parse_decimal(&chars("1844674407370955.1616")), None);
    assert_eq!(parse_decimal(&chars("184467440737095516150")), None);
}
