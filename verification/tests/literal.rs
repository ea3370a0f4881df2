use twoscomp::error::Error;
use twoscomp::literal::{digit_value, parse_digits, parse_num, split_radix};

const MALFORMED: Result<u128, Error> = Err(Error::MalformedLiteral);

#[test]
fn plain_digits_are_decimal() {
    assert_eq!(parse_num("5"), Ok(5));
    assert_eq!(parse_num("16"), Ok(16));
    assert_eq!(parse_num("1234567890"), Ok(1_234_567_890));
}

#[test]
fn zero_alone_is_decimal_zero() {
    assert_eq!(parse_num("0"), Ok(0));
    assert_eq!(split_radix("0"), (10, "0"));
}

#[test]
fn negative_zero_is_zero() {
    assert_eq!(parse_num("-0"), parse_num("0"));
    assert_eq!(parse_num("-0"), Ok(0));
    assert_eq!(parse_num("-0x0"), Ok(0));
    assert_eq!(parse_num("-00"), Ok(0));
    assert_eq!(parse_num("-0b0"), Ok(0));
}

#[test]
fn each_radix_reaches_sixteen() {
    assert_eq!(parse_num("0x10"), Ok(16));
    assert_eq!(parse_num("0t16"), Ok(16));
    assert_eq!(parse_num("0b10000"), Ok(16));
    assert_eq!(parse_num("020"), Ok(16));
    assert_eq!(parse_num("16"), Ok(16));
}

#[test]
fn prefix_letters_may_be_upper_case() {
    assert_eq!(parse_num("0X10"), Ok(16));
    assert_eq!(parse_num("0T16"), Ok(16));
    assert_eq!(parse_num("0B10000"), Ok(16));
}

#[test]
fn hex_digits_of_either_case() {
    assert_eq!(parse_num("0xAbC"), Ok(0xabc));
    assert_eq!(parse_num("0xdeadBEEF"), Ok(0xdead_beef));
}

#[test]
fn minus_sign_negates_with_wraparound() {
    assert_eq!(parse_num("-5"), Ok(u128::MAX - 4));
    assert_eq!(parse_num("-1"), Ok(u128::MAX));
    assert_eq!(parse_num("-0x10"), Ok(u128::MAX - 15));
    assert_eq!(parse_num("-017"), Ok(u128::MAX - 14));
    assert_eq!(parse_num("-340282366920938463463374607431768211455"), Ok(1));
}

#[test]
fn largest_magnitude_is_accepted() {
    assert_eq!(parse_num("340282366920938463463374607431768211455"), Ok(u128::MAX));
    assert_eq!(parse_num("0xffffffffffffffffffffffffffffffff"), Ok(u128::MAX));
    assert_eq!(parse_num("03777777777777777777777777777777777777777777"), Ok(u128::MAX));
}

#[test]
fn magnitude_beyond_128_bits_is_malformed() {
    assert_eq!(parse_num("340282366920938463463374607431768211456"), MALFORMED);
    assert_eq!(parse_num("0x100000000000000000000000000000000"), MALFORMED);
    assert_eq!(parse_num("04000000000000000000000000000000000000000000"), MALFORMED);
    assert_eq!(parse_num("-340282366920938463463374607431768211456"), MALFORMED);
    assert_eq!(parse_num("999999999999999999999999999999999999999999999999999999"), MALFORMED);
}

#[test]
fn leading_zeros_do_not_overflow() {
    assert_eq!(parse_num("0x0000000000000000000000000000000000000000000001"), Ok(1));
    assert_eq!(parse_num("0000000000000000000000000000000000000000000000000007"), Ok(7));
}

#[test]
fn leading_zero_selects_octal() {
    assert_eq!(parse_num("017"), Ok(15));
    assert_eq!(parse_num("00"), Ok(0));
    assert_eq!(parse_num("08"), MALFORMED);
    assert_eq!(parse_num("09"), MALFORMED);
}

#[test]
fn decimal_escape_allows_leading_zero() {
    assert_eq!(parse_num("0t08"), Ok(8));
    assert_eq!(parse_num("0t099"), Ok(99));
}

#[test]
fn empty_digit_strings_are_malformed() {
    assert_eq!(parse_num(""), MALFORMED);
    assert_eq!(parse_num("-"), MALFORMED);
    assert_eq!(parse_num("0x"), MALFORMED);
    assert_eq!(parse_num("0t"), MALFORMED);
    assert_eq!(parse_num("0b"), MALFORMED);
    assert_eq!(parse_num("-0X"), MALFORMED);
}

#[test]
fn characters_outside_the_radix_are_malformed() {
    assert_eq!(parse_num("12a"), MALFORMED);
    assert_eq!(parse_num("0xg"), MALFORMED);
    assert_eq!(parse_num("0b2"), MALFORMED);
    assert_eq!(parse_num("0b102"), MALFORMED);
    assert_eq!(parse_num("5 "), MALFORMED);
    assert_eq!(parse_num(" 5"), MALFORMED);
    assert_eq!(parse_num("1_000"), MALFORMED);
    assert_eq!(parse_num("--5"), MALFORMED);
    assert_eq!(parse_num("0x-1"), MALFORMED);
    assert_eq!(parse_num("+5"), MALFORMED);
    assert_eq!(parse_num("0x+5"), MALFORMED);
    assert_eq!(parse_num("x10"), MALFORMED);
    assert_eq!(parse_num("five"), MALFORMED);
}

#[test]
fn characters_beyond_ascii_are_malformed() {
    assert_eq!(parse_num("\u{ff15}"), MALFORMED);
    assert_eq!(parse_num("1\u{e9}"), MALFORMED);
    assert_eq!(parse_num("\u{2212}5"), MALFORMED);
    assert_eq!(parse_num("0x\u{e9}"), MALFORMED);
    assert_eq!(parse_num("-\u{663}"), MALFORMED);
}

#[test]
fn digit_value_follows_the_radix() {
    assert_eq!(digit_value('0', 2), Some(0));
    assert_eq!(digit_value('1', 2), Some(1));
    assert_eq!(digit_value('2', 2), None);
    assert_eq!(digit_value('7', 8), Some(7));
    assert_eq!(digit_value('8', 8), None);
    assert_eq!(digit_value('9', 10), Some(9));
    assert_eq!(digit_value('a', 10), None);
    assert_eq!(digit_value('a', 16), Some(10));
    assert_eq!(digit_value('F', 16), Some(15));
    assert_eq!(digit_value('g', 16), None);
    assert_eq!(digit_value('z', 36), Some(35));
    assert_eq!(digit_value('Z', 36), Some(35));
}

#[test]
fn digit_value_refuses_neighbours_of_the_digit_ranges() {
    for c in ['/', ':', '@', '[', '`', '{', ' ', '-', '+', '_', '\u{e9}', '\u{ff11}'] {
        assert_eq!(digit_value(c, 36), None);
    }
}

#[test]
fn split_radix_strips_two_character_prefixes() {
    assert_eq!(split_radix("0x1f"), (16, "1f"));
    assert_eq!(split_radix("0X1f"), (16, "1f"));
    assert_eq!(split_radix("0t19"), (10, "19"));
    assert_eq!(split_radix("0T19"), (10, "19"));
    assert_eq!(split_radix("0b11"), (2, "11"));
    assert_eq!(split_radix("0B11"), (2, "11"));
    assert_eq!(split_radix("0x"), (16, ""));
    assert_eq!(split_radix("0x\u{e9}1"), (16, "\u{e9}1"));
}

#[test]
fn split_radix_keeps_the_octal_zero() {
    assert_eq!(split_radix("017"), (8, "017"));
    assert_eq!(split_radix("00"), (8, "00"));
    assert_eq!(split_radix("0\u{e9}"), (8, "0\u{e9}"));
}

#[test]
fn split_radix_defaults_to_decimal() {
    assert_eq!(split_radix("17"), (10, "17"));
    assert_eq!(split_radix(""), (10, ""));
    assert_eq!(split_radix("x10"), (10, "x10"));
    assert_eq!(split_radix("-0x10"), (10, "-0x10"));
}

#[test]
fn parse_digits_reads_a_numeral() {
    assert_eq!(parse_digits("ff", 16), Some(255));
    assert_eq!(parse_digits("FF", 16), Some(255));
    assert_eq!(parse_digits("101", 2), Some(5));
    assert_eq!(parse_digits("777", 8), Some(511));
    assert_eq!(parse_digits("zz", 36), Some(35 * 36 + 35));
    assert_eq!(parse_digits("0", 10), Some(0));
}

#[test]
fn parse_digits_refuses_what_is_no_numeral() {
    assert_eq!(parse_digits("", 10), None);
    assert_eq!(parse_digits("12", 2), None);
    assert_eq!(parse_digits("0x10", 16), None);
    assert_eq!(parse_digits("-1", 10), None);
    assert_eq!(parse_digits("+1", 10), None);
    assert_eq!(parse_digits("1\u{e9}", 36), None);
}

#[test]
fn parse_digits_stops_at_128_bits() {
    let ones = "1".repeat(128);
    assert_eq!(parse_digits(&ones, 2), Some(u128::MAX));
    let longer = "1".repeat(129);
    assert_eq!(parse_digits(&longer, 2), None);
    assert_eq!(parse_digits("f5lxx1zz5pnorynqglhzmsp33", 36), Some(u128::MAX));
    assert_eq!(parse_digits("f5lxx1zz5pnorynqglhzmsp34", 36), None);
}
