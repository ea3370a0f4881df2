//! Integer literals: an optional `-`, an optional radix prefix, digits.
//!
//! The prefix `0x` selects hexadecimal, `0b` binary and `0t` decimal (either
//! case of the letter); any other leading `0` selects octal, except that
//! `0` alone is decimal zero. Without a prefix the digits are decimal.

use vstd::prelude::*;
use vstd::string::StrSliceExecFns;
use crate::error::Error;
use crate::model::{modulus, pattern_of};

verus! {

/// The value of `c` as a digit: `0` to `9` count 0 to 9, and the letters
/// `a` to `z`, in either case, count 10 to 35. No other character is a
/// digit.
pub open spec fn digit_of(c: char) -> Option<nat> {
    if '0' <= c <= '9' {
        Some((c as int - '0' as int) as nat)
    } else if 'a' <= c <= 'z' {
        Some((c as int - 'a' as int + 10) as nat)
    } else if 'A' <= c <= 'Z' {
        Some((c as int - 'A' as int + 10) as nat)
    } else {
        None
    }
}

/// Whether `c` is a digit of the given radix.
pub open spec fn is_digit(c: char, radix: nat) -> bool {
    digit_of(c) matches Some(d) && d < radix
}

/// Whether `digits` is a numeral of the given radix: at least one
/// character, and digits of that radix only.
pub open spec fn is_numeral(digits: Seq<char>, radix: nat) -> bool {
    &&& digits.len() > 0
    &&& forall|i: int| 0 <= i < digits.len() ==> is_digit(#[trigger] digits[i], radix)
}

/// The number that `digits` writes in the given radix, most significant
/// digit first. A character that is no digit counts as zero.
pub open spec fn numeral_value(digits: Seq<char>, radix: nat) -> nat
    decreases digits.len(),
{
    if digits.len() == 0 {
        0
    } else {
        let last = match digit_of(digits.last()) {
            Some(d) => d,
            None => 0,
        };
        numeral_value(digits.drop_last(), radix) * radix + last
    }
}

/// The magnitude that `digits` writes in the given radix, where they are
/// a numeral whose value fits in 128 bits.
pub open spec fn magnitude(digits: Seq<char>, radix: nat) -> Option<u128> {
    if is_numeral(digits, radix) && numeral_value(digits, radix) < modulus() {
        Some(numeral_value(digits, radix) as u128)
    } else {
        None
    }
}

/// Whether `body` starts with `0` followed by one of the two given letters.
pub open spec fn has_marker(body: Seq<char>, lower: char, upper: char) -> bool {
    body.len() >= 2 && body[0] == '0' && (body[1] == lower || body[1] == upper)
}

/// The radix that the start of an unsigned literal selects. The rules are
/// tried in this order, so that `0` alone is decimal and never octal.
pub open spec fn radix_of(body: Seq<char>) -> nat {
    if body.len() == 1 && body[0] == '0' {
        10
    } else if has_marker(body, 'x', 'X') {
        16
    } else if has_marker(body, 't', 'T') {
        10
    } else if has_marker(body, 'b', 'B') {
        2
    } else if body.len() > 0 && body[0] == '0' {
        8
    } else {
        10
    }
}

/// The digits of an unsigned literal: what follows a two-character prefix,
/// and otherwise all of it. The leading `0` of an octal literal is one of
/// its digits.
pub open spec fn digits_of(body: Seq<char>) -> Seq<char> {
    if has_marker(body, 'x', 'X') || has_marker(body, 't', 'T') || has_marker(body, 'b', 'B') {
        body.skip(2)
    } else {
        body
    }
}

/// Whether a literal carries a minus sign.
pub open spec fn is_negative(text: Seq<char>) -> bool {
    text.len() > 0 && text[0] == '-'
}

/// A literal without its minus sign, if it has one.
pub open spec fn unsigned_part(text: Seq<char>) -> Seq<char> {
    if is_negative(text) {
        text.skip(1)
    } else {
        text
    }
}

/// The pattern that a literal denotes: its magnitude, or for a literal with
/// a minus sign the magnitude negated modulo `2^128`. So `-0` denotes the
/// same pattern as `0`.
pub open spec fn literal_value(text: Seq<char>) -> Result<u128, Error> {
    let body = unsigned_part(text);
    match magnitude(digits_of(body), radix_of(body)) {
        Some(m) => Ok(
            if is_negative(text) {
                pattern_of(-(m as int))
            } else {
                m
            },
        ),
        None => Err(Error::MalformedLiteral),
    }
}

/// The value of `c` as a digit of the given radix, if it is one.
pub fn digit_value(c: char, radix: u32) -> (r: Option<u32>)
    requires
        2 <= radix <= 36,
    ensures
        r is Some <==> is_digit(c, radix as nat),
        r matches Some(d) ==> digit_of(c) == Some(d as nat),
{
    let code = c as u32;
    let d: u32 = if '0' as u32 <= code && code <= '9' as u32 {
        code - '0' as u32
    } else if 'a' as u32 <= code && code <= 'z' as u32 {
        code - 'a' as u32 + 10
    } else if 'A' as u32 <= code && code <= 'Z' as u32 {
        code - 'A' as u32 + 10
    } else {
        return None;
    };
    if d < radix {
        Some(d)
    } else {
        None
    }
}

/// The value of a numeral never falls below that of one of its prefixes.
pub proof fn lemma_numeral_value_grows(digits: Seq<char>, radix: nat, len: int)
    requires
        radix >= 1,
        0 <= len <= digits.len(),
    ensures
        numeral_value(digits.subrange(0, len), radix) <= numeral_value(digits, radix),
    decreases digits.len(),
{
    if len == digits.len() {
        assert(digits.subrange(0, len) =~= digits);
    } else {
        let shorter = digits.drop_last();
        assert(shorter.subrange(0, len) =~= digits.subrange(0, len));
        lemma_numeral_value_grows(shorter, radix, len);
        assert(numeral_value(shorter, radix) <= numeral_value(shorter, radix) * radix)
            by (nonlinear_arith)
            requires
                radix >= 1,
        ;
    }
}

/// Reads a numeral in the given radix. The result is `None` where `digits`
/// is empty, holds a character that is no digit of the radix, or writes a
/// number of more than 128 bits.
pub fn parse_digits(digits: &str, radix: u32) -> (r: Option<u128>)
    requires
        2 <= radix <= 36,
    ensures
        r == magnitude(digits@, radix as nat),
{
    if !digits.is_ascii() {
        return None;
    }
    let len = digits.unicode_len();
    if len == 0 {
        return None;
    }
    let mut acc: u128 = 0;
    let mut i: usize = 0;
    while i < len
        invariant
            2 <= radix <= 36,
            digits.is_ascii(),
            len == digits@.len(),
            i <= len,
            forall|j: int| 0 <= j < i ==> is_digit(#[trigger] digits@[j], radix as nat),
            acc == numeral_value(digits@.subrange(0, i as int), radix as nat),
        decreases len - i,
    {
        let c = digits.get_ascii(i) as char;
        assert(c == digits@[i as int]);
        let ghost longer = digits@.subrange(0, i + 1);
        assert(longer.drop_last() =~= digits@.subrange(0, i as int));
        assert(longer.last() == c);
        proof {
            lemma_numeral_value_grows(digits@, radix as nat, i + 1);
        }
        let d = match digit_value(c, radix) {
            Some(d) => d,
            None => {
                return None;
            },
        };
        let shifted = match acc.checked_mul(radix as u128) {
            Some(shifted) => shifted,
            None => {
                return None;
            },
        };
        acc = match shifted.checked_add(d as u128) {
            Some(sum) => sum,
            None => {
                return None;
            },
        };
        i += 1;
    }
    assert(digits@.subrange(0, len as int) =~= digits@);
    Some(acc)
}

/// Tells the radix of an unsigned literal from its prefix, and hands back
/// the radix together with the digits that remain to be read.
pub fn split_radix<'a>(body: &'a str) -> (r: (u32, &'a str))
    ensures
        r.0 == radix_of(body@),
        r.1@ == digits_of(body@),
{
    let len = body.unicode_len();
    if len == 0 || body.get_char(0) != '0' {
        return (10, body);
    }
    if len == 1 {
        return (10, body);
    }
    let marker = body.get_char(1);
    if marker == 'x' || marker == 'X' {
        (16, body.substring_char(2, len))
    } else if marker == 't' || marker == 'T' {
        (10, body.substring_char(2, len))
    } else if marker == 'b' || marker == 'B' {
        (2, body.substring_char(2, len))
    } else {
        (8, body)
    }
}

/// Parses a literal into the 128-bit pattern it denotes. A minus sign
/// negates the magnitude with wraparound, so the sign ends up in the bits
/// of the pattern and is not reported apart from it.
pub fn parse_num(num: &str) -> (r: Result<u128, Error>)
    ensures
        r == literal_value(num@),
{
    let len = num.unicode_len();
    let pos = !(len > 0 && num.get_char(0) == '-');
    let body = if pos {
        num
    } else {
        num.substring_char(1, len)
    };
    let (radix, numstr) = split_radix(body);
    match parse_digits(numstr, radix) {
        Some(magnitude) => Ok(
            if pos {
                magnitude
            } else {
                0u128.wrapping_sub(magnitude)
            },
        ),
        None => Err(Error::MalformedLiteral),
    }
}

} // verus!
