//! A whole computation: a width and a literal in, the number and its
//! negation out, each as the bits to show and the value they stand for.

use vstd::prelude::*;
use vstd::arithmetic::div_mod::{lemma_mod_bound, lemma_mod_twice};
use vstd::arithmetic::power2::pow2;
use crate::bits::lemma_pow2_bounds;
use crate::congruence::{
    lemma_congruent_flip,
    lemma_pattern_of_signed,
    lemma_signed_value_congruent,
    lemma_signed_value_range,
};
use crate::error::Error;
use crate::literal::{literal_value, parse_num};
use crate::laws::lemma_negation_value;
use crate::model::{fits, most_negative, signed_value};
use crate::pattern::{complement, low_bits, normalize, to_signed};
use crate::width::{check_width, lemma_valid_widths, valid_width};

verus! {

/// A number of some width, as it is shown.
#[derive(Debug, Clone, Copy, PartialEq, Eq, Structural)]
pub struct Reading {
    /// The bits of the number, in the low end of the word; the bits above
    /// the width are clear.
    pub bits: u128,
    /// The number that the bits stand for in two's complement.
    pub value: i128,
}

/// The result of a computation.
#[derive(Debug, Clone, Copy, PartialEq, Eq, Structural)]
pub struct Report {
    /// The width that the computation was carried out at.
    pub nbits: usize,
    /// The number that the literal denotes at that width.
    pub number: Reading,
    /// Its two's-complement negation at that width.
    pub complement: Reading,
}

impl Reading {
    /// Whether the reading belongs to a width of `nbits` bits: no bit is
    /// set from bit `nbits` upwards, and the value is what the bits stand
    /// for at that width.
    pub open spec fn well_formed(self, nbits: nat) -> bool
        recommends
            1 <= nbits <= 128,
    {
        &&& self.bits < pow2(nbits)
        &&& self.value == signed_value(self.bits as int, nbits)
    }
}

impl Report {
    /// Whether the report hangs together: its width is valid, both
    /// readings belong to that width, and the complement's value is minus
    /// the number's value, or the same value where that is the most
    /// negative one of the width.
    pub open spec fn well_formed(self) -> bool {
        let nbits = self.nbits as nat;
        &&& valid_width(nbits)
        &&& self.number.well_formed(nbits)
        &&& self.complement.well_formed(nbits)
        &&& self.complement.value == (if self.number.value == most_negative(nbits) {
            most_negative(nbits)
        } else {
            -self.number.value
        })
    }
}

/// How the integer `v` reads at a width of `nbits` bits: its remainder
/// modulo `2^nbits` as the bits, its signed value as the value.
pub open spec fn reading_of(v: int, nbits: nat) -> Reading
    recommends
        1 <= nbits <= 128,
{
    Reading { bits: (v % (pow2(nbits) as int)) as u128, value: signed_value(v, nbits) as i128 }
}

/// What a computation at `nbits` bits on the literal `text` comes to. The
/// width is judged first, then the literal, then whether its value fits.
/// The number on show is the literal's pattern read at the width, and the
/// complement is the negated pattern read at the width.
pub open spec fn evaluation(nbits: usize, text: Seq<char>) -> Result<Report, Error> {
    if !valid_width(nbits as nat) {
        Err(Error::InvalidWidth)
    } else {
        match literal_value(text) {
            Err(e) => Err(e),
            Ok(m) => if fits(m, nbits as nat) {
                Ok(
                    Report {
                        nbits,
                        number: reading_of(m as int, nbits as nat),
                        complement: reading_of(-(m as int), nbits as nat),
                    },
                )
            } else {
                Err(Error::OutOfRange)
            },
        }
    }
}

/// Every report that a computation comes to is well formed.
pub proof fn lemma_evaluation_well_formed(nbits: usize, text: Seq<char>)
    ensures
        evaluation(nbits, text) matches Ok(report) ==> report.well_formed(),
{
    if let Ok(report) = evaluation(nbits, text) {
        let k = nbits as nat;
        let m = literal_value(text).unwrap();
        let modulus = pow2(k) as int;
        lemma_valid_widths(k);
        lemma_pow2_bounds(k);
        lemma_pow2_bounds(128);
        lemma_mod_bound(m as int, modulus);
        lemma_mod_bound(-(m as int), modulus);
        lemma_mod_twice(m as int, modulus);
        lemma_mod_twice(-(m as int), modulus);
        lemma_signed_value_range(m as int, k);
        lemma_signed_value_range(-(m as int), k);
        lemma_negation_value(m, k);
        lemma_pattern_of_signed(-(m as int), k);
    }
}

impl Report {
    /// The number of hexadecimal digits that show every bit of the width.
    pub fn hex_digits(&self) -> (r: usize)
        ensures
            r == self.nbits / 4,
    {
        self.nbits / 4
    }
}

/// Reads a pattern for showing at the given width: its low `nbits` bits,
/// and its value as a signed number of the full precision, which for a
/// canonical pattern is its value at the width.
pub fn read_pattern(pattern: u128, nbits: usize) -> (r: Reading)
    requires
        1 <= nbits <= 128,
    ensures
        r.bits == (pattern as int) % (pow2(nbits as nat) as int),
        r.value == signed_value(pattern as int, 128),
{
    Reading { bits: low_bits(pattern, nbits), value: to_signed(pattern) }
}

/// Carries out a computation: checks the width, parses the literal, fits it
/// to the width, negates it, and reads both patterns for showing.
pub fn evaluate(nbits: usize, literal: &str) -> (r: Result<Report, Error>)
    ensures
        r == evaluation(nbits, literal@),
{
    match check_width(nbits) {
        Err(e) => {
            return Err(e);
        },
        Ok(_) => {},
    }
    proof {
        lemma_valid_widths(nbits as nat);
    }
    let magnitude = match parse_num(literal) {
        Err(e) => {
            return Err(e);
        },
        Ok(magnitude) => magnitude,
    };
    let number = match normalize(magnitude, nbits) {
        Err(e) => {
            return Err(e);
        },
        Ok(number) => number,
    };
    let negated = complement(number, nbits);
    proof {
        let k = nbits as nat;
        let m = magnitude as int;
        lemma_pow2_bounds(k);
        lemma_pow2_bounds(128);
        lemma_pattern_of_signed(m, k);
        lemma_congruent_flip(number as int, m, pow2(k) as int);
        lemma_signed_value_congruent(-(number as int), -m, k);
        lemma_pattern_of_signed(-m, k);
        lemma_signed_value_range(m, k);
        lemma_signed_value_range(-m, k);
    }
    Ok(Report { nbits, number: read_pattern(number, nbits), complement: read_pattern(negated, nbits) })
}

} // verus!
