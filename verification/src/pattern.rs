//! Sign extension, range checking and negation of bit patterns.
//!
//! A pattern is held in a `u128` whatever the width. It is canonical for a
//! width of `n` bits when the bits from `n` upwards all repeat bit `n - 1`;
//! read as a signed 128-bit number it then shows the value it stands for.

use vstd::prelude::*;
use vstd::arithmetic::power2::pow2;
use crate::bits::{lemma_mask, lemma_pow2_128, lemma_pow2_bounds, low_mask};
use crate::congruence::{
    lemma_congruent_by,
    lemma_congruent_narrow,
    lemma_pattern_congruent,
    lemma_signed_value_congruent,
    lemma_signed_value_range,
    lemma_signed_value_unique,
};
use crate::error::Error;
use crate::model::{canonical, fits, modulus, negation, normalized, pattern_of, signed_value};

verus! {

/// Rewrites `n` as the canonical pattern of its low `nbits` bits: where bit
/// `nbits - 1` is set, every higher bit is set as well, and otherwise every
/// higher bit is cleared. The result stands for the signed value of those
/// low bits.
pub fn signextend(n: u128, nbits: usize) -> (r: u128)
    requires
        1 <= nbits <= 128,
    ensures
        r == canonical(n, nbits as nat),
{
    let mask = !0u128 >> (128 - nbits);
    let neg = (n >> (nbits - 1)) & 0b1 == 1;
    proof {
        assert(!0u128 == u128::MAX) by (bit_vector);
        assert(mask == low_mask(nbits as u128));
        lemma_mask(n, nbits as u128);
        lemma_pow2_bounds(nbits as nat);
    }
    if neg {
        n | !mask
    } else {
        n & mask
    }
}

/// Negates a pattern at full precision: every bit is flipped and one is
/// added, with wraparound. The result stands for `-n` modulo `2^128`, so
/// zero is its own negation.
pub fn twoscomp(n: u128) -> (r: u128)
    ensures
        r == pattern_of(-(n as int)),
        r == (if n == 0 { 0 } else { modulus() - n }),
{
    let onescomp = !n;
    assert(onescomp == u128::MAX - n) by (bit_vector)
        requires
            onescomp == !n,
    ;
    onescomp.wrapping_add(1)
}

/// Fits a parsed magnitude to a width of `nbits` bits. A magnitude whose set
/// bits all lie below bit `nbits` is taken as it stands, even where bit
/// `nbits - 1` makes it the pattern of a negative number; one that is
/// already the canonical pattern of a negative number is taken too. Any
/// other is out of range.
pub fn normalize(magnitude: u128, nbits: usize) -> (r: Result<u128, Error>)
    requires
        1 <= nbits <= 128,
    ensures
        r == normalized(magnitude, nbits as nat),
{
    let extended = signextend(magnitude, nbits);
    proof {
        lemma_fits_by_bits(magnitude, nbits as nat);
        lemma_mask(magnitude, nbits as u128);
    }
    if magnitude != extended && magnitude >> nbits != 0 {
        Err(Error::OutOfRange)
    } else {
        Ok(extended)
    }
}

/// Negates a canonical pattern within its width: the full-precision
/// negation, brought back to canonical form. The most negative value of the
/// width comes back unchanged, since its negation is not representable.
pub fn complement(pattern: u128, nbits: usize) -> (r: u128)
    requires
        1 <= nbits <= 128,
    ensures
        r == negation(pattern, nbits as nat),
{
    let negated = twoscomp(pattern);
    proof {
        let k = nbits as nat;
        let v = -(pattern as int);
        lemma_pattern_congruent(v);
        lemma_congruent_narrow(negated as int, v, k);
        lemma_signed_value_congruent(negated as int, v, k);
    }
    signextend(negated, nbits)
}

/// The low `nbits` bits of a pattern, the part that is shown in
/// hexadecimal or binary: the pattern modulo `2^nbits`.
pub fn low_bits(pattern: u128, nbits: usize) -> (r: u128)
    requires
        1 <= nbits <= 128,
    ensures
        r == (pattern as int) % (pow2(nbits as nat) as int),
{
    let mask = !0u128 >> (128 - nbits);
    proof {
        assert(!0u128 == u128::MAX) by (bit_vector);
        assert(mask == low_mask(nbits as u128));
        lemma_mask(pattern, nbits as u128);
    }
    pattern & mask
}

/// Reads a pattern as a signed number of the full precision. For a pattern
/// that is canonical at some width this is the value it stands for there.
pub fn to_signed(pattern: u128) -> (r: i128)
    ensures
        r == signed_value(pattern as int, 128),
        r == (if pattern <= i128::MAX { pattern as int } else { pattern - modulus() }),
{
    let r = #[verifier::truncate] (pattern as i128);
    proof {
        assert(r == (if pattern < 0x8000_0000_0000_0000_0000_0000_0000_0000u128 {
            pattern as int
        } else {
            pattern - 0x1_0000_0000_0000_0000_0000_0000_0000_0000int
        })) by (bit_vector)
            requires
                r == pattern as i128,
        ;
        lemma_pow2_128();
        lemma_pow2_bounds(128);
    }
    r
}

/// A magnitude fits a width exactly when it is below `2^nbits` or is its
/// own canonical pattern.
proof fn lemma_fits_by_bits(m: u128, nbits: nat)
    requires
        1 <= nbits <= 128,
    ensures
        fits(m, nbits) <==> (m < pow2(nbits) || canonical(m, nbits) == m),
        nbits == 128 ==> canonical(m, nbits) == m,
{
    lemma_pow2_bounds(nbits);
    lemma_pow2_128();
    lemma_signed_value_range(m as int, nbits);
    if m >= pow2(nbits) && m - modulus() >= -pow2((nbits - 1) as nat) {
        lemma_congruent_by(m - modulus(), m as int, modulus(), -1);
        lemma_congruent_narrow(m - modulus(), m as int, nbits);
        lemma_signed_value_unique(m as int, m - modulus(), nbits);
    }
}

} // verus!
