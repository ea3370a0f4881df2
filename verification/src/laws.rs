//! What holds of sign extension, range checking and negation at every
//! width and for every pattern.

use vstd::prelude::*;
use vstd::arithmetic::div_mod::lemma_small_mod;
use vstd::arithmetic::power2::pow2;
use crate::bits::{lemma_pow2_128, lemma_pow2_bounds};
use crate::congruence::{
    lemma_congruent_by,
    lemma_congruent_chain,
    lemma_congruent_flip,
    lemma_pattern_of_signed,
    lemma_signed_value_congruent,
    lemma_signed_value_range,
    lemma_signed_value_unique,
};
use crate::error::Error;
use crate::literal::{is_negative, literal_value};
use crate::model::{
    canonical,
    fits,
    is_canonical,
    most_negative,
    negation,
    normalized,
    pattern_of,
    same_bits,
    signed_value,
};

verus! {

/// Sign extension and negation yield canonical patterns: extending their
/// results once more changes nothing.
pub proof fn lemma_results_are_canonical(p: u128, nbits: nat)
    requires
        1 <= nbits <= 128,
    ensures
        is_canonical(canonical(p, nbits), nbits),
        is_canonical(negation(p, nbits), nbits),
{
    lemma_pattern_of_signed(p as int, nbits);
    lemma_pattern_of_signed(-(p as int), nbits);
}

/// Two patterns are the same at a width exactly when their canonical
/// patterns are equal. A canonical pattern is the same, at its width, as
/// what it was made from.
pub proof fn lemma_canonical_decides_same_bits(a: u128, b: u128, nbits: nat)
    requires
        1 <= nbits <= 128,
    ensures
        same_bits(canonical(a, nbits), a, nbits),
        same_bits(a, b, nbits) <==> canonical(a, nbits) == canonical(b, nbits),
{
    lemma_pattern_of_signed(a as int, nbits);
    lemma_pattern_of_signed(b as int, nbits);
}

/// Below the full precision, the magnitudes that fit a width are those
/// that read, as signed numbers of the full precision, from `-2^(nbits-1)`
/// up to but not including `2^nbits`. At the full precision all fit.
pub proof fn lemma_fits_is_a_range(m: u128, nbits: nat)
    requires
        1 <= nbits <= 128,
    ensures
        nbits < 128 ==> (fits(m, nbits) <==> -pow2((nbits - 1) as nat) <= signed_value(
            m as int,
            128,
        ) < pow2(nbits)),
        nbits == 128 ==> fits(m, nbits),
{
    lemma_pow2_128();
    lemma_pow2_bounds(128);
    lemma_pow2_bounds(nbits);
    if nbits < 128 {
        lemma_pow2_bounds((nbits + 1) as nat);
    }
}

/// Fitting is idempotent: a canonical pattern always fits its width and
/// comes back unchanged, so fitting the result of a fit repeats that result.
pub proof fn lemma_normalize_idempotent(m: u128, nbits: nat)
    requires
        1 <= nbits <= 128,
    ensures
        normalized(canonical(m, nbits), nbits) == Ok::<u128, Error>(canonical(m, nbits)),
        normalized(m, nbits) matches Ok(e) ==> normalized(e, nbits) == normalized(m, nbits),
{
    lemma_pow2_bounds(nbits);
    lemma_signed_value_range(m as int, nbits);
    lemma_pattern_of_signed(m as int, nbits);
}

/// A canonical pattern, read as a signed number of the full precision,
/// shows the value it stands for at its own width.
pub proof fn lemma_canonical_reads_signed(p: u128, nbits: nat)
    requires
        1 <= nbits <= 128,
        is_canonical(p, nbits),
    ensures
        signed_value(p as int, 128) == signed_value(p as int, nbits),
{
    lemma_pattern_of_signed(p as int, nbits);
}

/// Negation negates: the value of the negated pattern is minus the value
/// of the pattern, except for the most negative value of the width, whose
/// negation is not representable and which is therefore left as it is.
pub proof fn lemma_negation_value(p: u128, nbits: nat)
    requires
        1 <= nbits <= 128,
    ensures
        signed_value(negation(p, nbits) as int, nbits) == (if signed_value(p as int, nbits)
            == most_negative(nbits) {
            most_negative(nbits)
        } else {
            -signed_value(p as int, nbits)
        }),
{
    let k = nbits;
    let modulus = pow2(k) as int;
    let w = signed_value(p as int, k);
    lemma_pow2_bounds(k);
    lemma_signed_value_range(p as int, k);
    lemma_pattern_of_signed(-(p as int), k);
    lemma_congruent_flip(w, p as int, modulus);
    if w == most_negative(k) {
        lemma_congruent_by(w, -w, modulus, -1);
        lemma_congruent_chain(w, -w, -(p as int), modulus);
        lemma_signed_value_unique(-(p as int), w, k);
    } else {
        lemma_signed_value_unique(-(p as int), -w, k);
    }
}

/// Negating twice restores a pattern: in general its canonical form, and
/// so the pattern itself where it was canonical. This holds of the most
/// negative value too, which each negation leaves in place.
pub proof fn lemma_double_complement(p: u128, nbits: nat)
    requires
        1 <= nbits <= 128,
    ensures
        negation(negation(p, nbits), nbits) == canonical(p, nbits),
        is_canonical(p, nbits) ==> negation(negation(p, nbits), nbits) == p,
{
    let once = negation(p, nbits);
    lemma_pow2_bounds(nbits);
    lemma_pattern_of_signed(-(p as int), nbits);
    lemma_congruent_flip(once as int, -(p as int), pow2(nbits) as int);
    lemma_signed_value_congruent(-(once as int), p as int, nbits);
}

/// The most negative value of a width is its own negation. Its pattern has
/// bit `nbits - 1` set and the bits below clear; whatever stands above
/// them, negation gives the canonical pattern of the same value, whose low
/// `nbits` bits are again `2^(nbits-1)`.
pub proof fn lemma_most_negative_fixed_point(p: u128, nbits: nat)
    requires
        1 <= nbits <= 128,
        (p as int) % (pow2(nbits) as int) == pow2((nbits - 1) as nat),
    ensures
        signed_value(p as int, nbits) == most_negative(nbits),
        negation(p, nbits) == canonical(p, nbits),
        negation(p, nbits) == pattern_of(most_negative(nbits)),
        (negation(p, nbits) as int) % (pow2(nbits) as int) == pow2((nbits - 1) as nat),
        is_canonical(p, nbits) ==> negation(p, nbits) == p,
{
    lemma_pow2_bounds(nbits);
    lemma_negation_value(p, nbits);
    lemma_results_are_canonical(p, nbits);
    lemma_pattern_of_signed(p as int, nbits);
}

/// The pattern `1 << (nbits - 1)` stands for the most negative value of
/// the width, and negating it gives back a pattern with the same low
/// `nbits` bits; at the full precision that is the pattern itself.
pub proof fn lemma_sign_bit_alone(nbits: nat)
    requires
        1 <= nbits <= 128,
    ensures
        ({
            let p = pow2((nbits - 1) as nat) as u128;
            &&& p == pow2((nbits - 1) as nat)
            &&& signed_value(p as int, nbits) == most_negative(nbits)
            &&& same_bits(negation(p, nbits), p, nbits)
            &&& nbits == 128 ==> negation(p, nbits) == p
        }),
{
    let half = pow2((nbits - 1) as nat);
    lemma_pow2_bounds(nbits);
    lemma_pow2_bounds((nbits - 1) as nat);
    lemma_pow2_128();
    lemma_small_mod(half, pow2(nbits));
    lemma_most_negative_fixed_point(half as u128, nbits);
}

/// A minus sign in front of an unsigned literal negates what the literal
/// denotes, modulo `2^128`, and changes nothing else. So a literal that
/// denotes zero still denotes zero with a minus sign in front.
pub proof fn lemma_minus_sign(text: Seq<char>)
    requires
        !is_negative(text),
    ensures
        literal_value(seq!['-'] + text) == (match literal_value(text) {
            Ok(m) => Ok(pattern_of(-(m as int))),
            Err(e) => Err(e),
        }),
        literal_value(text) == Ok::<u128, Error>(0) ==> literal_value(seq!['-'] + text) == Ok::<
            u128,
            Error,
        >(0),
{
    let signed = seq!['-'] + text;
    assert(signed.skip(1) =~= text);
}

} // verus!
