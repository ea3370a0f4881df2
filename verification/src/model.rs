//! The arithmetic that the bit patterns stand for.
//!
//! A pattern is a `u128`. Its meaning at a width of `n` bits is the integer
//! in `[-2^(n-1), 2^(n-1))` that agrees with it modulo `2^n`.

use vstd::prelude::*;
use vstd::arithmetic::power2::pow2;
use crate::error::Error;

verus! {

/// `2^128`, the number of distinct patterns.
pub open spec fn modulus() -> int {
    0x1_0000_0000_0000_0000_0000_0000_0000_0000int
}

/// The integer that `v` denotes when only its low `nbits` bits count and
/// bit `nbits - 1` is the sign: the one member of `[-2^(nbits-1), 2^(nbits-1))`
/// congruent to `v` modulo `2^nbits`.
pub open spec fn signed_value(v: int, nbits: nat) -> int
    recommends
        nbits >= 1,
{
    let low = v % (pow2(nbits) as int);
    if low < pow2((nbits - 1) as nat) {
        low
    } else {
        low - pow2(nbits)
    }
}

/// The 128-bit pattern that stands for the integer `v`: `v` modulo `2^128`.
pub open spec fn pattern_of(v: int) -> u128 {
    (v % modulus()) as u128
}

/// Whether the magnitude `m` can be taken for a number of `nbits` bits:
/// either it is an unsigned number below `2^nbits`, or it is already the
/// 128-bit pattern of a negative number no lower than `-2^(nbits-1)`.
pub open spec fn fits(m: u128, nbits: nat) -> bool
    recommends
        nbits >= 1,
{
    m < pow2(nbits) || m - modulus() >= -pow2((nbits - 1) as nat)
}

/// Whether two patterns are the same at a width of `nbits` bits: their low
/// `nbits` bits agree, whatever stands above them.
pub open spec fn same_bits(a: u128, b: u128, nbits: nat) -> bool {
    (a as int) % (pow2(nbits) as int) == (b as int) % (pow2(nbits) as int)
}

/// The canonical pattern of `n` at a width of `nbits` bits: the pattern of
/// the signed value of its low `nbits` bits.
pub open spec fn canonical(n: u128, nbits: nat) -> u128
    recommends
        nbits >= 1,
{
    pattern_of(signed_value(n as int, nbits))
}

/// Whether `p` is its own canonical pattern at a width of `nbits` bits.
pub open spec fn is_canonical(p: u128, nbits: nat) -> bool
    recommends
        nbits >= 1,
{
    canonical(p, nbits) == p
}

/// The canonical pattern of `-p` at a width of `nbits` bits.
pub open spec fn negation(p: u128, nbits: nat) -> u128
    recommends
        nbits >= 1,
{
    pattern_of(signed_value(-(p as int), nbits))
}

/// The outcome of fitting the magnitude `m` to a width of `nbits` bits.
pub open spec fn normalized(m: u128, nbits: nat) -> Result<u128, Error>
    recommends
        nbits >= 1,
{
    if fits(m, nbits) {
        Ok(canonical(m, nbits))
    } else {
        Err(Error::OutOfRange)
    }
}

/// The most negative value of `nbits` bits, `-2^(nbits-1)`, which has no
/// positive counterpart at that width.
pub open spec fn most_negative(nbits: nat) -> int
    recommends
        nbits >= 1,
{
    -(pow2((nbits - 1) as nat) as int)
}

} // verus!
