//! Shifts and masks on `u128`, restated as arithmetic.
//!
//! The solver for bit vectors knows what `<<`, `>>`, `&` and `|` do but
//! nothing of `2^k`; the ordinary solver is the other way round. The lemmas
//! here carry facts from the first to the second, so that the functions on
//! patterns can be specified over the integers.

use vstd::prelude::*;
use vstd::arithmetic::div_mod::lemma_fundamental_div_mod_converse;
use vstd::arithmetic::power2::{
    lemma2_to64,
    lemma_pow2_adds,
    lemma_pow2_pos,
    lemma_pow2_strictly_increases,
    lemma_pow2_unfold,
    pow2,
};
use crate::model::modulus;

verus! {

/// The pattern whose low `k` bits are set and whose other bits are clear.
pub open spec fn low_mask(k: u128) -> u128
    recommends
        1 <= k <= 128,
{
    u128::MAX >> ((128 - k) as u128)
}

/// `2^128` is the modulus of the patterns.
pub proof fn lemma_pow2_128()
    ensures
        pow2(128) == modulus(),
{
    lemma2_to64();
    lemma_pow2_adds(64, 64);
}

/// Every power of two up to the 128th is positive and at most the modulus.
pub proof fn lemma_pow2_bounds(k: nat)
    requires
        k <= 128,
    ensures
        0 < pow2(k) <= modulus(),
        k < 128 ==> 2 * pow2(k) <= modulus(),
        k >= 1 ==> pow2(k) == 2 * pow2((k - 1) as nat),
{
    lemma_pow2_pos(k);
    lemma_pow2_128();
    if k < 128 {
        lemma_pow2_unfold(k + 1);
        if k + 1 < 128 {
            lemma_pow2_strictly_increases(k + 1, 128);
        }
    }
    if k >= 1 {
        lemma_pow2_unfold(k);
    }
}

/// Shifting one to the left by `k` gives `2^k`.
pub proof fn lemma_shl_one(k: u128)
    requires
        k < 128,
    ensures
        (1u128 << k) == pow2(k as nat),
    decreases k,
{
    if k == 0 {
        assert((1u128 << 0u128) == 1) by (bit_vector);
        lemma2_to64();
    } else {
        let j = (k - 1) as u128;
        lemma_shl_one(j);
        assert((1u128 << k) == 2 * (1u128 << j)) by (bit_vector)
            requires
                k == j + 1,
                k < 128,
        ;
        lemma_pow2_unfold(k as nat);
    }
}

/// Shifting `x` to the left by `k` multiplies it by `2^k`, as long as no
/// set bit is pushed out.
pub proof fn lemma_shl_is_mul(x: u128, k: u128)
    requires
        k < 128,
        x <= (u128::MAX >> k),
    ensures
        (x << k) == x * pow2(k as nat),
    decreases k,
{
    if k == 0 {
        assert((x << 0u128) == x) by (bit_vector);
        lemma2_to64();
        assert(x * 1 == x);
    } else {
        let j = (k - 1) as u128;
        assert(x <= (u128::MAX >> j) && (x << k) == 2 * (x << j)) by (bit_vector)
            requires
                k == j + 1,
                k < 128,
                x <= (u128::MAX >> k),
        ;
        lemma_shl_is_mul(x, j);
        lemma_pow2_unfold(k as nat);
        let pj = pow2(j as nat) as int;
        let pk = pow2(k as nat) as int;
        assert(x * pk == 2 * (x * pj)) by (nonlinear_arith)
            requires
                pk == 2 * pj,
        ;
    }
}

/// What the mask of `k` bits does to a pattern `n`: and-ing with it leaves
/// `n mod 2^k`, or-ing with its inverse raises that remainder by
/// `2^128 - 2^k`, and bit `k - 1` tells whether the remainder reaches
/// `2^(k-1)`. Below the full precision, the bits from `k` upwards tell
/// whether `n` itself reaches `2^k`.
pub proof fn lemma_mask(n: u128, k: u128)
    requires
        1 <= k <= 128,
    ensures
        (n & low_mask(k)) == (n as int) % (pow2(k as nat) as int),
        (n | !low_mask(k)) == (n as int) % (pow2(k as nat) as int) + modulus() - pow2(k as nat),
        ((n >> ((k - 1) as u128)) & 1) == 1 <==> (n as int) % (pow2(k as nat) as int) >= pow2(
            (k - 1) as nat,
        ),
        k < 128 ==> ((n >> k) != 0 <==> n >= pow2(k as nat)),
{
    let mask = low_mask(k);
    let s = (128 - k) as u128;
    let j = (k - 1) as u128;
    let lo = n & mask;
    let half = 1u128 << j;
    assert((n | !mask) == lo + (u128::MAX - mask) && (((n >> j) & 1) == 1 <==> lo >= half))
        by (bit_vector)
        requires
            1 <= k <= 128,
            s + k == 128,
            j + 1 == k,
            mask == u128::MAX >> s,
            lo == n & mask,
            half == 1u128 << j,
    ;
    lemma_shl_one(j);
    lemma_pow2_128();
    if k < 128 {
        let hi = n >> k;
        let span = 1u128 << k;
        assert(mask + 1 == span && lo < span && hi <= (u128::MAX >> k) && n == (hi << k) + lo
            && (hi != 0 <==> n >= span)) by (bit_vector)
            requires
                1 <= k < 128,
                s + k == 128,
                mask == u128::MAX >> s,
                hi == n >> k,
                lo == n & mask,
                span == 1u128 << k,
        ;
        lemma_shl_one(k);
        lemma_shl_is_mul(hi, k);
        lemma_fundamental_div_mod_converse(n as int, pow2(k as nat) as int, hi as int, lo as int);
    } else {
        assert(mask == u128::MAX && lo == n) by (bit_vector)
            requires
                mask == u128::MAX >> 0u128,
                lo == n & mask,
        ;
    }
}

} // verus!
