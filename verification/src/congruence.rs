//! Congruence modulo a power of two, and what it says of signed values.

use vstd::prelude::*;
use vstd::arithmetic::div_mod::{
    lemma_fundamental_div_mod,
    lemma_fundamental_div_mod_converse_mod,
    lemma_mod_bound,
};
use vstd::arithmetic::power2::{
    lemma_pow2_adds,
    lemma_pow2_pos,
    lemma_pow2_strictly_increases,
    lemma_pow2_unfold,
    pow2,
};
use crate::bits::lemma_pow2_128;
use crate::model::{modulus, pattern_of, signed_value};

verus! {

/// Whether `a` and `b` differ by a multiple of `m`.
pub open spec fn congruent(a: int, b: int, m: int) -> bool {
    (a - b) % m == 0
}

/// A difference of `t * m` makes two numbers congruent modulo `m`.
pub proof fn lemma_congruent_by(a: int, b: int, m: int, t: int)
    requires
        m > 0,
        a - b == t * m,
    ensures
        congruent(a, b, m),
{
    lemma_fundamental_div_mod_converse_mod(a - b, m, t, 0);
}

/// Congruent numbers differ by the multiple of `m` that is returned.
pub proof fn lemma_congruent_gap(a: int, b: int, m: int) -> (t: int)
    requires
        m > 0,
        congruent(a, b, m),
    ensures
        a - b == t * m,
{
    lemma_fundamental_div_mod(a - b, m);
    let t = (a - b) / m;
    assert(m * t == t * m) by (nonlinear_arith);
    t
}

/// Congruence modulo `m` passes along a chain of three numbers.
pub proof fn lemma_congruent_chain(a: int, b: int, c: int, m: int)
    requires
        m > 0,
        congruent(a, b, m),
        congruent(b, c, m),
    ensures
        congruent(a, c, m),
{
    let s = lemma_congruent_gap(a, b, m);
    let t = lemma_congruent_gap(b, c, m);
    assert((s + t) * m == s * m + t * m) by (nonlinear_arith);
    lemma_congruent_by(a, c, m, s + t);
}

/// Congruence modulo `m` survives negating and swapping both sides.
pub proof fn lemma_congruent_flip(a: int, b: int, m: int)
    requires
        m > 0,
        congruent(a, b, m),
    ensures
        congruent(-a, -b, m),
        congruent(b, a, m),
{
    let t = lemma_congruent_gap(a, b, m);
    assert((-t) * m == -(t * m)) by (nonlinear_arith);
    lemma_congruent_by(-a, -b, m, -t);
    lemma_congruent_by(b, a, m, -t);
}

/// Congruent numbers leave the same remainder.
pub proof fn lemma_congruent_remainder(a: int, b: int, m: int)
    requires
        m > 0,
        congruent(a, b, m),
    ensures
        a % m == b % m,
{
    let t = lemma_congruent_gap(a, b, m);
    lemma_fundamental_div_mod(b, m);
    lemma_mod_bound(b, m);
    let q = b / m;
    assert((t + q) * m == t * m + m * q) by (nonlinear_arith);
    lemma_fundamental_div_mod_converse_mod(a, m, t + q, b % m);
}

/// Numbers congruent modulo `2^128` are congruent modulo every `2^k` with
/// `k` up to 128.
pub proof fn lemma_congruent_narrow(a: int, b: int, k: nat)
    requires
        k <= 128,
        congruent(a, b, modulus()),
    ensures
        congruent(a, b, pow2(k) as int),
{
    let p = pow2(k) as int;
    let q = pow2((128 - k) as nat) as int;
    lemma_pow2_pos(k);
    lemma_pow2_128();
    lemma_pow2_adds(k, (128 - k) as nat);
    let t = lemma_congruent_gap(a, b, modulus());
    assert(t * (p * q) == (t * q) * p) by (nonlinear_arith);
    lemma_congruent_by(a, b, p, t * q);
}

/// A pattern is congruent modulo `2^128` to the integer it stands for.
pub proof fn lemma_pattern_congruent(v: int)
    ensures
        congruent(pattern_of(v) as int, v, modulus()),
{
    let m = modulus();
    lemma_fundamental_div_mod(v, m);
    let q = v / m;
    assert(-(m * q) == (-q) * m) by (nonlinear_arith);
    lemma_congruent_by(pattern_of(v) as int, v, m, -q);
}

/// The signed value of `v` at `k` bits lies in `[-2^(k-1), 2^(k-1))` and is
/// congruent to `v` modulo `2^k`.
pub proof fn lemma_signed_value_range(v: int, k: nat)
    requires
        k >= 1,
    ensures
        -pow2((k - 1) as nat) <= signed_value(v, k) < pow2((k - 1) as nat),
        congruent(signed_value(v, k), v, pow2(k) as int),
{
    let p = pow2(k) as int;
    lemma_pow2_pos(k);
    lemma_pow2_unfold(k);
    lemma_fundamental_div_mod(v, p);
    let q = v / p;
    let low = v % p;
    lemma_mod_bound(v, p);
    assert(-(p * q) == (-q) * p && -(p * q) - p == (-q - 1) * p) by (nonlinear_arith);
    if low < pow2((k - 1) as nat) {
        lemma_congruent_by(signed_value(v, k), v, p, -q);
    } else {
        lemma_congruent_by(signed_value(v, k), v, p, -q - 1);
    }
}

/// The signed value of `v` at `k` bits is the only number of
/// `[-2^(k-1), 2^(k-1))` congruent to `v` modulo `2^k`.
pub proof fn lemma_signed_value_unique(v: int, a: int, k: nat)
    requires
        k >= 1,
        -pow2((k - 1) as nat) <= a < pow2((k - 1) as nat),
        congruent(a, v, pow2(k) as int),
    ensures
        signed_value(v, k) == a,
{
    let p = pow2(k) as int;
    lemma_pow2_pos(k);
    lemma_pow2_unfold(k);
    lemma_congruent_flip(a, v, p);
    let t = lemma_congruent_gap(v, a, p);
    if a >= 0 {
        lemma_fundamental_div_mod_converse_mod(v, p, t, a);
    } else {
        assert((t - 1) * p == t * p - p) by (nonlinear_arith);
        lemma_fundamental_div_mod_converse_mod(v, p, t - 1, a + p);
    }
}

/// Numbers congruent modulo `2^k` have the same signed value at `k` bits.
pub proof fn lemma_signed_value_congruent(a: int, b: int, k: nat)
    requires
        k >= 1,
        congruent(a, b, pow2(k) as int),
    ensures
        signed_value(a, k) == signed_value(b, k),
{
    lemma_pow2_pos(k);
    lemma_congruent_remainder(a, b, pow2(k) as int);
}

/// Reading back the pattern of a number that `k` bits can hold gives that
/// number again.
pub proof fn lemma_signed_value_of_pattern(w: int, k: nat)
    requires
        1 <= k <= 128,
        -pow2((k - 1) as nat) <= w < pow2((k - 1) as nat),
    ensures
        signed_value(pattern_of(w) as int, k) == w,
{
    lemma_pow2_pos(k);
    lemma_pattern_congruent(w);
    lemma_congruent_narrow(pattern_of(w) as int, w, k);
    lemma_congruent_flip(pattern_of(w) as int, w, pow2(k) as int);
    lemma_signed_value_unique(pattern_of(w) as int, w, k);
}

/// The pattern of the signed value of `v` at `k` bits agrees with `v` in its
/// low `k` bits, and reads as that signed value both at `k` bits and at the
/// full precision.
pub proof fn lemma_pattern_of_signed(v: int, k: nat)
    requires
        1 <= k <= 128,
    ensures
        ({
            let w = signed_value(v, k);
            let c = pattern_of(w) as int;
            &&& congruent(c, v, pow2(k) as int)
            &&& c % (pow2(k) as int) == v % (pow2(k) as int)
            &&& signed_value(c, k) == w
            &&& signed_value(c, 128) == w
        }),
{
    let w = signed_value(v, k);
    let c = pattern_of(w) as int;
    let p = pow2(k) as int;
    lemma_pow2_pos(k);
    lemma_signed_value_range(v, k);
    lemma_pattern_congruent(w);
    lemma_congruent_narrow(c, w, k);
    lemma_congruent_chain(c, w, v, p);
    lemma_congruent_remainder(c, v, p);
    lemma_signed_value_of_pattern(w, k);
    if k < 128 {
        lemma_pow2_strictly_increases((k - 1) as nat, 127);
    }
    lemma_signed_value_of_pattern(w, 128);
}

} // verus!
