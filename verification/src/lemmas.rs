//! Arithmetic facts about the reduction that the contracts rest on.

use vstd::prelude::*;
use vstd::arithmetic::div_mod::{
    lemma_fundamental_div_mod, lemma_fundamental_div_mod_converse, lemma_mod_multiples_vanish,
};
use crate::montgomery::{
    canonicalize_spec, centered_residue, fits_residue, in_accumulator_range, in_reduce_range,
    montgomery_reduce_spec, reduction_factor, to_montgomery_spec, KYBER_Q, Q_INV, R, R_SQUARED,
};

verus! {

/// Whether `x` and `y` leave the same remainder modulo `KYBER_Q`.
pub open spec fn congruent(x: int, y: int) -> bool {
    (x - y) % (KYBER_Q as int) == 0
}

/// How many times `R` is taken from `x` to reach its centered residue.
pub open spec fn centered_carry(x: int) -> int {
    if x % (R as int) < R / 2 {
        x / (R as int)
    } else {
        x / (R as int) + 1
    }
}

/// The centered residue differs from `x` by a multiple of `R` and fits in 16 bits.
pub proof fn lemma_centered_split(x: int)
    ensures
        centered_residue(x) == x - R * centered_carry(x),
        fits_residue(centered_residue(x)),
{
    lemma_fundamental_div_mod(x, 65536);
}

/// The centered residue depends on `x` modulo `R` alone.
pub proof fn lemma_centered_shift(x: int, k: int)
    ensures
        centered_residue(x + R * k) == centered_residue(x),
{
    lemma_mod_multiples_vanish(k, x, 65536);
}

/// A value that fits in 16 bits is its own centered residue.
pub proof fn lemma_centered_small(x: int)
    requires
        fits_residue(x),
    ensures
        centered_residue(x) == x,
{
    if x >= 0 {
        lemma_fundamental_div_mod_converse(x, 65536, 0, x);
    } else {
        lemma_fundamental_div_mod_converse(x, 65536, -1, x + 65536);
    }
}

/// Truncating `a` to 16 bits before the multiplication by `Q_INV` does not change
/// the factor: it depends on `a` modulo `R` alone.
pub proof fn lemma_centered_factor(a: int)
    ensures
        centered_residue(centered_residue(a) * Q_INV) == reduction_factor(a),
{
    lemma_centered_split(a);
    let k: int = centered_carry(a);
    let c: int = centered_residue(a);
    assert(c * Q_INV == a * Q_INV + R * (3327 * k)) by (nonlinear_arith)
        requires c == a - 65536 * k, Q_INV == -3327, R == 65536;
    lemma_centered_shift(a * Q_INV, 3327 * k);
}

/// The reduction divides exactly: `a - reduction_factor(a) * KYBER_Q` is `R` times
/// the reduction of `a`. The reduction is congruent to `169 * a`, where 169 is the
/// inverse of `R` modulo `KYBER_Q`, and its size follows from that of `a`.
pub proof fn lemma_reduce_exact(a: int)
    ensures
        montgomery_reduce_spec(a) * R == a - reduction_factor(a) * KYBER_Q,
        congruent(montgomery_reduce_spec(a) * R, a),
        congruent(montgomery_reduce_spec(a), 169 * a),
        in_reduce_range(a) ==> -KYBER_Q < montgomery_reduce_spec(a) < KYBER_Q,
        in_accumulator_range(a) ==> fits_residue(montgomery_reduce_spec(a)),
{
    lemma_centered_split(a * Q_INV);
    let m: int = reduction_factor(a);
    let j: int = centered_carry(a * Q_INV);
    assert(m == a * -3327 - 65536 * j);
    let t: int = a - m * KYBER_Q;
    let q: int = 169 * a + 3329 * j;
    assert(t == q * 65536);
    lemma_fundamental_div_mod_converse(t, 65536, q, 0);
    assert(montgomery_reduce_spec(a) == q);
    lemma_fundamental_div_mod_converse(q * R - a, 3329, -m, 0);
    lemma_fundamental_div_mod_converse(q - 169 * a, 3329, j, 0);
}

/// The reduction of `a` as 32-bit wrapping arithmetic computes it: from the
/// difference `t`, which may have wrapped once, the quotient by `R` has the
/// centered residue of the reduction.
pub proof fn lemma_reduce_wrapped(a: int, t: int)
    requires
        t == a - reduction_factor(a) * KYBER_Q
            || t == a - reduction_factor(a) * KYBER_Q - 0x1_0000_0000
            || t == a - reduction_factor(a) * KYBER_Q + 0x1_0000_0000,
    ensures
        centered_residue(t / (R as int)) == centered_residue(montgomery_reduce_spec(a)),
        fits_residue(montgomery_reduce_spec(a)) ==> centered_residue(t / (R as int))
            == montgomery_reduce_spec(a),
{
    lemma_reduce_exact(a);
    let q: int = montgomery_reduce_spec(a);
    let exact: int = a - reduction_factor(a) * KYBER_Q;
    let w: int = if t == exact { 0 } else if t == exact - 0x1_0000_0000 { -1 } else { 1 };
    assert(t == (q + 65536 * w) * 65536);
    lemma_fundamental_div_mod_converse(t, 65536, q + 65536 * w, 0);
    lemma_centered_shift(q, w);
    if fits_residue(q) {
        lemma_centered_small(q);
    }
}

/// Congruence modulo `KYBER_Q` is kept by multiplication with `c`.
pub proof fn lemma_scale_congruence(x: int, y: int, c: int)
    requires
        congruent(x, y),
    ensures
        congruent(c * x, c * y),
{
    lemma_fundamental_div_mod(x - y, 3329);
    let k: int = (x - y) / 3329;
    assert(c * x - c * y == (c * k) * 3329) by (nonlinear_arith)
        requires x - y == 3329 * k;
    lemma_fundamental_div_mod_converse(c * x - c * y, 3329, c * k, 0);
}

/// Two congruent values leave the same remainder modulo `KYBER_Q`.
pub proof fn lemma_congruent_remainders(x: int, y: int)
    requires
        congruent(x, y),
    ensures
        x % (KYBER_Q as int) == y % (KYBER_Q as int),
{
    lemma_fundamental_div_mod(x - y, 3329);
    lemma_fundamental_div_mod(y, 3329);
    lemma_fundamental_div_mod_converse(x, 3329, (x - y) / 3329 + y / 3329, y % 3329);
}

/// Values that differ by a multiple of `KYBER_Q` are congruent.
pub proof fn lemma_congruent_multiple(x: int, y: int, k: int)
    requires
        x - y == k * KYBER_Q,
    ensures
        congruent(x, y),
{
    lemma_fundamental_div_mod_converse(x - y, 3329, k, 0);
}

/// Congruence modulo `KYBER_Q` is transitive.
pub proof fn lemma_congruent_chain(x: int, y: int, z: int)
    requires
        congruent(x, y),
        congruent(y, z),
    ensures
        congruent(x, z),
{
    lemma_fundamental_div_mod(x - y, 3329);
    lemma_fundamental_div_mod(y - z, 3329);
    lemma_congruent_multiple(x, z, (x - y) / 3329 + (y - z) / 3329);
}

/// The Montgomery form of `a` is congruent to `a * R` and strictly between
/// `-KYBER_Q` and `KYBER_Q` for every `a` of 16 bits.
pub proof fn lemma_to_montgomery(a: int)
    ensures
        congruent(to_montgomery_spec(a), a * R),
        fits_residue(a) ==> in_reduce_range(a * R_SQUARED),
        fits_residue(a) ==> -KYBER_Q < to_montgomery_spec(a) < KYBER_Q,
{
    lemma_reduce_exact(a * R_SQUARED);
    lemma_congruent_multiple(169 * (a * R_SQUARED), a * R, 49 * a);
    lemma_congruent_chain(to_montgomery_spec(a), 169 * (a * R_SQUARED), a * R);
}

/// One conditional addition or subtraction of `KYBER_Q` keeps the residue, and
/// reaches the canonical one from `[-KYBER_Q, 2 * KYBER_Q)`.
pub proof fn lemma_canonicalize(r: int)
    ensures
        canonicalize_spec(r) % (KYBER_Q as int) == r % (KYBER_Q as int),
        -KYBER_Q <= r < 2 * KYBER_Q ==> canonicalize_spec(r) == r % (KYBER_Q as int),
{
    let c: int = canonicalize_spec(r);
    let k: int = if r < 0 { 1 } else if r >= KYBER_Q { -1 } else { 0 };
    lemma_congruent_multiple(c, r, k);
    lemma_congruent_remainders(c, r);
    if -KYBER_Q <= r < 2 * KYBER_Q {
        lemma_fundamental_div_mod_converse(c, 3329, 0, c);
    }
}

/// The remainder that takes the sign of the dividend is congruent to the
/// dividend and strictly between `-KYBER_Q` and `KYBER_Q`.
pub proof fn lemma_truncated_remainder(x: int, y: int)
    requires
        x >= 0 ==> y == x % (KYBER_Q as int),
        x < 0 ==> y == -((-x) % (KYBER_Q as int)),
    ensures
        congruent(y, x),
        -KYBER_Q < y < KYBER_Q,
{
    if x >= 0 {
        lemma_fundamental_div_mod(x, 3329);
        lemma_congruent_multiple(y, x, -(x / 3329));
    } else {
        lemma_fundamental_div_mod(-x, 3329);
        lemma_congruent_multiple(y, x, (-x) / 3329);
    }
}

/// The product of a 16-bit value and a remainder is a supported accumulator.
pub proof fn lemma_mul_bound(a: int, s: int)
    requires
        fits_residue(a),
        -KYBER_Q < s < KYBER_Q,
    ensures
        in_reduce_range(a * s),
{
    assert(-32768 * 3328 <= a * s <= 32768 * 3328) by (nonlinear_arith)
        requires -32768 <= a < 32768, -3329 < s < 3329;
}

/// Reducing `a` times a value congruent to `b * R` gives a value congruent to `a * b`.
pub proof fn lemma_scaled_product(a: int, b: int, s: int)
    requires
        congruent(s, b * R),
    ensures
        congruent(montgomery_reduce_spec(a * s), a * b),
{
    lemma_reduce_exact(a * s);
    lemma_scale_congruence(s, b * R, 169 * a);
    assert((169 * a) * s == 169 * (a * s)) by (nonlinear_arith);
    assert((169 * a) * (b * R) - a * b == (3327 * (a * b)) * KYBER_Q) by (nonlinear_arith)
        requires R == 65536, KYBER_Q == 3329;
    lemma_congruent_multiple((169 * a) * (b * R), a * b, 3327 * (a * b));
    lemma_congruent_chain(montgomery_reduce_spec(a * s), 169 * (a * s), (169 * a) * (b * R));
    lemma_congruent_chain(montgomery_reduce_spec(a * s), (169 * a) * (b * R), a * b);
}

} // verus!
