//! Montgomery reduction and multiplication modulo `KYBER_Q` with radix `R`.
//!
//! Residues are 16-bit signed integers and accumulators 32-bit signed integers.
//! A residue `a` has the Montgomery form `a * R` modulo `KYBER_Q`. Reducing an
//! accumulator `a` divides it by `R` modulo `KYBER_Q` without a division: with
//! `m` the 16-bit value congruent to `a * Q_INV` modulo `R`, the difference
//! `a - m * KYBER_Q` is a multiple of `R`, and its quotient by `R` is the result.
//!
//! The reduction keeps a signed representative, strictly between `-KYBER_Q` and
//! `KYBER_Q` for accumulators in `[-KYBER_Q * 2^15, KYBER_Q * 2^15)`;
//! `canonicalize` brings one into `[0, KYBER_Q)`.
//!
//! No function here checks a range or fails. Arithmetic that can leave its width
//! wraps, and each contract says what comes out on every input and on which
//! inputs nothing has wrapped.

use vstd::prelude::*;
use crate::lemmas::{
    lemma_canonicalize, lemma_centered_factor, lemma_congruent_remainders, lemma_mul_bound,
    lemma_reduce_exact, lemma_reduce_wrapped, lemma_scaled_product, lemma_to_montgomery,
    lemma_truncated_remainder,
};

verus! {

/// The prime modulus.
pub const KYBER_Q: i32 = 3329;

/// The Montgomery radix, `2^16`.
pub const R: i32 = 65536;

/// The inverse of `KYBER_Q` modulo `R`, as its representative of least magnitude.
pub const Q_INV: i32 = -3327;

/// `R * R` modulo `KYBER_Q`.
pub const R_SQUARED: i32 = 1353;

/// The inverse of `R` modulo `KYBER_Q`.
pub const R_INV: i32 = 169;

/// The representative of `x` modulo `R` that lies in `[-R/2, R/2)`: what a 16-bit
/// signed integer holds after `x` is truncated to it.
pub open spec fn centered_residue(x: int) -> int {
    let u: int = x % (R as int);
    if u < R / 2 {
        u
    } else {
        u - R
    }
}

/// The multiple of `KYBER_Q` that a reduction of `a` takes away: the centered
/// residue of `a * Q_INV`, so that `a - reduction_factor(a) * KYBER_Q` is a multiple of `R`.
pub open spec fn reduction_factor(a: int) -> int {
    centered_residue(a * Q_INV)
}

/// The Montgomery reduction of `a`: the exact quotient of
/// `a - reduction_factor(a) * KYBER_Q` by `R`.
pub open spec fn montgomery_reduce_spec(a: int) -> int {
    (a - reduction_factor(a) * KYBER_Q) / (R as int)
}

/// The accumulators on which a reduction stays strictly between `-KYBER_Q` and `KYBER_Q`.
pub open spec fn in_reduce_range(a: int) -> bool {
    -KYBER_Q * (R / 2) <= a < KYBER_Q * (R / 2)
}

/// Accumulators whose reduction fits in 16 bits; they include those of `in_reduce_range`.
pub open spec fn in_accumulator_range(a: int) -> bool {
    -(R / 2) * (R - KYBER_Q) <= a < (R / 2) * (R - KYBER_Q)
}

/// Whether `x` fits in a 16-bit signed residue.
pub open spec fn fits_residue(x: int) -> bool {
    -R / 2 <= x < R / 2
}

/// The Montgomery form of `a`, as the reduction gives it.
pub open spec fn to_montgomery_spec(a: int) -> int {
    montgomery_reduce_spec(a * R_SQUARED)
}

/// The residue that the Montgomery form `x` stands for, as the reduction gives it.
pub open spec fn from_montgomery_spec(x: int) -> int {
    montgomery_reduce_spec(x)
}

/// What `canonicalize` makes of `r`: one conditional addition or subtraction of `KYBER_Q`.
pub open spec fn canonicalize_spec(r: int) -> int {
    if r < 0 {
        r + KYBER_Q
    } else if r >= KYBER_Q {
        r - KYBER_Q
    } else {
        r
    }
}

/// Reduces the accumulator `a`: the result times `R` is congruent to `a` modulo `KYBER_Q`.
///
/// On every `a` the result is the reduction of `a` truncated to 16 bits. Nothing
/// is truncated away where the reduction fits in 16 bits, as it does for every `a`
/// in `[-2^15 * (R - KYBER_Q), 2^15 * (R - KYBER_Q))`. For `a` in
/// `[-KYBER_Q * 2^15, KYBER_Q * 2^15)` the result lies strictly between `-KYBER_Q`
/// and `KYBER_Q`.
pub fn montgomery_reduce(a: i32) -> (r: i16)
    ensures
        r == centered_residue(montgomery_reduce_spec(a as int)),
        in_accumulator_range(a as int) ==> fits_residue(montgomery_reduce_spec(a as int)),
        fits_residue(montgomery_reduce_spec(a as int)) ==> r == montgomery_reduce_spec(a as int),
        fits_residue(montgomery_reduce_spec(a as int)) ==> r * R == a - reduction_factor(a as int)
            * KYBER_Q,
        fits_residue(montgomery_reduce_spec(a as int)) ==> (r * R) % (KYBER_Q as int) == (a as int)
            % (KYBER_Q as int),
        fits_residue(montgomery_reduce_spec(a as int)) ==> (r as int) % (KYBER_Q as int) == (a
            * R_INV) % (KYBER_Q as int),
        in_reduce_range(a as int) ==> -KYBER_Q < r < KYBER_Q,
{
    let low: i16 = #[verifier::truncate] (a as i16);
    let m: i16 = low.wrapping_mul(Q_INV as i16);
    let t: i32 = a.wrapping_sub((m as i32) * KYBER_Q);
    let s: i32 = t >> 16;
    let r: i16 = #[verifier::truncate] (s as i16);
    proof {
        assert(low == a % 65536 || low == a % 65536 - 65536) by (bit_vector)
            requires low == a as i16;
        assert(low == centered_residue(a as int));
        lemma_centered_factor(a as int);
        assert(m == centered_residue(low * Q_INV));
        assert(m == reduction_factor(a as int));
        assert(s == t / 65536) by (bit_vector) requires s == t >> 16;
        assert(r == s % 65536 || r == s % 65536 - 65536) by (bit_vector)
            requires r == s as i16;
        assert(r == centered_residue(t as int / 65536));
        lemma_reduce_wrapped(a as int, t as int);
        lemma_reduce_exact(a as int);
        lemma_congruent_remainders(montgomery_reduce_spec(a as int) * R, a as int);
        lemma_congruent_remainders(montgomery_reduce_spec(a as int), 169 * a);
    }
    r
}

/// Multiplies two Montgomery forms: the reduction of the product `a * b`, which
/// is the Montgomery form of the product of the residues that `a` and `b` stand for.
///
/// The product of two 16-bit values is always an accumulator whose reduction fits;
/// the result lies strictly between `-KYBER_Q` and `KYBER_Q` whenever one factor does.
pub fn fqmul(a: i16, b: i16) -> (r: i16)
    ensures
        r == montgomery_reduce_spec(a * b),
        (r * R) % (KYBER_Q as int) == (a * b) % (KYBER_Q as int),
        (r as int) % (KYBER_Q as int) == (a * b * R_INV) % (KYBER_Q as int),
        in_reduce_range(a * b) ==> -KYBER_Q < r < KYBER_Q,
        -KYBER_Q < a < KYBER_Q || -KYBER_Q < b < KYBER_Q ==> in_reduce_range(a * b),
{
    proof {
        assert(-0x4000_0000 < a * b <= 0x4000_0000) by (nonlinear_arith)
            requires -0x8000 <= a < 0x8000, -0x8000 <= b < 0x8000;
        if -KYBER_Q < a < KYBER_Q {
            lemma_mul_bound(b as int, a as int);
            assert(a * b == b * a) by (nonlinear_arith);
        }
        if -KYBER_Q < b < KYBER_Q {
            lemma_mul_bound(a as int, b as int);
        }
    }
    montgomery_reduce((a as i32) * (b as i32))
}

/// Brings a representative into `[0, KYBER_Q)` by one conditional addition or
/// subtraction of `KYBER_Q`. The result is congruent to `r`; it is the canonical
/// residue of `r` whenever `r` lies in `[-KYBER_Q, 2 * KYBER_Q)`.
pub fn canonicalize(r: i16) -> (c: i16)
    ensures
        c == canonicalize_spec(r as int),
        (c as int) % (KYBER_Q as int) == (r as int) % (KYBER_Q as int),
        -KYBER_Q <= r < 2 * KYBER_Q ==> c == (r as int) % (KYBER_Q as int),
{
    proof {
        lemma_canonicalize(r as int);
    }
    let q: i16 = KYBER_Q as i16;
    if r < 0 {
        r + q
    } else if r >= q {
        r - q
    } else {
        r
    }
}

/// Takes the Montgomery form `x` back to the residue it stands for: the result
/// times `R` is congruent to `x`, and lies strictly between `-KYBER_Q` and `KYBER_Q`.
pub fn from_montgomery(x: i16) -> (r: i16)
    ensures
        r == from_montgomery_spec(x as int),
        -KYBER_Q < r < KYBER_Q,
        (r * R) % (KYBER_Q as int) == (x as int) % (KYBER_Q as int),
        (r as int) % (KYBER_Q as int) == (x * R_INV) % (KYBER_Q as int),
{
    proof {
        lemma_reduce_exact(x as int);
        lemma_congruent_remainders(from_montgomery_spec(x as int), 169 * x);
    }
    montgomery_reduce(x as i32)
}

/// Takes `a` to its Montgomery form: the result is congruent to `a * R` and lies
/// strictly between `-KYBER_Q` and `KYBER_Q`.
pub fn to_montgomery(a: i16) -> (r: i16)
    ensures
        r == to_montgomery_spec(a as int),
        -KYBER_Q < r < KYBER_Q,
        (r as int) % (KYBER_Q as int) == (a * R) % (KYBER_Q as int),
{
    proof {
        lemma_to_montgomery(a as int);
        lemma_congruent_remainders(to_montgomery_spec(a as int), a * R);
    }
    montgomery_reduce((a as i32) * R_SQUARED)
}

/// Multiplies two residues: the result is the canonical residue of `a * b`.
pub fn mul_montgomery(a: i16, b: i16) -> (r: i16)
    ensures
        r == (a * b) % (KYBER_Q as int),
{
    let scaled: i32 = (b as i32) * R;
    let b_scaled: i32 = scaled % KYBER_Q;
    proof {
        lemma_truncated_remainder(scaled as int, b_scaled as int);
        lemma_mul_bound(a as int, b_scaled as int);
        lemma_scaled_product(a as int, b as int, b_scaled as int);
        lemma_congruent_remainders(montgomery_reduce_spec(a * b_scaled), a * b);
    }
    let product: i32 = (a as i32) * b_scaled;
    let reduced: i16 = montgomery_reduce(product);
    canonicalize(reduced)
}

} // verus!
