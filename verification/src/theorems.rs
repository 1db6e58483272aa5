//! What holds of the reduction and of the conversions built on it, stated over
//! the spec functions that the contracts use.

use vstd::prelude::*;
use vstd::arithmetic::div_mod::{lemma_fundamental_div_mod, lemma_fundamental_div_mod_converse};
use crate::lemmas::{
    congruent, lemma_centered_shift, lemma_centered_small, lemma_congruent_chain,
    lemma_congruent_multiple, lemma_congruent_remainders, lemma_reduce_exact,
    lemma_scale_congruence, lemma_to_montgomery,
};
use crate::montgomery::{
    centered_residue, fits_residue, from_montgomery_spec, in_reduce_range, montgomery_reduce_spec,
    to_montgomery_spec, KYBER_Q, Q_INV, R, R_INV, R_SQUARED,
};

verus! {

/// The constants belong together: `Q_INV` is the inverse of `KYBER_Q` modulo `R`
/// and fits in 16 bits, `R_INV` is the inverse of `R` modulo `KYBER_Q` (so the two
/// are coprime), `R_SQUARED` is the canonical residue of `R * R`, and `KYBER_Q` is
/// odd, of 12 bits and less than `R`.
pub proof fn constants_consistent()
    ensures
        (KYBER_Q * Q_INV) % (R as int) == 1,
        fits_residue(Q_INV as int),
        (R * R_INV) % (KYBER_Q as int) == 1,
        0 <= R_INV < KYBER_Q,
        (R * R) % (KYBER_Q as int) == R_SQUARED,
        KYBER_Q % 2 == 1,
        KYBER_Q < 4096 < R,
{
    assert(KYBER_Q * Q_INV == -169 * 65536 + 1);
    assert(R * R_INV == 3327 * 3329 + 1);
    assert(R * R == 1290167 * 3329 + 1353);
}

/// `Q_INV` is the only inverse of `KYBER_Q` modulo `R` that fits in 16 bits:
/// every `x` with `KYBER_Q * x` congruent to 1 has `Q_INV` as its centered residue.
pub proof fn q_inv_unique(x: int)
    requires
        (KYBER_Q * x) % (R as int) == 1,
    ensures
        centered_residue(x) == Q_INV,
{
    lemma_fundamental_div_mod(KYBER_Q * x, 65536);
    let k: int = (KYBER_Q * x) / 65536;
    assert(3329 * x == 65536 * k + 1);
    assert(x == -3327 + 65536 * (169 * x - 3327 * k));
    lemma_centered_shift(-3327, 169 * x - 3327 * k);
    lemma_centered_small(-3327);
}

/// Reduction invariant: the reduction of any `a`, times `R`, is congruent to `a`
/// modulo `KYBER_Q`; equivalently the reduction is congruent to `a * R_INV`.
pub proof fn reduction_invariant(a: int)
    ensures
        (montgomery_reduce_spec(a) * R) % (KYBER_Q as int) == a % (KYBER_Q as int),
        montgomery_reduce_spec(a) % (KYBER_Q as int) == (a * R_INV) % (KYBER_Q as int),
{
    lemma_reduce_exact(a);
    lemma_congruent_remainders(montgomery_reduce_spec(a) * R, a);
    lemma_congruent_remainders(montgomery_reduce_spec(a), 169 * a);
}

/// Range bound: on a supported accumulator the reduction lies strictly between
/// `-KYBER_Q` and `KYBER_Q`.
pub proof fn reduction_range(a: int)
    requires
        in_reduce_range(a),
    ensures
        -KYBER_Q < montgomery_reduce_spec(a) < KYBER_Q,
{
    lemma_reduce_exact(a);
}

/// Round trip: converting `a` to Montgomery form and back gives a value congruent
/// to `a`, and so `a` itself, as a remainder, when `a` is a canonical residue.
pub proof fn round_trip(a: int)
    ensures
        from_montgomery_spec(to_montgomery_spec(a)) % (KYBER_Q as int) == a % (KYBER_Q as int),
        0 <= a < KYBER_Q ==> from_montgomery_spec(to_montgomery_spec(a)) % (KYBER_Q as int) == a,
{
    lemma_round_trip_congruent(a);
    lemma_congruent_remainders(from_montgomery_spec(to_montgomery_spec(a)), a);
    if 0 <= a < KYBER_Q {
        lemma_fundamental_div_mod_converse(a, 3329, 0, a);
    }
}

/// No drift: a second round trip gives, modulo `KYBER_Q`, what the first one gave.
pub proof fn round_trip_twice(a: int)
    ensures
        ({
            let once = from_montgomery_spec(to_montgomery_spec(a));
            let twice = from_montgomery_spec(to_montgomery_spec(once));
            &&& twice % (KYBER_Q as int) == once % (KYBER_Q as int)
            &&& twice % (KYBER_Q as int) == a % (KYBER_Q as int)
        }),
{
    round_trip(a);
    round_trip(from_montgomery_spec(to_montgomery_spec(a)));
}

proof fn lemma_round_trip_congruent(a: int)
    ensures
        congruent(from_montgomery_spec(to_montgomery_spec(a)), a),
{
    let y: int = to_montgomery_spec(a);
    lemma_to_montgomery(a);
    lemma_reduce_exact(y);
    lemma_scale_congruence(y, a * R, 169);
    lemma_congruent_multiple(169 * (a * R), a, 3327 * a);
    lemma_congruent_chain(from_montgomery_spec(y), 169 * y, 169 * (a * R));
    lemma_congruent_chain(from_montgomery_spec(y), 169 * (a * R), a);
}

} // verus!
