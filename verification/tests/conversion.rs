use montgo_mul::{canonicalize, fqmul, from_montgomery, mul_montgomery, to_montgomery, KYBER_Q, R};
use rand::Rng;

fn residue(x: i64) -> i64 {
    x.rem_euclid(KYBER_Q as i64)
}

#[test]
fn canonicalize_cases() {
    assert_eq!(canonicalize(0), 0);
    assert_eq!(canonicalize(3328), 3328);
    assert_eq!(canonicalize(3329), 0);
    assert_eq!(canonicalize(6657), 3328);
    assert_eq!(canonicalize(-1), 3328);
    assert_eq!(canonicalize(-3329), 0);
    assert_eq!(canonicalize(-5), 3324);
}

#[test]
fn canonicalize_moves_by_one_modulus_only() {
    assert_eq!(canonicalize(10000), 6671);
    assert_eq!(canonicalize(-10000), -6671);
    assert_eq!(canonicalize(i16::MAX), i16::MAX - 3329);
    assert_eq!(canonicalize(i16::MIN), i16::MIN + 3329);
}

#[test]
fn canonicalize_keeps_the_residue() {
    for r in i16::MIN..=i16::MAX {
        let c = canonicalize(r);
        assert_eq!(residue(c as i64), residue(r as i64));
        if -3329 <= r && r < 2 * 3329 {
            assert_eq!(c as i64, residue(r as i64));
        }
    }
}

#[test]
fn to_montgomery_known_values() {
    assert_eq!(to_montgomery(0), 0);
    assert_eq!(to_montgomery(1), -1044);
    assert_eq!(canonicalize(to_montgomery(1)), 2285);
}

#[test]
fn to_montgomery_scales_by_the_radix() {
    for a in i16::MIN..=i16::MAX {
        let t = to_montgomery(a);
        assert!(-3329 < t && t < 3329);
        assert_eq!(residue(t as i64), residue(a as i64 * R as i64));
    }
}

#[test]
fn from_montgomery_known_values() {
    assert_eq!(from_montgomery(0), 0);
    assert_eq!(from_montgomery(1), 169);
    assert_eq!(from_montgomery(2285), 1);
    assert_eq!(from_montgomery(-1044), 1);
}

#[test]
fn from_montgomery_divides_by_the_radix() {
    for x in i16::MIN..=i16::MAX {
        let r = from_montgomery(x);
        assert!(-3329 < r && r < 3329);
        assert_eq!(residue(r as i64 * R as i64), residue(x as i64));
    }
}

#[test]
fn to_and_from_differ() {
    assert_ne!(to_montgomery(1), from_montgomery(1));
}

#[test]
fn round_trip_on_every_residue() {
    for a in 0..KYBER_Q as i16 {
        let back = from_montgomery(to_montgomery(a));
        assert_eq!(residue(back as i64), a as i64);
    }
}

#[test]
fn round_trip_on_every_input() {
    for a in i16::MIN..=i16::MAX {
        let back = from_montgomery(to_montgomery(a));
        assert_eq!(residue(back as i64), residue(a as i64));
    }
}

#[test]
fn round_trip_twice_does_not_drift() {
    for a in 0..KYBER_Q as i16 {
        let once = from_montgomery(to_montgomery(a));
        let twice = from_montgomery(to_montgomery(once));
        assert_eq!(residue(twice as i64), residue(once as i64));
        assert_eq!(residue(twice as i64), a as i64);
    }
}

#[test]
fn mul_boundary_literals() {
    let q = KYBER_Q as i16;
    assert_eq!(mul_montgomery(1, 1), 1);
    assert_eq!(mul_montgomery(2, 3), 6);
    assert_eq!(mul_montgomery(q - 1, 2) as i32, ((KYBER_Q - 1) * 2) % KYBER_Q);
    assert_eq!(mul_montgomery(q - 1, 2), 3327);
    assert_eq!(mul_montgomery(q, 5), 0);
    assert_eq!(mul_montgomery(0, 42), 0);
}

#[test]
fn mul_matches_wide_reference_on_random_pairs() {
    let mut rng = rand::thread_rng();
    for _ in 0..1000 {
        let a: i16 = rng.gen_range(0..KYBER_Q as i16);
        let b: i16 = rng.gen_range(0..KYBER_Q as i16);
        let expected = (a as u64 * b as u64) % KYBER_Q as u64;
        assert_eq!(mul_montgomery(a, b) as u64, expected);
    }
}

#[test]
fn mul_matches_wide_reference_on_a_grid() {
    for a in (0..KYBER_Q as i16).step_by(7) {
        for b in (0..KYBER_Q as i16).step_by(11) {
            let expected = (a as i64 * b as i64) % KYBER_Q as i64;
            assert_eq!(mul_montgomery(a, b) as i64, expected);
        }
    }
}

#[test]
fn mul_takes_unreduced_and_negative_operands() {
    assert_eq!(mul_montgomery(-1, 1), 3328);
    assert_eq!(mul_montgomery(1, -1), 3328);
    assert_eq!(mul_montgomery(-2, -3), 6);
    assert_eq!(mul_montgomery(i16::MIN, i16::MIN) as i64, residue(32768 * 32768));
    assert_eq!(mul_montgomery(i16::MAX, i16::MIN) as i64, residue(32767 * -32768));
    let mut rng = rand::thread_rng();
    for _ in 0..1000 {
        let a: i16 = rng.gen_range(i16::MIN..=i16::MAX);
        let b: i16 = rng.gen_range(i16::MIN..=i16::MAX);
        assert_eq!(mul_montgomery(a, b) as i64, residue(a as i64 * b as i64));
    }
}

#[test]
fn fqmul_multiplies_in_montgomery_form() {
    for (a, b) in [(2i16, 3i16), (3328, 3328), (0, 17), (1234, 2345)] {
        let product = from_montgomery(fqmul(to_montgomery(a), to_montgomery(b)));
        assert_eq!(residue(product as i64), residue(a as i64 * b as i64));
        assert_eq!(canonicalize(product), mul_montgomery(a, b));
    }
}
