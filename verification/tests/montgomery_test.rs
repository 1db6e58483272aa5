use montgo_mul::{montgomery_reduce, KYBER_Q};
use rand::Rng;

/// Test montgomery_reduce() range behavior
#[test]
fn test_montgomery_reduce_in_range() {
    let mut rng = rand::thread_rng();
    for _ in 0..10_000 {
        let a: i32 = rng.gen_range(-(KYBER_Q as i32) * (1 << 15)..=(KYBER_Q as i32) * (1 << 15) - 1);
        let r = montgomery_reduce(a);

        assert!(r >= -3329, "Value too small: r = {}", r);
        assert!(r < 3329, "Value too large: r = {}", r);
    }
}
