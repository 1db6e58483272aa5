//! Montgomery arithmetic modulo the prime 3329 with radix 2^16.

pub mod lemmas;
pub mod montgomery;
pub mod theorems;

pub use crate::montgomery::{KYBER_Q, Q_INV, R, R_INV, R_SQUARED};
pub use crate::montgomery::{
    canonicalize, fqmul, from_montgomery, montgomery_reduce, mul_montgomery, to_montgomery,
};
