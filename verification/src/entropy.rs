//! Trusted boundary to the process's random number source and to the
//! optimizer barrier used by the timing jitter. Nothing can be promised
//! of a random value, so `random_u64` has no `ensures`; everything
//! derived from it is computed in verified code.
use vstd::prelude::*;

verus! {

/// Relies on `rand::random::<u64>`: a fresh random value; nothing is
/// assumed about it.
#[verifier::external_body]
pub(crate) fn random_u64() -> u64 {
    rand::random::<u64>()
}

/// Relies on `std::hint::black_box`: forces the jitter's dummy result to
/// be observed so the extra work cannot be optimized away.
#[verifier::external_body]
pub(crate) fn observe(x: &num_bigint::BigUint) {
    std::hint::black_box(x);
}

} // verus!
