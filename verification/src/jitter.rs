//! Timing jitter: a randomized amount of functionally inert modular
//! exponentiation run before sensitive operations, so elapsed time and
//! power draw do not cleanly track the real workload. The dummy result
//! is handed to an optimizer barrier so the work cannot be elided. This
//! is best-effort defense in depth, not a timing-safety proof.
use vstd::prelude::*;
use crate::bignum::{big_from_u64, big_modpow, nat_of};
use crate::entropy::{observe, random_u64};

verus! {

/// The fewest dummy exponentiations run per injection.
pub const JITTER_MIN_LOOPS: u64 = 1000;

/// The size of the randomized range added on top of the minimum.
pub const JITTER_SPAN: u64 = 4000;

/// Perform between 1000 and 4999 dummy modular exponentiations over a
/// small fixed modulus, with random base and exponent.
pub(crate) fn inject_heavy_jitter() {
    let loops = JITTER_MIN_LOOPS + (random_u64() % JITTER_SPAN);
    let mut dummy = big_from_u64(random_u64());
    let exp = big_from_u64(random_u64());
    let m = big_from_u64(65537);
    let mut i: u64 = 0;
    while i < loops
        invariant
            nat_of(m) == 65537,
        decreases loops - i,
    {
        dummy = big_modpow(&dummy, &exp, &m);
        i = i + 1;
    }
    observe(&dummy);
}

} // verus!
