//! A chained, order-sensitive cryptographic accumulator: deterministic
//! hash-to-prime derivation, modular-exponentiation state transitions,
//! rollback-protected updates, snapshot/checkpoint hash chaining,
//! order-sensitive branch merging, and resource guards.
use vstd::prelude::*;

pub mod accumulator;
pub mod bignum;
pub mod derive_prime;
pub mod digits;
pub mod entropy;
pub mod hashing;
pub mod jitter;
pub mod laws;
pub mod primality;
pub mod setup;

verus! {

/// Maximum accepted byte length of any externally supplied string.
pub const MAX_STRING_LEN: usize = 4096;

/// Ceiling on the monotonic operation counter (complexity-attack circuit breaker).
pub const MAX_OP_LIMIT: u64 = 1_000_000;

/// Typed failures of every fallible operation; no path panics.
#[derive(Clone, Copy, Debug, PartialEq, Eq, Structural)]
pub enum AccError {
    /// An externally supplied string exceeds `MAX_STRING_LEN` bytes.
    InputTooLarge,
    /// A numeric string is not a non-empty sequence of ASCII decimal digits.
    InvalidNumericFormat,
    /// `expected_prev_t` does not match the current state (rollback/replay detected).
    StateMismatch,
    /// The operation counter exceeded its ceiling (suspected complexity attack).
    OpLimitExceeded,
    /// No prime was found within the bounded nonce search.
    PrimeSearchExhausted,
}

} // verus!
