//! Deterministic hash-to-prime derivation. A fixed-width 1024-bit
//! candidate is assembled from four SHA-256 digests of the domain-bound
//! message and a search nonce, its top and low bits are forced to one,
//! and the first candidate that passes the primality test wins. The
//! whole search is a pure function of the input bytes, so any third
//! party can recompute and check a derived prime.
use vstd::prelude::*;
use vstd::arithmetic::power2::*;
use vstd::pervasive::VecAdditionalExecFns;
use crate::AccError;
use crate::bignum::{big_from_bytes_be, nat_of};
use crate::digits::{le8, le4, be_value, lemma_be_value_upper, lemma_be_value_lower,
    lemma_be_value_parity};
use crate::hashing::{sha256, sha256_of};
use crate::primality::{mr_prime, is_probable_prime};

verus! {

/// The highest search nonce tried before the derivation gives up.
pub const NONCE_BOUND: u64 = 200_000;

/// The bytes hashed for one candidate block: the domain-bound prefix,
/// the little-endian nonce, then the little-endian block index.
pub open spec fn block_message(prefix: Seq<u8>, nonce: u64, block: u32) -> Seq<u8> {
    prefix + le8(nonce) + le4(block)
}

/// 128 bytes of digest material: four chained SHA-256 blocks.
pub open spec fn candidate_material(prefix: Seq<u8>, nonce: u64) -> Seq<u8> {
    sha256_of(block_message(prefix, nonce, 0)) + sha256_of(block_message(prefix, nonce, 1))
        + sha256_of(block_message(prefix, nonce, 2)) + sha256_of(block_message(prefix, nonce, 3))
}

/// Force the top bit of the leading byte to one.
pub open spec fn force_top(b: u8) -> u8 {
    if b < 128 {
        (b + 128) as u8
    } else {
        b
    }
}

/// Force the lowest bit to one.
pub open spec fn force_low(b: u8) -> u8 {
    if b % 2 == 0 {
        (b + 1) as u8
    } else {
        b
    }
}

/// Pin the candidate to exactly 1024 bits and oddness.
pub open spec fn force_width_odd(s: Seq<u8>) -> Seq<u8> {
    s.update(0, force_top(s[0])).update(127, force_low(s[127]))
}

/// The candidate value derived for a given prefix and nonce.
pub open spec fn candidate_value(prefix: Seq<u8>, nonce: u64) -> nat {
    be_value(force_width_odd(candidate_material(prefix, nonce)))
}

/// The first nonce at or after `nonce`, up to the bound, whose candidate
/// passes the primality test.
pub open spec fn find_prime_nonce(prefix: Seq<u8>, nonce: u64) -> Option<u64>
    decreases NONCE_BOUND + 1 - nonce,
{
    if nonce > NONCE_BOUND {
        None
    } else if mr_prime(candidate_value(prefix, nonce)) {
        Some(nonce)
    } else {
        find_prime_nonce(prefix, (nonce + 1) as u64)
    }
}

/// The prime the bounded search derives for a prefix, if any.
pub open spec fn derived_prime(prefix: Seq<u8>) -> Option<nat> {
    match find_prime_nonce(prefix, 0) {
        Some(n) => Some(candidate_value(prefix, n)),
        None => None,
    }
}

/// Append the eight little-endian bytes of a 64-bit counter.
pub(crate) fn push_le8(out: &mut Vec<u8>, n: u64)
    ensures
        final(out)@ == old(out)@ + le8(n),
{
    out.push((n % 256) as u8);
    out.push(((n / 256) % 256) as u8);
    out.push(((n / 65536) % 256) as u8);
    out.push(((n / 16777216) % 256) as u8);
    out.push(((n / 4294967296) % 256) as u8);
    out.push(((n / 1099511627776) % 256) as u8);
    out.push(((n / 281474976710656) % 256) as u8);
    out.push(((n / 72057594037927936) % 256) as u8);
    proof {
        assert(out@ =~= old(out)@ + le8(n));
    }
}

/// Append the four little-endian bytes of a 32-bit counter.
pub(crate) fn push_le4(out: &mut Vec<u8>, n: u32)
    ensures
        final(out)@ == old(out)@ + le4(n),
{
    out.push((n % 256) as u8);
    out.push(((n / 256) % 256) as u8);
    out.push(((n / 65536) % 256) as u8);
    out.push(((n / 16777216) % 256) as u8);
    proof {
        assert(out@ =~= old(out)@ + le4(n));
    }
}

/// One candidate block's message bytes.
fn build_block_message(prefix: &Vec<u8>, nonce: u64, block: u32) -> (r: Vec<u8>)
    ensures
        r@ == block_message(prefix@, nonce, block),
{
    let mut msg: Vec<u8> = Vec::new();
    msg.extend_from_slice(prefix.as_slice());
    proof {
        assert(msg@ =~= prefix@);
    }
    push_le8(&mut msg, nonce);
    push_le4(&mut msg, block);
    proof {
        assert(msg@ =~= prefix@ + le8(nonce) + le4(block));
    }
    msg
}

/// The forced 128-byte candidate for a prefix and nonce.
fn build_candidate(prefix: &Vec<u8>, nonce: u64) -> (r: Vec<u8>)
    ensures
        r@ == force_width_odd(candidate_material(prefix@, nonce)),
        r@.len() == 128,
        r@[0] >= 128,
        r@[127] % 2 == 1,
{
    let m0 = build_block_message(prefix, nonce, 0);
    let mut out = sha256(m0.as_slice());
    let m1 = build_block_message(prefix, nonce, 1);
    let d1 = sha256(m1.as_slice());
    out.extend_from_slice(d1.as_slice());
    let m2 = build_block_message(prefix, nonce, 2);
    let d2 = sha256(m2.as_slice());
    out.extend_from_slice(d2.as_slice());
    let m3 = build_block_message(prefix, nonce, 3);
    let d3 = sha256(m3.as_slice());
    out.extend_from_slice(d3.as_slice());
    proof {
        assert(out@ =~= candidate_material(prefix@, nonce));
    }
    let b0 = out[0];
    let f0 = if b0 < 128 {
        b0 + 128
    } else {
        b0
    };
    out.set(0, f0);
    let b127 = out[127];
    let f127 = if b127 % 2 == 0 {
        b127 + 1
    } else {
        b127
    };
    out.set(127, f127);
    proof {
        assert(out@ =~= force_width_odd(candidate_material(prefix@, nonce)));
    }
    out
}

/// Search the bounded nonce space for the deterministic prime of this
/// prefix. On success the prime has exactly 1024 bits, is odd, and
/// passes the primality test; the search fails only when every nonce up
/// to the bound is exhausted.
pub(crate) fn find_prime(prefix: &Vec<u8>) -> (r: Result<num_bigint::BigUint, AccError>)
    ensures
        match r {
            Ok(p) => {
                &&& Some(nat_of(p)) == derived_prime(prefix@)
                &&& mr_prime(nat_of(p))
                &&& pow2(1023) <= nat_of(p) < pow2(1024)
                &&& nat_of(p) % 2 == 1
            },
            Err(e) => e == AccError::PrimeSearchExhausted && derived_prime(prefix@) is None,
        },
{
    let mut nonce: u64 = 0;
    while nonce <= NONCE_BOUND
        invariant
            nonce <= NONCE_BOUND + 1,
            find_prime_nonce(prefix@, 0) == find_prime_nonce(prefix@, nonce),
        decreases NONCE_BOUND + 1 - nonce,
    {
        let cand_bytes = build_candidate(prefix, nonce);
        let cand = big_from_bytes_be(cand_bytes.as_slice());
        proof {
            lemma_be_value_upper(cand_bytes@);
            lemma_pow2_strictly_increases(1024, u64::MAX as nat);
        }
        if is_probable_prime(&cand) {
            proof {
                lemma_be_value_lower(cand_bytes@);
                lemma_be_value_parity(cand_bytes@);
                lemma_pow2_adds(7, 1016);
                lemma2_to64();
                assert(cand_bytes@[0] * pow2(1016) >= 128 * pow2(1016)) by (nonlinear_arith)
                    requires
                        cand_bytes@[0] >= 128,
                ;
            }
            return Ok(cand);
        }
        nonce = nonce + 1;
    }
    Err(AccError::PrimeSearchExhausted)
}

} // verus!
