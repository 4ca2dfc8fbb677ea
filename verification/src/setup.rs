//! One-shot trusted setup and the stateless modular exponentiation
//! helper. The setup draws two random probable primes and publishes only
//! their product; the primes themselves never leave this module.
use vstd::prelude::*;
use vstd::arithmetic::power::pow;
use vstd::arithmetic::power2::*;
use vstd::pervasive::VecAdditionalExecFns;
use crate::{AccError, MAX_STRING_LEN};
use crate::bignum::{
    big_add_u32, big_eq, big_from_bytes_be, big_from_u64, big_is_odd, big_lt, big_modpow, big_mul,
    big_to_radix, nat_of,
};
use crate::digits::{
    be_value, dec_chars, dec_value, is_dec_bytes, lemma_be_value_head_bound, lemma_be_value_upper,
};
use crate::entropy::random_u64;
use crate::primality::{is_probable_prime, mr_prime};
use vstd::utf8::encode_utf8;

verus! {

/// How many odd steps the random prime search takes before giving up.
/// Prime gaps near the sizes in use are orders of magnitude smaller.
pub const SETUP_SEARCH_BOUND: u32 = 65536;

/// The failure of a `safe_pow_mod` call, if any: size checks, then the
/// numeric grammar of each argument in order, then a modulus with at
/// least one residue.
pub open spec fn pow_mod_error(base: Seq<char>, exp: Seq<char>, modulus: Seq<char>) -> Option<
    AccError,
> {
    if encode_utf8(base).len() > MAX_STRING_LEN || encode_utf8(exp).len() > MAX_STRING_LEN
        || encode_utf8(modulus).len() > MAX_STRING_LEN {
        Some(AccError::InputTooLarge)
    } else if !is_dec_bytes(encode_utf8(base)) {
        Some(AccError::InvalidNumericFormat)
    } else if !is_dec_bytes(encode_utf8(exp)) {
        Some(AccError::InvalidNumericFormat)
    } else if !is_dec_bytes(encode_utf8(modulus)) {
        Some(AccError::InvalidNumericFormat)
    } else if dec_value(encode_utf8(modulus)) == 0 {
        Some(AccError::InvalidNumericFormat)
    } else {
        None
    }
}

/// Stateless modular exponentiation over decimal strings: returns the
/// decimal rendering of `base ^ exp mod modulus`. Every argument is
/// size- and format-checked; a zero modulus is rejected rather than
/// aborting.
pub fn safe_pow_mod(base_str: &str, exp_str: &str, modulus_str: &str) -> (r: Result<
    String,
    AccError,
>)
    ensures
        match r {
            Ok(out) => {
                &&& pow_mod_error(base_str@, exp_str@, modulus_str@) is None
                &&& out@ == dec_chars(
                    (pow(
                        dec_value(encode_utf8(base_str@)) as int,
                        dec_value(encode_utf8(exp_str@)),
                    ) % (dec_value(encode_utf8(modulus_str@)) as int)) as nat,
                )
            },
            Err(e) => Some(e) == pow_mod_error(base_str@, exp_str@, modulus_str@),
        },
{
    if let Err(e) = crate::accumulator::validate_input(base_str) {
        return Err(e);
    }
    if let Err(e) = crate::accumulator::validate_input(exp_str) {
        return Err(e);
    }
    if let Err(e) = crate::accumulator::validate_input(modulus_str) {
        return Err(e);
    }
    let b = crate::accumulator::parse_decimal(base_str)?;
    let e = crate::accumulator::parse_decimal(exp_str)?;
    let m = crate::accumulator::parse_decimal(modulus_str)?;
    let zero = big_from_u64(0);
    if big_eq(&m, &zero) {
        return Err(AccError::InvalidNumericFormat);
    }
    let one = big_from_u64(1);
    if big_eq(&m, &one) {
        return Ok(big_to_radix(&zero, 10));
    }
    let r = big_modpow(&b, &e, &m);
    Ok(big_to_radix(&r, 10))
}

/// The odd search start derived from a drawn value: clamped to at
/// least 3, then forced odd.
pub open spec fn setup_start(c: nat) -> nat {
    let clamped: nat = if c < 3 {
        3
    } else {
        c
    };
    if clamped % 2 == 1 {
        clamped
    } else {
        (clamped + 1) as nat
    }
}

/// The first candidate among `start, start + 2, ...`, within the
/// bounded ascending search, that passes the primality test; `None`
/// when the bound is exhausted.
pub open spec fn setup_search_from(start: nat, k: nat) -> Option<nat>
    decreases SETUP_SEARCH_BOUND - k,
{
    if k >= SETUP_SEARCH_BOUND {
        None
    } else if mr_prime((start + 2 * k) as nat) {
        Some((start + 2 * k) as nat)
    } else {
        setup_search_from(start, (k + 1) as nat)
    }
}

/// What the bounded search returns for a drawn value `c`.
pub open spec fn setup_search(c: nat) -> Option<nat> {
    setup_search_from(setup_start(c), 0)
}

/// Run the bounded ascending prime search from a drawn start value:
/// the first probable prime at or after the clamped, odd-forced start,
/// within `SETUP_SEARCH_BOUND` odd steps. The result is a pure
/// function of the start value, verified for every value of it; the
/// randomness stays with the caller. The size bound keeps every tested
/// candidate inside the primality test's range.
pub fn search_prime_from(c: num_bigint::BigUint) -> (r: Result<num_bigint::BigUint, AccError>)
    requires
        nat_of(c) + 4 + 2 * (SETUP_SEARCH_BOUND as nat) < pow2(u64::MAX as nat),
    ensures
        match r {
            Ok(p) => {
                &&& Some(nat_of(p)) == setup_search(nat_of(c))
                &&& mr_prime(nat_of(p))
                &&& nat_of(p) < nat_of(c) + 4 + 2 * (SETUP_SEARCH_BOUND as nat)
            },
            Err(e) => e == AccError::PrimeSearchExhausted && setup_search(nat_of(c)) is None,
        },
{
    let ghost c0 = nat_of(c);
    let three = big_from_u64(3);
    let mut cur = if big_lt(&c, &three) {
        three
    } else {
        c
    };
    if !big_is_odd(&cur) {
        cur = big_add_u32(&cur, 1);
    }
    let ghost start = setup_start(c0);
    proof {
        assert(nat_of(cur) == start);
        assert(start <= c0 + 4);
    }
    let mut attempts: u32 = 0;
    while attempts < SETUP_SEARCH_BOUND
        invariant
            attempts <= SETUP_SEARCH_BOUND,
            c0 == nat_of(c),
            start == setup_start(c0),
            start <= c0 + 4,
            nat_of(cur) == start + 2 * attempts,
            c0 + 4 + 2 * (SETUP_SEARCH_BOUND as nat) < pow2(u64::MAX as nat),
            setup_search_from(start, 0) == setup_search_from(start, attempts as nat),
        decreases SETUP_SEARCH_BOUND - attempts,
    {
        if is_probable_prime(&cur) {
            proof {
                assert(setup_search_from(start, attempts as nat) == Some(
                    (start + 2 * (attempts as nat)) as nat,
                ));
                assert(setup_search(c0) == Some(nat_of(cur)));
            }
            return Ok(cur);
        }
        cur = big_add_u32(&cur, 2);
        attempts = attempts + 1;
    }
    proof {
        assert(setup_search_from(start, SETUP_SEARCH_BOUND as nat) is None);
    }
    Err(AccError::PrimeSearchExhausted)
}

/// Draw a random probable prime of at most `bits` bits plus the small
/// search offset: random bytes masked to the requested width, then the
/// verified bounded search from that start. Of the random draw nothing
/// is assumed; the contract says only what holds of every outcome.
fn random_probable_prime(bits: u32) -> (r: Result<num_bigint::BigUint, AccError>)
    ensures
        match r {
            Ok(p) => {
                &&& mr_prime(nat_of(p))
                &&& nat_of(p) < pow2(bits as nat) + 4 + 2 * (SETUP_SEARCH_BOUND as nat)
                &&& exists|c: nat| c < pow2(bits as nat) && Some(nat_of(p)) == setup_search(c)
            },
            Err(e) => e == AccError::PrimeSearchExhausted,
        },
{
    let nb64: u64 = ((bits as u64) + 7) / 8;
    proof {
        assert(nb64 <= 0x2000_0000);
    }
    let nbytes: usize = nb64 as usize;
    let mut buf: Vec<u8> = Vec::new();
    let mut k: usize = 0;
    while k < nbytes
        invariant
            k <= nbytes,
            buf@.len() == k,
        decreases nbytes - k,
    {
        buf.push((random_u64() % 256) as u8);
        k = k + 1;
    }
    let rem_bits = bits % 8;
    if nbytes > 0 && rem_bits != 0 {
        let mask: u8 = if rem_bits == 1 {
            1
        } else if rem_bits == 2 {
            3
        } else if rem_bits == 3 {
            7
        } else if rem_bits == 4 {
            15
        } else if rem_bits == 5 {
            31
        } else if rem_bits == 6 {
            63
        } else {
            127
        };
        let b0 = buf[0];
        buf.set(0, b0 % (mask + 1));
        proof {
            lemma2_to64();
            assert(mask + 1 == pow2(rem_bits as nat));
            lemma_be_value_head_bound(buf@);
            assert(buf@[0] + 1 <= pow2(rem_bits as nat));
            assert((buf@[0] + 1) * pow2((8 * (nbytes - 1)) as nat) <= pow2(rem_bits as nat)
                * pow2((8 * (nbytes - 1)) as nat)) by (nonlinear_arith)
                requires
                    buf@[0] + 1 <= pow2(rem_bits as nat),
            ;
            lemma_pow2_adds(rem_bits as nat, (8 * (nbytes - 1)) as nat);
            assert(nbytes == bits / 8 + 1);
            assert(rem_bits + 8 * (nbytes - 1) == bits);
            assert(be_value(buf@) < pow2(bits as nat));
        }
    } else {
        proof {
            lemma_be_value_upper(buf@);
            lemma_pow2_pos(bits as nat);
            if nbytes == 0 {
                assert(be_value(buf@) == 0);
            } else {
                assert(8 * nbytes == bits);
            }
            assert(be_value(buf@) < pow2(bits as nat));
        }
    }
    let c = big_from_bytes_be(buf.as_slice());
    proof {
        lemma2_to64();
        if bits >= 18 {
            if bits > 18 {
                lemma_pow2_strictly_increases(18, bits as nat);
            }
            lemma_pow2_unfold((bits + 1) as nat);
            lemma_pow2_strictly_increases((bits + 1) as nat, u64::MAX as nat);
        } else {
            if bits < 17 {
                lemma_pow2_strictly_increases(bits as nat, 17);
            }
            lemma_pow2_strictly_increases(19, u64::MAX as nat);
        }
        assert(nat_of(c) + 4 + 2 * (SETUP_SEARCH_BOUND as nat) < pow2(u64::MAX as nat));
    }
    let ghost cv = nat_of(c);
    match search_prime_from(c) {
        Ok(p) => {
            proof {
                assert(cv < pow2(bits as nat) && Some(nat_of(p)) == setup_search(cv));
            }
            Ok(p)
        },
        Err(e) => Err(e),
    }
}

/// Generate an RSA-like composite modulus: the product of two
/// independent random probable primes of half the requested length, as
/// a decimal string. Each factor is the bounded search's result for
/// some draw below `2^(bit_length/2)`, so it exceeds that width only
/// by the small search offset. The two primes are confined to this
/// call and are dropped as soon as the product exists; the bignum API
/// offers no stronger clearing of their backing memory.
pub fn generate_safe_modulus(bit_length: u32) -> (r: Result<String, AccError>)
    ensures
        match r {
            Ok(out) => exists|p: nat, q: nat|
                {
                    &&& mr_prime(p)
                    &&& mr_prime(q)
                    &&& p < pow2((bit_length / 2) as nat) + 4 + 2 * (SETUP_SEARCH_BOUND as nat)
                    &&& q < pow2((bit_length / 2) as nat) + 4 + 2 * (SETUP_SEARCH_BOUND as nat)
                    &&& out@ == dec_chars((p * q) as nat)
                },
            Err(e) => e == AccError::PrimeSearchExhausted,
        },
{
    let half = bit_length / 2;
    let p = random_probable_prime(half)?;
    let q = random_probable_prime(half)?;
    let n = big_mul(&p, &q);
    let out = big_to_radix(&n, 10);
    proof {
        let pv = nat_of(p);
        let qv = nat_of(q);
        assert(mr_prime(pv) && mr_prime(qv) && pv < pow2((bit_length / 2) as nat) + 4 + 2 * (
        SETUP_SEARCH_BOUND as nat) && qv < pow2((bit_length / 2) as nat) + 4 + 2 * (
        SETUP_SEARCH_BOUND as nat) && out@ == dec_chars((pv * qv) as nat));
    }
    Ok(out)
}

} // verus!
