//! A deterministic Miller-Rabin primality test: 24 trial divisions by the
//! odd primes up to 97, then 64 rounds over the first 64 primes as bases.
//! The verdict is a pure function of the tested value, which makes every
//! prime derived from it independently recomputable; the test itself is
//! verified against its mathematical definition, with only the modular
//! arithmetic supplied by `num-bigint` through trusted wrappers.
use vstd::prelude::*;
use vstd::arithmetic::power::*;
use vstd::arithmetic::power2::*;
use vstd::arithmetic::div_mod::*;
use crate::bignum::{
    big_clone, big_eq, big_from_u64, big_half, big_is_odd, big_lt, big_modpow, big_mul, big_rem,
    big_sub_u32, nat_of,
};

verus! {

/// The number of Miller-Rabin rounds.
pub const MR_ROUNDS: usize = 64;

/// The number of trial divisors.
pub const TRIAL_COUNT: usize = 24;

/// The base used by Miller-Rabin round `i`: the `i`-th prime.
pub open spec fn nth_mr_base(i: int) -> u64 {
    if i == 0 { 2 }
    else if i == 1 { 3 }
    else if i == 2 { 5 }
    else if i == 3 { 7 }
    else if i == 4 { 11 }
    else if i == 5 { 13 }
    else if i == 6 { 17 }
    else if i == 7 { 19 }
    else if i == 8 { 23 }
    else if i == 9 { 29 }
    else if i == 10 { 31 }
    else if i == 11 { 37 }
    else if i == 12 { 41 }
    else if i == 13 { 43 }
    else if i == 14 { 47 }
    else if i == 15 { 53 }
    else if i == 16 { 59 }
    else if i == 17 { 61 }
    else if i == 18 { 67 }
    else if i == 19 { 71 }
    else if i == 20 { 73 }
    else if i == 21 { 79 }
    else if i == 22 { 83 }
    else if i == 23 { 89 }
    else if i == 24 { 97 }
    else if i == 25 { 101 }
    else if i == 26 { 103 }
    else if i == 27 { 107 }
    else if i == 28 { 109 }
    else if i == 29 { 113 }
    else if i == 30 { 127 }
    else if i == 31 { 131 }
    else if i == 32 { 137 }
    else if i == 33 { 139 }
    else if i == 34 { 149 }
    else if i == 35 { 151 }
    else if i == 36 { 157 }
    else if i == 37 { 163 }
    else if i == 38 { 167 }
    else if i == 39 { 173 }
    else if i == 40 { 179 }
    else if i == 41 { 181 }
    else if i == 42 { 191 }
    else if i == 43 { 193 }
    else if i == 44 { 197 }
    else if i == 45 { 199 }
    else if i == 46 { 211 }
    else if i == 47 { 223 }
    else if i == 48 { 227 }
    else if i == 49 { 229 }
    else if i == 50 { 233 }
    else if i == 51 { 239 }
    else if i == 52 { 241 }
    else if i == 53 { 251 }
    else if i == 54 { 257 }
    else if i == 55 { 263 }
    else if i == 56 { 269 }
    else if i == 57 { 271 }
    else if i == 58 { 277 }
    else if i == 59 { 281 }
    else if i == 60 { 283 }
    else if i == 61 { 293 }
    else if i == 62 { 307 }
    else { 311 }
}

/// The `i`-th odd trial divisor, the odd primes up to 97.
pub open spec fn nth_trial_prime(i: int) -> u64 {
    if i == 0 { 3 }
    else if i == 1 { 5 }
    else if i == 2 { 7 }
    else if i == 3 { 11 }
    else if i == 4 { 13 }
    else if i == 5 { 17 }
    else if i == 6 { 19 }
    else if i == 7 { 23 }
    else if i == 8 { 29 }
    else if i == 9 { 31 }
    else if i == 10 { 37 }
    else if i == 11 { 41 }
    else if i == 12 { 43 }
    else if i == 13 { 47 }
    else if i == 14 { 53 }
    else if i == 15 { 59 }
    else if i == 16 { 61 }
    else if i == 17 { 67 }
    else if i == 18 { 71 }
    else if i == 19 { 73 }
    else if i == 20 { 79 }
    else if i == 21 { 83 }
    else if i == 22 { 89 }
    else { 97 }
}

/// The base used by Miller-Rabin round `i`, as a run-time value.
pub(crate) fn mr_base_at(i: usize) -> (r: u64)
    requires
        i < MR_ROUNDS,
    ensures
        r == nth_mr_base(i as int),
        r >= 2,
{
    if i == 0 { 2 }
    else if i == 1 { 3 }
    else if i == 2 { 5 }
    else if i == 3 { 7 }
    else if i == 4 { 11 }
    else if i == 5 { 13 }
    else if i == 6 { 17 }
    else if i == 7 { 19 }
    else if i == 8 { 23 }
    else if i == 9 { 29 }
    else if i == 10 { 31 }
    else if i == 11 { 37 }
    else if i == 12 { 41 }
    else if i == 13 { 43 }
    else if i == 14 { 47 }
    else if i == 15 { 53 }
    else if i == 16 { 59 }
    else if i == 17 { 61 }
    else if i == 18 { 67 }
    else if i == 19 { 71 }
    else if i == 20 { 73 }
    else if i == 21 { 79 }
    else if i == 22 { 83 }
    else if i == 23 { 89 }
    else if i == 24 { 97 }
    else if i == 25 { 101 }
    else if i == 26 { 103 }
    else if i == 27 { 107 }
    else if i == 28 { 109 }
    else if i == 29 { 113 }
    else if i == 30 { 127 }
    else if i == 31 { 131 }
    else if i == 32 { 137 }
    else if i == 33 { 139 }
    else if i == 34 { 149 }
    else if i == 35 { 151 }
    else if i == 36 { 157 }
    else if i == 37 { 163 }
    else if i == 38 { 167 }
    else if i == 39 { 173 }
    else if i == 40 { 179 }
    else if i == 41 { 181 }
    else if i == 42 { 191 }
    else if i == 43 { 193 }
    else if i == 44 { 197 }
    else if i == 45 { 199 }
    else if i == 46 { 211 }
    else if i == 47 { 223 }
    else if i == 48 { 227 }
    else if i == 49 { 229 }
    else if i == 50 { 233 }
    else if i == 51 { 239 }
    else if i == 52 { 241 }
    else if i == 53 { 251 }
    else if i == 54 { 257 }
    else if i == 55 { 263 }
    else if i == 56 { 269 }
    else if i == 57 { 271 }
    else if i == 58 { 277 }
    else if i == 59 { 281 }
    else if i == 60 { 283 }
    else if i == 61 { 293 }
    else if i == 62 { 307 }
    else { 311 }
}

/// The `i`-th odd trial divisor, as a run-time value.
pub(crate) fn trial_prime_at(i: usize) -> (r: u64)
    requires
        i < TRIAL_COUNT,
    ensures
        r == nth_trial_prime(i as int),
        r >= 3,
{
    if i == 0 { 3 }
    else if i == 1 { 5 }
    else if i == 2 { 7 }
    else if i == 3 { 11 }
    else if i == 4 { 13 }
    else if i == 5 { 17 }
    else if i == 6 { 19 }
    else if i == 7 { 23 }
    else if i == 8 { 29 }
    else if i == 9 { 31 }
    else if i == 10 { 37 }
    else if i == 11 { 41 }
    else if i == 12 { 43 }
    else if i == 13 { 47 }
    else if i == 14 { 53 }
    else if i == 15 { 59 }
    else if i == 16 { 61 }
    else if i == 17 { 67 }
    else if i == 18 { 71 }
    else if i == 19 { 73 }
    else if i == 20 { 79 }
    else if i == 21 { 83 }
    else if i == 22 { 89 }
    else { 97 }
}

/// The odd part of `m`: what remains after all factors of two are removed.
pub open spec fn odd_part(m: nat) -> nat
    decreases m,
{
    if m == 0 {
        0
    } else if m % 2 == 1 {
        m
    } else {
        odd_part(m / 2)
    }
}

/// The number of factors of two in `m`.
pub open spec fn two_adic(m: nat) -> nat
    decreases m,
{
    if m == 0 {
        0
    } else if m % 2 == 1 {
        0
    } else {
        two_adic(m / 2) + 1
    }
}

/// Base `a` does not witness compositeness of odd `n > 2`: either `a` is a
/// multiple of `n`, or with `n - 1 == d * 2^s` (`d` odd), `a^d == 1` or
/// some `a^(d * 2^r) == n - 1` modulo `n` for `r < s`.
pub open spec fn mr_base_passes(n: nat, a: nat) -> bool {
    let m = (n - 1) as nat;
    let d = odd_part(m);
    let s = two_adic(m);
    ||| a % n == 0
    ||| pow(a as int, d) % (n as int) == 1
    ||| exists|r: nat|
        r < s && pow(a as int, (d * #[trigger] pow2(r)) as nat) % (n as int) == n - 1
}

/// The deterministic verdict of the whole test: `n` is odd, above 2, has
/// no small odd prime divisor besides itself, and no base witnesses
/// compositeness. A composite `n` passes with probability far below
/// `2^-128`; a prime always passes.
pub open spec fn mr_prime(n: nat) -> bool {
    &&& n > 2
    &&& n % 2 == 1
    &&& forall|i: int|
        0 <= i < TRIAL_COUNT ==> (n % (#[trigger] nth_trial_prime(i) as nat) != 0
            || n == nth_trial_prime(i))
    &&& forall|i: int| 0 <= i < MR_ROUNDS ==> mr_base_passes(n, #[trigger] nth_mr_base(i) as nat)
}

/// One Miller-Rabin round, verified against `mr_base_passes`.
fn mr_round(
    n: &num_bigint::BigUint,
    nm1: &num_bigint::BigUint,
    d: &num_bigint::BigUint,
    s: u64,
    a: u64,
) -> (r: bool)
    requires
        nat_of(*n) > 2,
        nat_of(*n) % 2 == 1,
        nat_of(*nm1) == nat_of(*n) - 1,
        nat_of(*d) == odd_part((nat_of(*n) - 1) as nat),
        s == two_adic((nat_of(*n) - 1) as nat),
        nat_of(*d) * pow2(s as nat) == nat_of(*n) - 1,
    ensures
        r == mr_base_passes(nat_of(*n), a as nat),
{
    let ghost n_i = nat_of(*n) as int;
    let ghost dv = nat_of(*d);
    let zero = big_from_u64(0);
    let one = big_from_u64(1);
    let ab = big_from_u64(a);
    let ar = big_rem(&ab, n);
    if big_eq(&ar, &zero) {
        return true;
    }
    let mut x = big_modpow(&ar, d, n);
    proof {
        lemma_pow_mod_noop(a as int, dv, n_i);
        lemma2_to64();
        assert(dv * pow2(0) == dv) by (nonlinear_arith)
            requires
                pow2(0) == 1,
        ;
    }
    if big_eq(&x, &one) {
        return true;
    }
    if big_eq(&x, nm1) {
        assert(pow(a as int, (dv * pow2(0)) as nat) % n_i == n_i - 1);
        return true;
    }
    let mut j: u64 = 1;
    while j < s
        invariant
            1 <= j,
            j <= s || s == 0,
            nat_of(*n) > 2,
            nat_of(*n) % 2 == 1,
            n_i == nat_of(*n) as int,
            nat_of(*nm1) == nat_of(*n) - 1,
            dv == nat_of(*d),
            dv == odd_part((nat_of(*n) - 1) as nat),
            s == two_adic((nat_of(*n) - 1) as nat),
            nat_of(x) == pow(a as int, (dv * pow2((j - 1) as nat)) as nat) % n_i,
            forall|r: nat|
                r < j ==> pow(a as int, (dv * #[trigger] pow2(r)) as nat) % n_i != n_i - 1,
            pow(a as int, dv) % n_i != 1,
            (a as nat) % nat_of(*n) != 0,
        decreases s - j,
    {
        let sq = big_mul(&x, &x);
        x = big_rem(&sq, n);
        proof {
            let e_prev = (dv * pow2((j - 1) as nat)) as nat;
            lemma_mul_mod_noop_general(
                pow(a as int, e_prev),
                pow(a as int, e_prev),
                n_i,
            );
            lemma_pow_adds(a as int, e_prev, e_prev);
            lemma_pow2_unfold(j as nat);
            assert(dv * pow2(j as nat) == e_prev + e_prev) by (nonlinear_arith)
                requires
                    pow2(j as nat) == 2 * pow2((j - 1) as nat),
                    e_prev == dv * pow2((j - 1) as nat),
            ;
            assert(nat_of(x) == (pow(a as int, e_prev) % n_i) * (pow(a as int, e_prev) % n_i)
                % n_i);
            assert(nat_of(x) == (pow(a as int, e_prev) * pow(a as int, e_prev)) % n_i);
            assert(nat_of(x) == pow(a as int, (e_prev + e_prev) as nat) % n_i);
            assert(nat_of(x) == pow(a as int, (dv * pow2(j as nat)) as nat) % n_i);
        }
        if big_eq(&x, nm1) {
            assert(pow(a as int, (dv * pow2(j as nat)) as nat) % n_i == n_i - 1);
            return true;
        }
        j = j + 1;
    }
    assert(forall|r: nat|
        r < two_adic((nat_of(*n) - 1) as nat) ==> pow(
            a as int,
            (dv * #[trigger] pow2(r)) as nat,
        ) % n_i != n_i - 1);
    false
}

/// The deterministic primality verdict for `n`, equal to `mr_prime`.
///
/// The size bound keeps the factor-of-two counter within a machine word;
/// every caller derives its candidates from fixed-width digests or
/// bounded random searches, far below it.
pub fn is_probable_prime(n: &num_bigint::BigUint) -> (r: bool)
    requires
        nat_of(*n) < pow2(u64::MAX as nat),
    ensures
        r == mr_prime(nat_of(*n)),
{
    let ghost nv = nat_of(*n);
    let three = big_from_u64(3);
    if big_lt(n, &three) {
        return false;
    }
    if !big_is_odd(n) {
        return false;
    }
    let zero = big_from_u64(0);
    // trial division by the small odd primes
    let mut i: usize = 0;
    while i < TRIAL_COUNT
        invariant
            nv == nat_of(*n),
            nv > 2,
            nv % 2 == 1,
            i <= TRIAL_COUNT,
            nat_of(zero) == 0,
            forall|k: int|
                0 <= k < i ==> (nv % (#[trigger] nth_trial_prime(k) as nat) != 0
                    || nv == nth_trial_prime(k)),
        decreases TRIAL_COUNT - i,
    {
        let p = trial_prime_at(i);
        let pb = big_from_u64(p);
        let rem = big_rem(n, &pb);
        if big_eq(&rem, &zero) && !big_eq(n, &pb) {
            assert(nv % (nth_trial_prime(i as int) as nat) == 0 && nv != nth_trial_prime(
                i as int,
            ));
            return false;
        }
        i = i + 1;
    }
    // write n - 1 as d * 2^s with d odd
    let nm1 = big_sub_u32(n, 1);
    let ghost m = (nv - 1) as nat;
    let mut d = big_clone(&nm1);
    let mut s: u64 = 0;
    let mut odd = big_is_odd(&d);
    proof {
        lemma2_to64();
        assert(nat_of(d) * pow2(0) == nat_of(d)) by (nonlinear_arith)
            requires
                pow2(0) == 1,
        ;
    }
    while !odd
        invariant
            nv == nat_of(*n),
            nv > 2,
            m == nv - 1,
            odd == (nat_of(d) % 2 == 1),
            1 <= nat_of(d),
            nat_of(d) * pow2(s as nat) == m,
            odd_part(nat_of(d)) == odd_part(m),
            two_adic(nat_of(d)) + s == two_adic(m),
            m < pow2(u64::MAX as nat),
        decreases nat_of(d),
    {
        proof {
            assert(pow2(s as nat) <= nat_of(d) * pow2(s as nat)) by (nonlinear_arith)
                requires
                    1 <= nat_of(d),
            ;
            if s >= u64::MAX {
                lemma_pow2_strictly_increases(u64::MAX as nat, s as nat);
                assert(false);
            }
        }
        let dh = big_half(&d);
        proof {
            let dv = nat_of(d);
            lemma_pow2_unfold((s + 1) as nat);
            assert((dv / 2) * pow2((s + 1) as nat) == dv * pow2(s as nat)) by (nonlinear_arith)
                requires
                    dv % 2 == 0,
                    pow2((s + 1) as nat) == 2 * pow2(s as nat),
            ;
        }
        d = dh;
        s = s + 1;
        odd = big_is_odd(&d);
    }
    proof {
        assert(odd_part(nat_of(d)) == nat_of(d));
        assert(two_adic(nat_of(d)) == 0);
    }
    // the 64 rounds
    let mut k: usize = 0;
    while k < MR_ROUNDS
        invariant
            nv == nat_of(*n),
            nv > 2,
            nv % 2 == 1,
            m == nv - 1,
            nat_of(nm1) == nv - 1,
            nat_of(d) == odd_part(m),
            s == two_adic(m),
            nat_of(d) * pow2(s as nat) == m,
            k <= MR_ROUNDS,
            forall|j: int|
                0 <= j < TRIAL_COUNT ==> (nv % (#[trigger] nth_trial_prime(j) as nat) != 0
                    || nv == nth_trial_prime(j)),
            forall|j: int| 0 <= j < k ==> mr_base_passes(nv, #[trigger] nth_mr_base(j) as nat),
        decreases MR_ROUNDS - k,
    {
        let a = mr_base_at(k);
        if !mr_round(n, &nm1, &d, s, a) {
            return false;
        }
        k = k + 1;
    }
    true
}

} // verus!
