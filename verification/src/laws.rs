//! The library's cross-cutting laws, stated and proved once over the
//! same spec functions the public contracts use.
use vstd::prelude::*;
use vstd::utf8::encode_utf8;
use crate::accumulator::{
    hash_prefix, merge_counters_ok, merge_error, primes_error, snapshot_json, transition_value,
    update_state_error, Accumulator,
};
use crate::derive_prime::{candidate_value, derived_prime, find_prime_nonce, NONCE_BOUND};
use crate::digits::{dec_chars, dec_value, is_dec_bytes, lemma_dec_round_trip};
use crate::primality::mr_prime;
use crate::{AccError, MAX_OP_LIMIT, MAX_STRING_LEN};

verus! {

/// A successful bounded search stops at a nonce whose candidate passes
/// the primality test.
proof fn lemma_found_nonce_passes(prefix: Seq<u8>, start: u64)
    requires
        find_prime_nonce(prefix, start) is Some,
    ensures
        mr_prime(candidate_value(prefix, find_prime_nonce(prefix, start)->0)),
    decreases NONCE_BOUND + 1 - start,
{
    if start > NONCE_BOUND {
    } else if mr_prime(candidate_value(prefix, start)) {
    } else {
        lemma_found_nonce_passes(prefix, (start + 1) as u64);
    }
}

/// Prime derivation is deterministic: for one domain and agent, any two
/// derived primes are the same prime. Independent parties can therefore
/// recompute and audit each other's derivations.
pub proof fn lemma_prime_derivation_deterministic(
    domain: Seq<char>,
    agent: Seq<char>,
    p1: nat,
    p2: nat,
)
    requires
        derived_prime(hash_prefix(domain, agent)) == Some(p1),
        derived_prime(hash_prefix(domain, agent)) == Some(p2),
    ensures
        p1 == p2,
{
}

/// Every derived prime is a 1024-bit odd value that passes the
/// primality test; this is the spec-level face of the derivation's
/// contract.
pub proof fn lemma_derived_prime_verdict(prefix: Seq<u8>, p: nat)
    requires
        derived_prime(prefix) == Some(p),
    ensures
        mr_prime(p),
{
    lemma_found_nonce_passes(prefix, 0);
}

/// The state invariant: a well-formed accumulator's fingerprint always
/// lies inside the group range.
pub proof fn lemma_fingerprint_in_group(acc: Accumulator)
    requires
        acc.wf(),
    ensures
        0 <= acc.t_val() < acc.modulus_val(),
{
}

/// A stale read is always caught: with the inputs inside the size
/// limit, the counter under its ceiling, and a well-formed decimal that
/// denotes anything but the current fingerprint, an update fails with
/// `StateMismatch` — and by `update_state`'s contract every such
/// failure leaves the whole state untouched. This covers the stale
/// second call of two sequential updates: after the first commits, any
/// `expected_prev_t` still denoting the earlier fingerprint mismatches
/// the new one.
pub proof fn lemma_stale_update_rejected(acc: Accumulator, agent: Seq<char>, prev_t: Seq<char>)
    requires
        encode_utf8(agent).len() <= MAX_STRING_LEN,
        encode_utf8(prev_t).len() <= MAX_STRING_LEN,
        acc.op_count <= MAX_OP_LIMIT,
        is_dec_bytes(encode_utf8(prev_t)),
        dec_value(encode_utf8(prev_t)) != acc.t_val(),
    ensures
        update_state_error(acc, agent, prev_t) == Some(AccError::StateMismatch),
{
}

/// Once the operation counter has passed its ceiling, every further
/// update is rejected before the rollback guard or any group work runs,
/// whatever else the inputs hold; the counter is never reset, so the
/// breaker stays tripped.
pub proof fn lemma_breaker_latches(acc: Accumulator, agent: Seq<char>, prev_t: Seq<char>)
    requires
        encode_utf8(agent).len() <= MAX_STRING_LEN,
        encode_utf8(prev_t).len() <= MAX_STRING_LEN,
        acc.op_count > MAX_OP_LIMIT,
    ensures
        update_state_error(acc, agent, prev_t) == Some(AccError::OpLimitExceeded),
{
}

/// A caller that reads the fingerprint it was handed back and threads
/// its decimal rendering into the next update can never hit the
/// rollback guard or the numeric grammar: given room in the size limit
/// and the operation ceiling, only prime-search exhaustion remains.
pub proof fn lemma_threaded_update_accepted(acc: Accumulator, agent: Seq<char>)
    requires
        acc.wf(),
        encode_utf8(agent).len() <= MAX_STRING_LEN,
        encode_utf8(dec_chars(acc.t_val())).len() <= MAX_STRING_LEN,
        acc.op_count <= MAX_OP_LIMIT,
    ensures
        update_state_error(acc, agent, dec_chars(acc.t_val())) is None || update_state_error(
            acc,
            agent,
            dec_chars(acc.t_val()),
        ) == Some(AccError::PrimeSearchExhausted),
{
    lemma_dec_round_trip(acc.t_val());
}

/// The skeleton of a full session at `max_depth` 4: three committed
/// transitions from a fresh accumulator stay below the threshold — so
/// by `update_with_snapshot`'s contract each of those calls reported
/// `is_snapshot == false` — and the fourth crosses it, so that call
/// reports `is_snapshot == true`, emits the snapshot record, and
/// resets the depth to zero.
pub proof fn lemma_fourth_update_snapshots(
    a0: Accumulator,
    a1: Accumulator,
    a2: Accumulator,
    a3: Accumulator,
)
    requires
        a0.depth == 0,
        a0.max_depth == 4,
        a1.depth == a0.depth + 1,
        a1.max_depth == a0.max_depth,
        a2.depth == a1.depth + 1,
        a2.max_depth == a1.max_depth,
        a3.depth == a2.depth + 1,
        a3.max_depth == a2.max_depth,
    ensures
        a0.depth + 1 < a0.max_depth,
        a1.depth + 1 < a1.max_depth,
        a2.depth + 1 < a2.max_depth,
        a3.depth + 1 >= a3.max_depth,
{
}

/// The emitted snapshot record is never the empty string.
pub proof fn lemma_snapshot_json_nonempty(segment_id: u64, t2: nat, prev_hash: Seq<char>)
    ensures
        snapshot_json(segment_id, t2, prev_hash).len() > 0,
{
    reveal_strlit("{\"segment_id\": ");
}

/// A failure among the merge's prime strings is always one of the two
/// input errors: an oversized string or a malformed decimal.
pub proof fn lemma_primes_error_kinds(ps: Seq<Seq<char>>)
    ensures
        primes_error(ps) is Some ==> primes_error(ps) == Some(AccError::InputTooLarge)
            || primes_error(ps) == Some(AccError::InvalidNumericFormat),
    decreases ps.len(),
{
    if ps.len() == 0 {
    } else if encode_utf8(ps[0]).len() > MAX_STRING_LEN {
    } else if !is_dec_bytes(encode_utf8(ps[0])) {
    } else {
        lemma_primes_error_kinds(ps.drop_first());
    }
}

/// With the base string inside the limits, the counter under its
/// ceiling and the counters within their words, a failing merge can
/// only be an input error — an oversized or malformed string, possibly
/// mid-list — and by `safe_merge_branches`' contract every failure
/// leaves the whole state, the operation counter included, unchanged:
/// no partial processing is observable.
pub proof fn lemma_merge_fails_only_on_inputs(
    acc: Accumulator,
    base_t: Seq<char>,
    primes: Seq<Seq<char>>,
    base_depth: u64,
)
    requires
        acc.op_count <= MAX_OP_LIMIT,
        merge_counters_ok(acc.op_count, base_depth, primes.len()),
    ensures
        merge_error(acc, base_t, primes, base_depth) is Some ==> merge_error(
            acc,
            base_t,
            primes,
            base_depth,
        ) == Some(AccError::InputTooLarge) || merge_error(acc, base_t, primes, base_depth) == Some(
            AccError::InvalidNumericFormat,
        ),
{
    lemma_primes_error_kinds(primes);
}

/// A transition lands back inside the group range for any positive
/// modulus, which is what lets every successful operation re-establish
/// the state invariant.
pub proof fn lemma_transition_in_range(m: nat, g: nat, t: nat, p: nat, depth: nat)
    requires
        m > 0,
    ensures
        transition_value(m, g, t, p, depth) < m,
{
}

} // verus!
