//! The accumulator state machine: a chained, order-sensitive
//! cryptographic fingerprint driven by modular exponentiation. Every
//! mutating call is guarded by input-size validation, an operation-count
//! ceiling, and rollback protection, and commits its state only when the
//! whole computation has succeeded.
use vstd::prelude::*;
use vstd::arithmetic::power::pow;
use vstd::arithmetic::power2::pow2;
use vstd::string::StringExecFns;
use vstd::utf8::encode_utf8;
use crate::{AccError, MAX_OP_LIMIT, MAX_STRING_LEN};
use crate::bignum::{
    big_eq, big_from_bytes_be, big_from_decimal, big_from_u64, big_lt, big_modpow, big_mul,
    big_rem, big_to_radix, nat_of,
};
use crate::derive_prime::{derived_prime, find_prime, find_prime_nonce};
use crate::digits::{be_value, dec_chars, dec_value, hex_chars, hex_of_bytes, is_dec_byte,
    is_dec_bytes, le4};
use crate::hashing::{hex_encode, sha256, sha256_of};
use crate::jitter::inject_heavy_jitter;
use crate::primality::mr_prime;

verus! {

/// The evolving accumulator: group parameters, the current fingerprint,
/// the position inside the current checkpoint segment, and the monotonic
/// operation counter with its ceiling.
#[derive(Debug)]
pub struct Accumulator {
    pub modulus: num_bigint::BigUint,
    pub current_t: num_bigint::BigUint,
    pub depth: u64,
    pub max_depth: u64,
    pub generator: num_bigint::BigUint,
    pub op_count: u64,
    pub max_op_limit: u64,
    pub domain_context: String,
}

/// The domain-bound prefix hashed into every prime derivation:
/// `domain ":" agent`.
pub open spec fn hash_prefix(domain: Seq<char>, agent: Seq<char>) -> Seq<u8> {
    encode_utf8(domain) + seq![58u8] + encode_utf8(agent)
}

/// The exponent tying a transition to its position: SHA-256 of the
/// decimal rendering of the depth, read as an integer.
pub open spec fn depth_exponent(depth: nat) -> nat {
    be_value(sha256_of(encode_utf8(dec_chars(depth))))
}

/// One state transition: raise the fingerprint to the agent's prime and
/// mix in the depth term, all modulo `m`.
pub open spec fn transition_value(m: nat, g: nat, t: nat, p: nat, depth: nat) -> nat {
    (((pow(t as int, p) % (m as int)) * (pow(g as int, depth_exponent(depth)) % (m as int))) % (
    m as int)) as nat
}

/// The digest committed by a snapshot: SHA-256 of the decimal final
/// fingerprint concatenated with the caller-supplied previous hash.
pub open spec fn snapshot_digest(t2: nat, prev_hash: Seq<char>) -> Seq<u8> {
    sha256_of(encode_utf8(dec_chars(t2)) + encode_utf8(prev_hash))
}

/// The emitted snapshot record, as its JSON text.
pub open spec fn snapshot_json(segment_id: u64, t2: nat, prev_hash: Seq<char>) -> Seq<char> {
    "{\"segment_id\": "@ + dec_chars(segment_id as nat) + ", \"final_t\": \""@ + dec_chars(t2)
        + "\", \"snapshot_hash\": \""@ + hex_of_bytes(snapshot_digest(t2, prev_hash))
        + "\", \"prev_hash\": \""@ + prev_hash + "\"}"@
}

/// The exponent perturbing merge step `idx` at the given depth.
pub open spec fn merge_depth_exponent(depth_after: nat, idx: u32) -> nat {
    be_value(sha256_of(encode_utf8(dec_chars(depth_after)) + le4(idx)))
}

/// One cascade step of the order-sensitive merge.
pub open spec fn merge_step(m: nat, g: nat, t: nat, p: nat, depth_after: nat, idx: u32) -> nat {
    (((pow(t as int, p) % (m as int)) * (pow(g as int, merge_depth_exponent(depth_after, idx)) % (
    m as int))) % (m as int)) as nat
}

/// The fingerprint after cascading the first `k` primes into `t`. The
/// step index and running depth are folded into each perturbation, so
/// the result depends on the order of the primes, not just their
/// multiset.
pub open spec fn merge_value(m: nat, g: nat, t: nat, ps: Seq<nat>, base_depth: u64, k: int) -> nat
    decreases k,
{
    if k <= 0 {
        t
    } else {
        merge_step(
            m,
            g,
            merge_value(m, g, t, ps, base_depth, k - 1),
            ps[k - 1],
            (base_depth + k) as nat,
            (k - 1) as u32,
        )
    }
}

/// The numeric values of a list of decimal prime strings.
pub open spec fn prime_values(ps: Seq<Seq<char>>) -> Seq<nat> {
    Seq::new(ps.len(), |i: int| dec_value(encode_utf8(ps[i])))
}

/// The first failure among the merge's prime strings, in order: each is
/// size-checked, then format-checked.
pub open spec fn primes_error(ps: Seq<Seq<char>>) -> Option<AccError>
    decreases ps.len(),
{
    if ps.len() == 0 {
        None
    } else if encode_utf8(ps[0]).len() > MAX_STRING_LEN {
        Some(AccError::InputTooLarge)
    } else if !is_dec_bytes(encode_utf8(ps[0])) {
        Some(AccError::InvalidNumericFormat)
    } else {
        primes_error(ps.drop_first())
    }
}

/// The merge's counters must stay inside machine words: the step index
/// inside 32 bits, and the operation and depth counters inside 64.
pub open spec fn merge_counters_ok(op_count: u64, base_depth: u64, len: nat) -> bool {
    &&& len <= u32::MAX
    &&& op_count + 2 * len <= u64::MAX
    &&& base_depth + len <= u64::MAX
}

/// The failure of a construction attempt, if any: size checks, then the
/// numeric grammar, then a modulus large enough to admit the initial
/// fingerprint of 2.
pub open spec fn construct_error(modulus: Seq<char>, generator: Seq<char>, domain: Seq<char>)
    -> Option<AccError> {
    if encode_utf8(modulus).len() > MAX_STRING_LEN || encode_utf8(generator).len()
        > MAX_STRING_LEN || encode_utf8(domain).len() > MAX_STRING_LEN {
        Some(AccError::InputTooLarge)
    } else if !is_dec_bytes(encode_utf8(modulus)) {
        Some(AccError::InvalidNumericFormat)
    } else if !is_dec_bytes(encode_utf8(generator)) {
        Some(AccError::InvalidNumericFormat)
    } else if dec_value(encode_utf8(modulus)) <= 2 {
        Some(AccError::InvalidNumericFormat)
    } else {
        None
    }
}

/// The failure of an `update_state` call, if any, in the order the
/// checks run.
pub open spec fn update_state_error(pre: Accumulator, agent: Seq<char>, prev_t: Seq<char>)
    -> Option<AccError> {
    if encode_utf8(agent).len() > MAX_STRING_LEN || encode_utf8(prev_t).len() > MAX_STRING_LEN {
        Some(AccError::InputTooLarge)
    } else if pre.op_count > MAX_OP_LIMIT {
        Some(AccError::OpLimitExceeded)
    } else if !is_dec_bytes(encode_utf8(prev_t)) {
        Some(AccError::InvalidNumericFormat)
    } else if dec_value(encode_utf8(prev_t)) != pre.t_val() {
        Some(AccError::StateMismatch)
    } else if find_prime_nonce(hash_prefix(pre.domain(), agent), 0) is None {
        Some(AccError::PrimeSearchExhausted)
    } else {
        None
    }
}

/// The failure of an `update_with_snapshot` call, if any: the rollback
/// guard runs before the remaining size checks.
pub open spec fn snapshot_error(
    pre: Accumulator,
    agent: Seq<char>,
    prev_hash: Seq<char>,
    prev_t: Seq<char>,
) -> Option<AccError> {
    if encode_utf8(prev_t).len() > MAX_STRING_LEN {
        Some(AccError::InputTooLarge)
    } else if !is_dec_bytes(encode_utf8(prev_t)) {
        Some(AccError::InvalidNumericFormat)
    } else if dec_value(encode_utf8(prev_t)) != pre.t_val() {
        Some(AccError::StateMismatch)
    } else if encode_utf8(agent).len() > MAX_STRING_LEN || encode_utf8(prev_hash).len()
        > MAX_STRING_LEN {
        Some(AccError::InputTooLarge)
    } else if pre.op_count > MAX_OP_LIMIT {
        Some(AccError::OpLimitExceeded)
    } else if find_prime_nonce(hash_prefix(pre.domain(), agent), 0) is None {
        Some(AccError::PrimeSearchExhausted)
    } else {
        None
    }
}

/// The failure of a `safe_merge_branches` call, if any, in the order the
/// checks run.
pub open spec fn merge_error(
    pre: Accumulator,
    base_t: Seq<char>,
    primes: Seq<Seq<char>>,
    base_depth: u64,
) -> Option<AccError> {
    if encode_utf8(base_t).len() > MAX_STRING_LEN {
        Some(AccError::InputTooLarge)
    } else if pre.op_count > MAX_OP_LIMIT || !merge_counters_ok(pre.op_count, base_depth,
        primes.len()) {
        Some(AccError::OpLimitExceeded)
    } else if !is_dec_bytes(encode_utf8(base_t)) {
        Some(AccError::InvalidNumericFormat)
    } else {
        primes_error(primes)
    }
}

/// Reject any externally supplied string longer than `MAX_STRING_LEN`
/// bytes before it is processed at all.
pub(crate) fn validate_input(s: &str) -> (r: Result<(), AccError>)
    ensures
        r is Ok <==> encode_utf8(s@).len() <= MAX_STRING_LEN,
        r is Err ==> r == Err::<(), AccError>(AccError::InputTooLarge),
{
    let b = s.as_bytes();
    if b.len() > MAX_STRING_LEN {
        Err(AccError::InputTooLarge)
    } else {
        Ok(())
    }
}

/// Parse a decimal string, rejecting anything but plain ASCII digits.
pub(crate) fn parse_decimal(s: &str) -> (r: Result<num_bigint::BigUint, AccError>)
    ensures
        match r {
            Ok(v) => is_dec_bytes(encode_utf8(s@)) && nat_of(v) == dec_value(encode_utf8(s@)),
            Err(e) => e == AccError::InvalidNumericFormat && !is_dec_bytes(encode_utf8(s@)),
        },
{
    let b = s.as_bytes();
    if b.len() == 0 {
        return Err(AccError::InvalidNumericFormat);
    }
    let mut i: usize = 0;
    while i < b.len()
        invariant
            i <= b@.len(),
            b@ == encode_utf8(s@),
            forall|j: int| 0 <= j < i ==> is_dec_byte(#[trigger] b@[j]),
        decreases b@.len() - i,
    {
        let c = b[i];
        if c < 48 || c > 57 {
            return Err(AccError::InvalidNumericFormat);
        }
        i = i + 1;
    }
    Ok(big_from_decimal(b))
}

/// The byte prefix `domain ":" agent` fed into every candidate digest.
fn build_prefix(domain: &str, agent: &str) -> (r: Vec<u8>)
    ensures
        r@ == hash_prefix(domain@, agent@),
{
    let mut v: Vec<u8> = Vec::new();
    v.extend_from_slice(domain.as_bytes());
    v.push(58);
    v.extend_from_slice(agent.as_bytes());
    proof {
        assert(v@ =~= hash_prefix(domain@, agent@));
    }
    v
}

impl Accumulator {
    /// The modulus as a mathematical value.
    pub open spec fn modulus_val(&self) -> nat {
        nat_of(self.modulus)
    }

    /// The generator as a mathematical value.
    pub open spec fn generator_val(&self) -> nat {
        nat_of(self.generator)
    }

    /// The current fingerprint as a mathematical value.
    pub open spec fn t_val(&self) -> nat {
        nat_of(self.current_t)
    }

    /// The domain-separation tag.
    pub open spec fn domain(&self) -> Seq<char> {
        self.domain_context@
    }

    /// The structural invariant: the modulus admits the initial
    /// fingerprint, the fingerprint lies in the group range, the
    /// ceiling is the configured constant, the depth is covered by the
    /// operation counter, and the domain tag fits the size limit.
    pub open spec fn wf(&self) -> bool {
        &&& self.modulus_val() > 2
        &&& self.t_val() < self.modulus_val()
        &&& self.max_op_limit == MAX_OP_LIMIT
        &&& 2 * self.depth <= self.op_count
        &&& encode_utf8(self.domain_context@).len() <= MAX_STRING_LEN
    }

    /// All configuration fields are those of `pre`.
    pub open spec fn same_config(&self, pre: Accumulator) -> bool {
        &&& self.modulus == pre.modulus
        &&& self.generator == pre.generator
        &&& self.max_depth == pre.max_depth
        &&& self.max_op_limit == pre.max_op_limit
        &&& self.domain_context == pre.domain_context
    }

    /// Construct an accumulator over the given group. Every string is
    /// size-checked, the numeric parameters must be plain decimal
    /// digits, and the modulus must exceed the initial fingerprint of 2.
    pub fn new(modulus_str: &str, generator_str: &str, max_depth: u64, domain: &str) -> (r: Result<
        Accumulator,
        AccError,
    >)
        ensures
            match r {
                Ok(acc) => {
                    &&& construct_error(modulus_str@, generator_str@, domain@) is None
                    &&& acc.wf()
                    &&& acc.modulus_val() == dec_value(encode_utf8(modulus_str@))
                    &&& acc.generator_val() == dec_value(encode_utf8(generator_str@))
                    &&& acc.t_val() == 2
                    &&& acc.depth == 0
                    &&& acc.max_depth == max_depth
                    &&& acc.op_count == 0
                    &&& acc.domain() == domain@
                },
                Err(e) => Some(e) == construct_error(modulus_str@, generator_str@, domain@),
            },
    {
        if let Err(e) = validate_input(modulus_str) {
            return Err(e);
        }
        if let Err(e) = validate_input(generator_str) {
            return Err(e);
        }
        if let Err(e) = validate_input(domain) {
            return Err(e);
        }
        let m = parse_decimal(modulus_str)?;
        let g = parse_decimal(generator_str)?;
        let two = big_from_u64(2);
        if !big_lt(&two, &m) {
            return Err(AccError::InvalidNumericFormat);
        }
        Ok(Accumulator {
            modulus: m,
            current_t: two,
            depth: 0,
            max_depth,
            generator: g,
            op_count: 0,
            max_op_limit: MAX_OP_LIMIT,
            domain_context: String::from_str(domain),
        })
    }

    /// The current fingerprint, rendered in base 16.
    pub fn get_state(&self) -> (r: String)
        ensures
            r@ == hex_chars(self.t_val()),
    {
        big_to_radix(&self.current_t, 16)
    }

    /// The position inside the current checkpoint segment.
    pub fn get_depth(&self) -> (r: u64)
        ensures
            r == self.depth,
    {
        self.depth
    }

    /// The monotonic operation counter.
    pub fn get_op_count(&self) -> (r: u64)
        ensures
            r == self.op_count,
    {
        self.op_count
    }

    /// Reject further mutation once the operation counter has passed its
    /// ceiling.
    fn check_op_limit(&self) -> (r: Result<(), AccError>)
        requires
            self.max_op_limit == MAX_OP_LIMIT,
        ensures
            r is Ok <==> self.op_count <= MAX_OP_LIMIT,
            r is Err ==> r == Err::<(), AccError>(AccError::OpLimitExceeded),
    {
        if self.op_count > self.max_op_limit {
            Err(AccError::OpLimitExceeded)
        } else {
            Ok(())
        }
    }

    /// Derive the deterministic prime for this accumulator's domain and
    /// the given agent. The result is a pure function of the two
    /// strings: it has exactly 1024 bits, is odd, and passes the
    /// primality test.
    pub fn hash_to_prime(&self, agent_id: &str) -> (r: Result<String, AccError>)
        requires
            self.wf(),
        ensures
            match r {
                Ok(out) => {
                    &&& encode_utf8(agent_id@).len() <= MAX_STRING_LEN
                    &&& derived_prime(hash_prefix(self.domain(), agent_id@)) matches Some(p)
                        && out@ == dec_chars(p) && pow2(1023) <= p < pow2(1024) && p % 2 == 1
                        && mr_prime(p)
                },
                Err(e) => {
                    if encode_utf8(agent_id@).len() > MAX_STRING_LEN {
                        e == AccError::InputTooLarge
                    } else {
                        e == AccError::PrimeSearchExhausted && derived_prime(
                            hash_prefix(self.domain(), agent_id@),
                        ) is None
                    }
                },
            },
    {
        if let Err(e) = validate_input(agent_id) {
            return Err(e);
        }
        inject_heavy_jitter();
        let prefix = build_prefix(self.domain_context.as_str(), agent_id);
        let p = find_prime(&prefix)?;
        Ok(big_to_radix(&p, 10))
    }

    /// One transition: derive the agent's prime, raise the fingerprint
    /// to it, mix in the depth term, and account two operations. The
    /// fingerprint itself is not committed here; the caller does that.
    fn compute_transition(&mut self, agent_id: &str) -> (r: Result<
        (num_bigint::BigUint, u64),
        AccError,
    >)
        requires
            old(self).wf(),
            old(self).op_count <= MAX_OP_LIMIT,
            encode_utf8(agent_id@).len() <= MAX_STRING_LEN,
        ensures
            final(self).same_config(*old(self)),
            final(self).current_t == old(self).current_t,
            final(self).depth == old(self).depth,
            final(self).wf(),
            match r {
                Ok(out) => {
                    &&& derived_prime(hash_prefix(old(self).domain(), agent_id@)) matches Some(p)
                        && nat_of(out.0) == transition_value(
                        old(self).modulus_val(),
                        old(self).generator_val(),
                        old(self).t_val(),
                        p,
                        old(self).depth as nat,
                    )
                    &&& nat_of(out.0) < old(self).modulus_val()
                    &&& out.1 == old(self).depth + 1
                    &&& final(self).op_count == old(self).op_count + 2
                },
                Err(e) => {
                    &&& e == AccError::PrimeSearchExhausted
                    &&& derived_prime(hash_prefix(old(self).domain(), agent_id@)) is None
                    &&& *final(self) == *old(self)
                },
            },
    {
        inject_heavy_jitter();
        let prefix = build_prefix(self.domain_context.as_str(), agent_id);
        let p = match find_prime(&prefix) {
            Ok(p) => p,
            Err(e) => {
                return Err(e);
            },
        };
        let path_term = big_modpow(&self.current_t, &p, &self.modulus);
        self.op_count = self.op_count + 1;
        let depth_big = big_from_u64(self.depth);
        let depth_str = big_to_radix(&depth_big, 10);
        let depth_digest = sha256(depth_str.as_str().as_bytes());
        let depth_int = big_from_bytes_be(depth_digest.as_slice());
        let depth_term = big_modpow(&self.generator, &depth_int, &self.modulus);
        self.op_count = self.op_count + 1;
        let next_t = big_rem(&big_mul(&path_term, &depth_term), &self.modulus);
        Ok((next_t, self.depth + 1))
    }

    /// A rollback-protected update: the caller must present the decimal
    /// rendering of the fingerprint it last observed; on any failure the
    /// state is unchanged, and on success the fingerprint advances by
    /// one transition, the depth by one, and the operation counter by
    /// two.
    pub fn update_state(&mut self, agent_id: &str, expected_prev_t: &str) -> (r: Result<
        String,
        AccError,
    >)
        requires
            old(self).wf(),
        ensures
            final(self).wf(),
            final(self).same_config(*old(self)),
            match r {
                Ok(out) => {
                    &&& update_state_error(*old(self), agent_id@, expected_prev_t@) is None
                    &&& derived_prime(hash_prefix(old(self).domain(), agent_id@)) matches Some(p)
                        && final(self).t_val() == transition_value(
                        old(self).modulus_val(),
                        old(self).generator_val(),
                        old(self).t_val(),
                        p,
                        old(self).depth as nat,
                    ) && out@ == dec_chars(final(self).t_val())
                    &&& final(self).depth == old(self).depth + 1
                    &&& final(self).op_count == old(self).op_count + 2
                },
                Err(e) => {
                    &&& Some(e) == update_state_error(*old(self), agent_id@, expected_prev_t@)
                    &&& *final(self) == *old(self)
                },
            },
    {
        if let Err(e) = validate_input(agent_id) {
            return Err(e);
        }
        if let Err(e) = validate_input(expected_prev_t) {
            return Err(e);
        }
        if let Err(e) = self.check_op_limit() {
            return Err(e);
        }
        let prev = parse_decimal(expected_prev_t)?;
        if !big_eq(&self.current_t, &prev) {
            return Err(AccError::StateMismatch);
        }
        let (next_t, _next_depth) = self.compute_transition(agent_id)?;
        let out = big_to_radix(&next_t, 10);
        self.current_t = next_t;
        self.depth = self.depth + 1;
        Ok(out)
    }

    /// A rollback-protected update that commits a checkpoint when the
    /// segment is full. While `next_depth < max_depth` the transition
    /// commits as usual and no record is emitted; once
    /// `next_depth >= max_depth` the decimal final fingerprint is
    /// chained with the caller-supplied previous snapshot hash into a
    /// digest, the fingerprint is reseeded from that digest, the depth
    /// resets to zero, and the snapshot record is returned as JSON.
    pub fn update_with_snapshot(
        &mut self,
        agent_id: &str,
        segment_id: u64,
        prev_snapshot_hash: &str,
        expected_prev_t: &str,
    ) -> (r: Result<(String, bool, String), AccError>)
        requires
            old(self).wf(),
        ensures
            final(self).wf(),
            final(self).same_config(*old(self)),
            match r {
                Ok(out) => {
                    &&& snapshot_error(
                        *old(self),
                        agent_id@,
                        prev_snapshot_hash@,
                        expected_prev_t@,
                    ) is None
                    &&& final(self).op_count == old(self).op_count + 2
                    &&& derived_prime(hash_prefix(old(self).domain(), agent_id@)) matches Some(p)
                        && ({
                        let t2 = transition_value(
                            old(self).modulus_val(),
                            old(self).generator_val(),
                            old(self).t_val(),
                            p,
                            old(self).depth as nat,
                        );
                        &&& out.1 == (old(self).depth + 1 >= old(self).max_depth)
                        &&& if old(self).depth + 1 >= old(self).max_depth {
                            let seed = be_value(snapshot_digest(t2, prev_snapshot_hash@)) % old(
                                self,
                            ).modulus_val();
                            &&& final(self).t_val() == seed
                            &&& final(self).depth == 0
                            &&& out.0@ == dec_chars(seed)
                            &&& out.2@ == snapshot_json(segment_id, t2, prev_snapshot_hash@)
                        } else {
                            &&& final(self).t_val() == t2
                            &&& final(self).depth == old(self).depth + 1
                            &&& out.0@ == dec_chars(t2)
                            &&& out.2@ == Seq::<char>::empty()
                        }
                    })
                },
                Err(e) => {
                    &&& Some(e) == snapshot_error(
                        *old(self),
                        agent_id@,
                        prev_snapshot_hash@,
                        expected_prev_t@,
                    )
                    &&& *final(self) == *old(self)
                },
            },
    {
        if let Err(e) = validate_input(expected_prev_t) {
            return Err(e);
        }
        let prev = parse_decimal(expected_prev_t)?;
        if !big_eq(&self.current_t, &prev) {
            return Err(AccError::StateMismatch);
        }
        if let Err(e) = validate_input(agent_id) {
            return Err(e);
        }
        if let Err(e) = validate_input(prev_snapshot_hash) {
            return Err(e);
        }
        if let Err(e) = self.check_op_limit() {
            return Err(e);
        }
        let (next_t, next_depth) = self.compute_transition(agent_id)?;
        let ghost t2v = nat_of(next_t);
        if next_depth >= self.max_depth {
            let t_str = big_to_radix(&next_t, 10);
            let mut hash_input: Vec<u8> = Vec::new();
            hash_input.extend_from_slice(t_str.as_str().as_bytes());
            hash_input.extend_from_slice(prev_snapshot_hash.as_bytes());
            proof {
                assert(hash_input@ =~= encode_utf8(dec_chars(t2v)) + encode_utf8(
                    prev_snapshot_hash@,
                ));
            }
            let digest = sha256(hash_input.as_slice());
            let snapshot_hash = hex_encode(digest.as_slice());
            let seed_raw = big_from_bytes_be(digest.as_slice());
            let new_seed = big_rem(&seed_raw, &self.modulus);
            let out0 = big_to_radix(&new_seed, 10);
            self.current_t = new_seed;
            self.depth = 0;
            let seg_big = big_from_u64(segment_id);
            let seg_str = big_to_radix(&seg_big, 10);
            let mut json = String::new();
            json.append("{\"segment_id\": ");
            json.append(seg_str.as_str());
            json.append(", \"final_t\": \"");
            json.append(t_str.as_str());
            json.append("\", \"snapshot_hash\": \"");
            json.append(snapshot_hash.as_str());
            json.append("\", \"prev_hash\": \"");
            json.append(prev_snapshot_hash);
            json.append("\"}");
            proof {
                assert(json@ =~= snapshot_json(segment_id, t2v, prev_snapshot_hash@));
            }
            Ok((out0, true, json))
        } else {
            let out0 = big_to_radix(&next_t, 10);
            self.current_t = next_t;
            self.depth = next_depth;
            Ok((out0, false, String::new()))
        }
    }

    /// Cascade an ordered list of decimal primes into a base
    /// fingerprint. Each step raises the running term to the next prime
    /// and mixes in a perturbation bound to the step's depth and index,
    /// so permuting the list changes the result. The accumulator's own
    /// fingerprint and depth are untouched; only the operation counter
    /// advances, by two per prime.
    pub fn safe_merge_branches(
        &mut self,
        base_t_str: &str,
        primes_str: &Vec<String>,
        base_depth: u64,
    ) -> (r: Result<(String, u64, u64), AccError>)
        requires
            old(self).wf(),
        ensures
            final(self).wf(),
            final(self).same_config(*old(self)),
            final(self).current_t == old(self).current_t,
            final(self).depth == old(self).depth,
            match r {
                Ok(out) => {
                    &&& merge_error(
                        *old(self),
                        base_t_str@,
                        primes_str.deep_view(),
                        base_depth,
                    ) is None
                    &&& out.0@ == dec_chars(
                        merge_value(
                            old(self).modulus_val(),
                            old(self).generator_val(),
                            dec_value(encode_utf8(base_t_str@)),
                            prime_values(primes_str.deep_view()),
                            base_depth,
                            primes_str@.len() as int,
                        ),
                    )
                    &&& out.1 == base_depth + primes_str@.len()
                    &&& out.2 == 2 * primes_str@.len()
                    &&& final(self).op_count == old(self).op_count + 2 * primes_str@.len()
                },
                Err(e) => {
                    &&& Some(e) == merge_error(
                        *old(self),
                        base_t_str@,
                        primes_str.deep_view(),
                        base_depth,
                    )
                    &&& *final(self) == *old(self)
                },
            },
    {
        let ghost ps = primes_str.deep_view();
        if let Err(e) = validate_input(base_t_str) {
            return Err(e);
        }
        if let Err(e) = self.check_op_limit() {
            return Err(e);
        }
        let len = primes_str.len();
        let len64 = len as u64;
        if len64 > (u32::MAX as u64) {
            return Err(AccError::OpLimitExceeded);
        }
        if self.op_count > u64::MAX - 2 * len64 {
            return Err(AccError::OpLimitExceeded);
        }
        if base_depth > u64::MAX - len64 {
            return Err(AccError::OpLimitExceeded);
        }
        inject_heavy_jitter();
        let mut current = parse_decimal(base_t_str)?;
        let ghost pv = prime_values(ps);
        let ghost m_v = self.modulus_val();
        let ghost g_v = self.generator_val();
        let ghost btv = dec_value(encode_utf8(base_t_str@));
        let mut i: usize = 0;
        let mut next_depth: u64 = base_depth;
        let mut ops: u64 = 0;
        proof {
            assert(ps.skip(0) =~= ps);
        }
        while i < len
            invariant
                *self == *old(self),
                old(self).wf(),
                i <= len,
                len == ps.len(),
                ps == primes_str.deep_view(),
                pv == prime_values(ps),
                len <= u32::MAX,
                base_depth + len <= u64::MAX,
                old(self).op_count + 2 * len <= u64::MAX,
                m_v == old(self).modulus_val(),
                g_v == old(self).generator_val(),
                next_depth == base_depth + i,
                ops == 2 * i,
                nat_of(current) == merge_value(m_v, g_v, btv, pv, base_depth, i as int),
                merge_error(*old(self), base_t_str@, ps, base_depth) == primes_error(ps),
                primes_error(ps) == primes_error(ps.skip(i as int)),
            decreases len - i,
        {
            let p_str: &String = &primes_str[i];
            proof {
                assert(ps.skip(i as int)[0] == ps[i as int]);
                assert(ps.skip(i as int).drop_first() =~= ps.skip(i as int + 1));
            }
            if let Err(e) = validate_input(p_str.as_str()) {
                return Err(e);
            }
            let p = match parse_decimal(p_str.as_str()) {
                Ok(p) => p,
                Err(e) => {
                    return Err(e);
                },
            };
            let path = big_modpow(&current, &p, &self.modulus);
            ops = ops + 1;
            next_depth = next_depth + 1;
            let nd_big = big_from_u64(next_depth);
            let nd_str = big_to_radix(&nd_big, 10);
            let mut msg: Vec<u8> = Vec::new();
            msg.extend_from_slice(nd_str.as_str().as_bytes());
            crate::derive_prime::push_le4(&mut msg, i as u32);
            proof {
                assert(msg@ =~= encode_utf8(dec_chars(next_depth as nat)) + le4(i as u32));
            }
            let dg = sha256(msg.as_slice());
            let dint = big_from_bytes_be(dg.as_slice());
            let dterm = big_modpow(&self.generator, &dint, &self.modulus);
            current = big_rem(&big_mul(&path, &dterm), &self.modulus);
            ops = ops + 1;
            proof {
                assert(pv[i as int] == dec_value(encode_utf8(ps[i as int])));
                assert(merge_value(m_v, g_v, btv, pv, base_depth, i as int + 1) == merge_step(
                    m_v,
                    g_v,
                    merge_value(m_v, g_v, btv, pv, base_depth, i as int),
                    pv[i as int],
                    (base_depth + i + 1) as nat,
                    i as u32,
                ));
            }
            i = i + 1;
        }
        self.op_count = self.op_count + ops;
        let out0 = big_to_radix(&current, 10);
        Ok((out0, next_depth, ops))
    }
}

} // verus!
