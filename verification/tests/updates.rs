use holographic_pass::accumulator::Accumulator;
use holographic_pass::AccError;
use num_bigint::BigUint;
use sha2::{Digest, Sha256};

#[test]
fn update_matches_recomputed_transition() {
    let mut acc = Accumulator::new("1000003", "65537", 10, "test").unwrap();
    let prime_str = acc.hash_to_prime("agent-15").unwrap();
    let t1 = acc.update_state("agent-15", "2").unwrap();
    assert_eq!(acc.get_depth(), 1);
    assert_eq!(acc.get_op_count(), 2);

    // recompute (2^P * g^H(0)) mod m independently
    let m = BigUint::parse_bytes(b"1000003", 10).unwrap();
    let g = BigUint::parse_bytes(b"65537", 10).unwrap();
    let p = BigUint::parse_bytes(prime_str.as_bytes(), 10).unwrap();
    let h0 = BigUint::from_bytes_be(&Sha256::digest(b"0"));
    let path = BigUint::from(2u32).modpow(&p, &m);
    let depth_term = g.modpow(&h0, &m);
    let expected = (path * depth_term) % &m;
    assert_eq!(t1, expected.to_str_radix(10));

    // the reported state is the same value in base 16
    assert_eq!(acc.get_state(), expected.to_str_radix(16));
}

#[test]
fn stale_prev_t_is_rejected_and_state_kept() {
    let mut acc = Accumulator::new("1000003", "65537", 10, "test").unwrap();
    let t1 = acc.update_state("agent-15", "2").unwrap();
    let state_after_first = acc.get_state();
    let ops_after_first = acc.get_op_count();

    // the second call presents the fingerprint from before the first call
    let err = acc.update_state("agent-03", "2").unwrap_err();
    assert_eq!(err, AccError::StateMismatch);
    assert_eq!(acc.get_state(), state_after_first);
    assert_eq!(acc.get_depth(), 1);
    assert_eq!(acc.get_op_count(), ops_after_first);

    // with the threaded value the update goes through
    let t2 = acc.update_state("agent-03", &t1).unwrap();
    assert_ne!(t2, t1);
    assert_eq!(acc.get_depth(), 2);
    assert_eq!(acc.get_op_count(), ops_after_first + 2);
}

#[test]
fn update_rejects_bad_prev_format() {
    let mut acc = Accumulator::new("1000003", "65537", 10, "test").unwrap();
    assert_eq!(
        acc.update_state("agent-15", "2a").unwrap_err(),
        AccError::InvalidNumericFormat
    );
    assert_eq!(acc.get_state(), "2");
    assert_eq!(acc.get_op_count(), 0);
}

#[test]
fn prev_t_comparison_is_numeric_not_textual() {
    // "002" denotes the same fingerprint as "2": the guard compares values
    let mut acc = Accumulator::new("1000003", "65537", 10, "test").unwrap();
    assert!(acc.update_state("agent-15", "002").is_ok());
    assert_eq!(acc.get_depth(), 1);
}
