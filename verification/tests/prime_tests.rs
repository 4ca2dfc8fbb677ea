use holographic_pass::accumulator::Accumulator;
use sha2::{Digest, Sha256};
use holographic_pass::primality::is_probable_prime;
use holographic_pass::AccError;
use num_bigint::BigUint;

#[test]
fn hash_to_prime_is_deterministic() {
    let a = Accumulator::new("1000003", "65537", 4, "domain-one").unwrap();
    let b = Accumulator::new("999999999989", "3", 7, "domain-one").unwrap();
    let p1 = a.hash_to_prime("worker-39").unwrap();
    let p2 = a.hash_to_prime("worker-39").unwrap();
    let p3 = b.hash_to_prime("worker-39").unwrap();
    // repeated and independent derivations agree; only domain and agent matter
    assert_eq!(p1, p2);
    assert_eq!(p1, p3);
}

#[test]
fn hash_to_prime_separates_domains_and_agents() {
    let a = Accumulator::new("1000003", "65537", 4, "domain-one").unwrap();
    let b = Accumulator::new("1000003", "65537", 4, "domain-two").unwrap();
    let p_same_agent_other_domain = b.hash_to_prime("worker-39").unwrap();
    let p1 = a.hash_to_prime("worker-39").unwrap();
    let p_other_agent = a.hash_to_prime("worker-00").unwrap();
    assert_ne!(p1, p_same_agent_other_domain);
    assert_ne!(p1, p_other_agent);
}

#[test]
fn derived_prime_has_1024_bits_and_is_odd() {
    let a = Accumulator::new("1000003", "65537", 4, "test").unwrap();
    let p_str = a.hash_to_prime("agent-14").unwrap();
    let p = BigUint::parse_bytes(p_str.as_bytes(), 10).unwrap();
    assert_eq!(p.bits(), 1024);
    assert!(p.bit(0));
    assert!(is_probable_prime(&p));
}

#[test]
fn hash_to_prime_rejects_oversized_agent() {
    let a = Accumulator::new("1000003", "65537", 4, "test").unwrap();
    let big_agent = "x".repeat(4097);
    assert_eq!(
        a.hash_to_prime(&big_agent).unwrap_err(),
        AccError::InputTooLarge
    );
    // one byte under the limit is accepted
    let ok_agent = "y".repeat(4096);
    assert!(a.hash_to_prime(&ok_agent).is_ok());
}

#[test]
fn derivation_is_recomputable_by_a_third_party() {
    let acc = Accumulator::new("1000003", "65537", 4, "audit").unwrap();
    let p_str = acc.hash_to_prime("worker-03").unwrap();

    // rebuild the documented derivation from scratch: four chained
    // digests of (domain ":" agent, nonce_le, block_le), forced top and
    // low bits, first candidate that passes the primality test
    let mut nonce: u64 = 0;
    let expected = loop {
        let mut cand: Vec<u8> = Vec::new();
        for i in 0u32..4 {
            let mut h = Sha256::new();
            h.update(b"audit:");
            h.update(b"worker-03");
            h.update(&nonce.to_le_bytes());
            h.update(&i.to_le_bytes());
            cand.extend_from_slice(&h.finalize());
        }
        cand[0] |= 0x80;
        cand[127] |= 1;
        let c = BigUint::from_bytes_be(&cand);
        if is_probable_prime(&c) {
            break c;
        }
        nonce += 1;
        assert!(nonce <= 200_000);
    };
    assert_eq!(p_str, expected.to_str_radix(10));
}
