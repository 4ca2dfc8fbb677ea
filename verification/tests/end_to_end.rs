use holographic_pass::accumulator::Accumulator;
use holographic_pass::primality::is_probable_prime;
use holographic_pass::setup::{generate_safe_modulus, search_prime_from};
use num_bigint::BigUint;

#[test]
fn generated_modulus_is_a_large_composite() {
    let n_str = generate_safe_modulus(64).unwrap();
    let n = BigUint::parse_bytes(n_str.as_bytes(), 10).unwrap();
    assert!(n > BigUint::from(3u32));
    // a product of two primes is composite
    assert!(!is_probable_prime(&n));
}

#[test]
fn full_session_reaches_a_snapshot() {
    let modulus = generate_safe_modulus(2048).unwrap();
    let mut acc = Accumulator::new(&modulus, "65537", 4, "test").unwrap();

    let mut prev_t = "2".to_string();
    let mut last: Option<(String, bool, String)> = None;
    for agent in ["agent-15", "agent-03", "agent-19", "agent-14"] {
        let out = acc
            .update_with_snapshot(agent, 1, "genesis-hash", &prev_t)
            .unwrap();
        prev_t = out.0.clone();
        last = Some(out);
    }
    let (_, is_snapshot, json) = last.unwrap();
    assert!(is_snapshot);
    assert!(!json.is_empty());
    assert!(json.contains("\"segment_id\": 1"));
    assert!(json.contains("\"prev_hash\": \"genesis-hash\""));
    assert_eq!(acc.get_depth(), 0);
    assert_eq!(acc.get_op_count(), 8);
}


#[test]
fn prime_search_from_known_starts() {
    // 0 is clamped to 3, which is prime
    let p0 = search_prime_from(BigUint::from(0u32)).unwrap();
    assert_eq!(p0.to_str_radix(10), "3");
    // 10 is forced odd to 11, which is prime
    let p10 = search_prime_from(BigUint::from(10u32)).unwrap();
    assert_eq!(p10.to_str_radix(10), "11");
    // 90 -> 91 (7*13), 93 (3*31), 95 (5*19), then 97
    let p90 = search_prime_from(BigUint::from(90u32)).unwrap();
    assert_eq!(p90.to_str_radix(10), "97");
}
