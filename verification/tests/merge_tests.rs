use holographic_pass::accumulator::Accumulator;
use holographic_pass::AccError;
use num_bigint::BigUint;
use sha2::{Digest, Sha256};

#[test]
fn merge_is_order_sensitive() {
    let mut acc = Accumulator::new("1000003", "65537", 4, "merge-test").unwrap();
    let p1 = acc.hash_to_prime("worker-08").unwrap();
    let p2 = acc.hash_to_prime("worker-15").unwrap();

    let fwd = acc
        .safe_merge_branches("2", &vec![p1.clone(), p2.clone()], 0)
        .unwrap();
    let rev = acc
        .safe_merge_branches("2", &vec![p2.clone(), p1.clone()], 0)
        .unwrap();
    assert_ne!(fwd.0, rev.0);
    assert_eq!(fwd.1, 2);
    assert_eq!(fwd.2, 4);

    // the cascade itself is deterministic
    let again = acc.safe_merge_branches("2", &vec![p1, p2], 0).unwrap();
    assert_eq!(fwd.0, again.0);
}

#[test]
fn merge_accounts_ops_and_leaves_state_alone() {
    let mut acc = Accumulator::new("1000003", "65537", 4, "merge-test").unwrap();
    let before_state = acc.get_state();
    let r = acc
        .safe_merge_branches("7", &vec!["3".to_string(), "5".to_string(), "11".to_string()], 9)
        .unwrap();
    assert_eq!(r.1, 12);
    assert_eq!(r.2, 6);
    assert_eq!(acc.get_op_count(), 6);
    assert_eq!(acc.get_depth(), 0);
    assert_eq!(acc.get_state(), before_state);
}

#[test]
fn merge_of_no_branches_returns_base() {
    let mut acc = Accumulator::new("1000003", "65537", 4, "merge-test").unwrap();
    let r = acc.safe_merge_branches("5", &Vec::new(), 3).unwrap();
    assert_eq!(r.0, "5");
    assert_eq!(r.1, 3);
    assert_eq!(r.2, 0);
    assert_eq!(acc.get_op_count(), 0);
}

#[test]
fn merge_rejects_bad_branch_strings() {
    let mut acc = Accumulator::new("1000003", "65537", 4, "merge-test").unwrap();
    assert_eq!(
        acc.safe_merge_branches("x", &vec!["3".to_string()], 0).unwrap_err(),
        AccError::InvalidNumericFormat
    );
    assert_eq!(
        acc.safe_merge_branches("2", &vec!["3".to_string(), "5p".to_string()], 0)
            .unwrap_err(),
        AccError::InvalidNumericFormat
    );
    let oversized = "9".repeat(4097);
    assert_eq!(
        acc.safe_merge_branches("2", &vec![oversized], 0).unwrap_err(),
        AccError::InputTooLarge
    );
    assert_eq!(acc.get_op_count(), 0);
    assert_eq!(acc.get_state(), "2");
}

#[test]
fn merge_matches_recomputed_cascade() {
    let mut acc = Accumulator::new("1000003", "65537", 4, "merge-test").unwrap();
    let r = acc
        .safe_merge_branches("7", &vec!["3".to_string(), "5".to_string()], 9)
        .unwrap();

    // recompute the cascade independently
    let m = BigUint::from(1000003u32);
    let g = BigUint::from(65537u32);
    let mut cur = BigUint::from(7u32);
    let mut depth: u64 = 9;
    for (idx, p) in [3u32, 5u32].iter().enumerate() {
        cur = cur.modpow(&BigUint::from(*p), &m);
        depth += 1;
        let mut h = Sha256::new();
        h.update(depth.to_string().as_bytes());
        h.update(&(idx as u32).to_le_bytes());
        let d = BigUint::from_bytes_be(&h.finalize());
        cur = (cur * g.modpow(&d, &m)) % &m;
    }
    assert_eq!(r.0, cur.to_str_radix(10));
    assert_eq!(r.1, 11);
}
