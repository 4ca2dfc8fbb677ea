use holographic_pass::accumulator::Accumulator;
use num_bigint::BigUint;
use sha2::{Digest, Sha256};

#[test]
fn snapshot_triggers_exactly_at_max_depth() {
    let mut acc = Accumulator::new("1000003", "65537", 2, "snap-test").unwrap();
    let (t1, snap1, json1) = acc
        .update_with_snapshot("worker-00", 7, "genesis", "2")
        .unwrap();
    assert!(!snap1);
    assert_eq!(json1, "");
    assert_eq!(acc.get_depth(), 1);

    let (t2, snap2, json2) = acc
        .update_with_snapshot("worker-05", 7, "genesis", &t1)
        .unwrap();
    assert!(snap2);
    assert!(!json2.is_empty());
    assert_eq!(acc.get_depth(), 0);
    assert_eq!(acc.get_op_count(), 4);

    // the chained digest and the reseeded fingerprint are recomputable:
    // final_t is the transition result, not the reseeded state
    let m = BigUint::parse_bytes(b"1000003", 10).unwrap();
    let json_final_t = field(&json2, "final_t");
    let mut hasher = Sha256::new();
    hasher.update(json_final_t.as_bytes());
    hasher.update(b"genesis");
    let digest = hasher.finalize();
    let expected_hash = hex::encode(digest);
    assert_eq!(field(&json2, "snapshot_hash"), expected_hash);
    assert_eq!(field(&json2, "prev_hash"), "genesis");
    assert_eq!(json2.contains("\"segment_id\": 7"), true);

    let reseeded = BigUint::from_bytes_be(&digest) % &m;
    assert_eq!(t2, reseeded.to_str_radix(10));
    assert_eq!(acc.get_state(), reseeded.to_str_radix(16));
}

#[test]
fn snapshot_hash_depends_on_prev_hash() {
    let mut a = Accumulator::new("1000003", "65537", 1, "snap-test").unwrap();
    let mut b = Accumulator::new("1000003", "65537", 1, "snap-test").unwrap();
    let (_, sa, ja) = a.update_with_snapshot("worker-00", 0, "prev-one", "2").unwrap();
    let (_, sb, jb) = b.update_with_snapshot("worker-00", 0, "prev-two", "2").unwrap();
    assert!(sa && sb);
    // identical final_t, different chained hashes
    assert_eq!(field(&ja, "final_t"), field(&jb, "final_t"));
    assert_ne!(field(&ja, "snapshot_hash"), field(&jb, "snapshot_hash"));
}

#[test]
fn snapshot_json_shape_is_exact() {
    let mut acc = Accumulator::new("1000003", "65537", 1, "snap-test").unwrap();
    let (_, is_snap, json) = acc
        .update_with_snapshot("worker-00", 42, "abc123", "2")
        .unwrap();
    assert!(is_snap);
    let final_t = field(&json, "final_t");
    let hash = field(&json, "snapshot_hash");
    let expected = format!(
        "{{\"segment_id\": 42, \"final_t\": \"{}\", \"snapshot_hash\": \"{}\", \"prev_hash\": \"abc123\"}}",
        final_t, hash
    );
    assert_eq!(json, expected);
    assert_eq!(hash.len(), 64);
}

/// Pull a quoted string field out of the flat snapshot JSON.
fn field(json: &str, key: &str) -> String {
    let tag = format!("\"{}\": \"", key);
    let start = json.find(&tag).unwrap() + tag.len();
    let rest = &json[start..];
    let end = rest.find('"').unwrap();
    rest[..end].to_string()
}
