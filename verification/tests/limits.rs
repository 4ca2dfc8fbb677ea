use holographic_pass::accumulator::Accumulator;
use holographic_pass::setup::safe_pow_mod;
use holographic_pass::AccError;

#[test]
fn op_limit_trips_after_the_ceiling() {
    // drive the public counter to the ceiling's edge by hand: reaching
    // a million accounted operations through real group work is the
    // point of the guard, not of a unit test
    let mut acc = Accumulator::new("1000003", "65537", 4, "limit-test").unwrap();
    acc.op_count = 1_000_000;
    // at the ceiling itself mutation is still allowed
    let t1 = acc.update_state("agent", "2").unwrap();
    assert_eq!(acc.get_op_count(), 1_000_002);

    // past it, the circuit breaker rejects every further mutating call
    let state = acc.get_state();
    assert_eq!(
        acc.update_state("agent", &t1).unwrap_err(),
        AccError::OpLimitExceeded
    );
    assert_eq!(
        acc.update_with_snapshot("agent", 0, "h", &t1).unwrap_err(),
        AccError::OpLimitExceeded
    );
    assert_eq!(
        acc.safe_merge_branches("2", &vec!["1".to_string()], 0).unwrap_err(),
        AccError::OpLimitExceeded
    );
    // the state itself is intact and readable
    assert_eq!(acc.get_state(), state);
    assert_eq!(acc.get_depth(), 1);
}

#[test]
fn merge_rejects_counter_overflow() {
    let mut acc = Accumulator::new("1000003", "65537", 4, "limit-test").unwrap();
    // a depth counter that cannot absorb the branches is refused up front
    assert_eq!(
        acc.safe_merge_branches("2", &vec!["1".to_string()], u64::MAX)
            .unwrap_err(),
        AccError::OpLimitExceeded
    );
    assert_eq!(acc.get_op_count(), 0);
}

#[test]
fn oversized_strings_are_rejected_everywhere() {
    let long = "7".repeat(4097);
    assert_eq!(
        Accumulator::new(&long, "65537", 4, "d").unwrap_err(),
        AccError::InputTooLarge
    );
    assert_eq!(
        Accumulator::new("1000003", &long, 4, "d").unwrap_err(),
        AccError::InputTooLarge
    );
    assert_eq!(
        Accumulator::new("1000003", "65537", 4, &long).unwrap_err(),
        AccError::InputTooLarge
    );

    let mut acc = Accumulator::new("1000003", "65537", 4, "d").unwrap();
    assert_eq!(
        acc.update_state(&long, "2").unwrap_err(),
        AccError::InputTooLarge
    );
    assert_eq!(
        acc.update_state("a", &long).unwrap_err(),
        AccError::InputTooLarge
    );
    assert_eq!(
        acc.update_with_snapshot("a", 0, "h", &long).unwrap_err(),
        AccError::InputTooLarge
    );
    assert_eq!(
        acc.update_with_snapshot(&long, 0, "h", "2").unwrap_err(),
        AccError::InputTooLarge
    );
    assert_eq!(
        acc.update_with_snapshot("a", 0, &long, "2").unwrap_err(),
        AccError::InputTooLarge
    );
    assert_eq!(
        acc.safe_merge_branches(&long, &Vec::new(), 0).unwrap_err(),
        AccError::InputTooLarge
    );
    assert_eq!(
        safe_pow_mod(&long, "1", "5").unwrap_err(),
        AccError::InputTooLarge
    );
    assert_eq!(
        safe_pow_mod("1", &long, "5").unwrap_err(),
        AccError::InputTooLarge
    );
    assert_eq!(
        safe_pow_mod("1", "1", &long).unwrap_err(),
        AccError::InputTooLarge
    );

    // nothing was partially processed
    assert_eq!(acc.get_state(), "2");
    assert_eq!(acc.get_depth(), 0);
    assert_eq!(acc.get_op_count(), 0);
}

