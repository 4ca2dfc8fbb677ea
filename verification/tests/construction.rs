use holographic_pass::accumulator::Accumulator;
use holographic_pass::setup::safe_pow_mod;
use holographic_pass::AccError;

#[test]
fn construct_and_getters() {
    let acc = Accumulator::new("1000003", "65537", 4, "test").unwrap();
    assert_eq!(acc.get_state(), "2");
    assert_eq!(acc.get_depth(), 0);
    assert_eq!(acc.get_op_count(), 0);
}

#[test]
fn construct_rejects_bad_numbers() {
    assert_eq!(
        Accumulator::new("abc", "65537", 4, "d").unwrap_err(),
        AccError::InvalidNumericFormat
    );
    assert_eq!(
        Accumulator::new("", "65537", 4, "d").unwrap_err(),
        AccError::InvalidNumericFormat
    );
    assert_eq!(
        Accumulator::new("+123", "65537", 4, "d").unwrap_err(),
        AccError::InvalidNumericFormat
    );
    assert_eq!(
        Accumulator::new("-123", "65537", 4, "d").unwrap_err(),
        AccError::InvalidNumericFormat
    );
    assert_eq!(
        Accumulator::new("1000003", "6_5", 4, "d").unwrap_err(),
        AccError::InvalidNumericFormat
    );
}

#[test]
fn construct_rejects_modulus_without_room_for_initial_state() {
    // the fingerprint starts at 2, so the modulus must exceed 2
    assert_eq!(
        Accumulator::new("0", "3", 4, "d").unwrap_err(),
        AccError::InvalidNumericFormat
    );
    assert_eq!(
        Accumulator::new("1", "3", 4, "d").unwrap_err(),
        AccError::InvalidNumericFormat
    );
    assert_eq!(
        Accumulator::new("2", "3", 4, "d").unwrap_err(),
        AccError::InvalidNumericFormat
    );
    assert!(Accumulator::new("3", "3", 4, "d").is_ok());
}

#[test]
fn pow_mod_exact_values() {
    assert_eq!(safe_pow_mod("2", "10", "1000").unwrap(), "24");
    assert_eq!(safe_pow_mod("5", "0", "7").unwrap(), "1");
    assert_eq!(safe_pow_mod("0", "0", "5").unwrap(), "1");
    assert_eq!(safe_pow_mod("10", "3", "1").unwrap(), "0");
    assert_eq!(safe_pow_mod("65537", "2", "1000003").unwrap(), "85484");
}

#[test]
fn pow_mod_rejects_bad_input() {
    assert_eq!(
        safe_pow_mod("12x", "1", "5").unwrap_err(),
        AccError::InvalidNumericFormat
    );
    assert_eq!(
        safe_pow_mod("3", "4", "0").unwrap_err(),
        AccError::InvalidNumericFormat
    );
    assert_eq!(
        safe_pow_mod("3", "", "5").unwrap_err(),
        AccError::InvalidNumericFormat
    );
}
