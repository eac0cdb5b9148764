use eth_arithmetic::parsing::ParsedModExpInput;
use eth_arithmetic::testing::validation::{
    has_nonzero_byte, validate_error_condition, validate_mathematical_properties, validate_output,
    validate_result_less_than_modulus, ValidationFailure,
};
use eth_arithmetic::testing::ModExpError;

fn parsed(base: &[u8], exp: &[u8], modulus: &[u8]) -> ParsedModExpInput {
    let mut input = vec![0u8; 96];
    input.extend_from_slice(base);
    input.extend_from_slice(exp);
    input.extend_from_slice(modulus);
    ParsedModExpInput::from_raw_input(&input, base.len(), exp.len(), modulus.len())
}

#[test]
fn test_right_padding_behavior() {
    let output = vec![0xDF, 0x02, 0x62, 0x22]; // 4 bytes

    let mut input = vec![0u8; 96];
    input[31] = 1; // base_len = 1
    input[63] = 1; // exp_len = 1
    input[95] = 4; // mod_len = 4
    input.push(2); // base = 2
    input.push(1); // exp = 1
    input.extend_from_slice(&[0xFF, 0xFF]); // Only 2 bytes of modulus data

    let parsed = ParsedModExpInput::from_raw_input(&input, 1, 1, 4);

    // The modulus is right-padded: [0xFF, 0xFF, 0x00, 0x00]
    assert_eq!(parsed.modulus, vec![0xFF, 0xFF, 0x00, 0x00]);

    // Output [0xDF, 0x02, 0x62, 0x22] < [0xFF, 0xFF, 0x00, 0x00]
    assert!(validate_result_less_than_modulus(&output, &parsed.modulus, 4).is_ok());
}

#[test]
fn less_than_modulus_cases() {
    assert_eq!(validate_result_less_than_modulus(&[9, 9], &[], 2), Ok(()));
    assert_eq!(
        validate_result_less_than_modulus(&[1], &[5, 0], 2),
        Err(ValidationFailure::OutputLengthMismatch)
    );
    assert_eq!(
        validate_result_less_than_modulus(&[1, 0], &[5], 2),
        Err(ValidationFailure::ModulusLengthMismatch)
    );
    assert_eq!(validate_result_less_than_modulus(&[7, 7], &[0, 0], 2), Ok(()));
    assert_eq!(validate_result_less_than_modulus(&[4, 255], &[5, 0], 2), Ok(()));
    assert_eq!(
        validate_result_less_than_modulus(&[5, 1], &[5, 0], 2),
        Err(ValidationFailure::ResultNotLessThanModulus)
    );
    assert_eq!(
        validate_result_less_than_modulus(&[5, 0], &[5, 0], 2),
        Err(ValidationFailure::ResultEqualsModulus)
    );
}

#[test]
fn output_size_check() {
    assert_eq!(validate_output(&[1, 2, 3], 3), Ok(()));
    assert_eq!(validate_output(&[1, 2], 3), Err(ValidationFailure::OutputLengthMismatch));
}

#[test]
fn zero_exponent_gives_one() {
    let p = parsed(&[7], &[0], &[5]);
    assert_eq!(validate_mathematical_properties(&p, &[1]), Ok(()));
    assert_eq!(
        validate_mathematical_properties(&p, &[2]),
        Err(ValidationFailure::ZeroExponentNotOne)
    );
    let p = parsed(&[7], &[], &[0, 5]);
    assert_eq!(validate_mathematical_properties(&p, &[0, 1]), Ok(()));
    assert_eq!(
        validate_mathematical_properties(&p, &[1, 0]),
        Err(ValidationFailure::ZeroExponentNotOne)
    );
}

#[test]
fn zero_exponent_with_zero_modulus_is_not_checked() {
    let p = parsed(&[7], &[0], &[0]);
    assert_eq!(validate_mathematical_properties(&p, &[9]), Ok(()));
}

#[test]
fn zero_base_gives_zero() {
    let p = parsed(&[0, 0], &[3], &[5]);
    assert_eq!(validate_mathematical_properties(&p, &[0]), Ok(()));
    assert_eq!(
        validate_mathematical_properties(&p, &[1]),
        Err(ValidationFailure::ZeroBaseNotZero)
    );
}

#[test]
fn allocation_failure_only_for_large_inputs() {
    assert_eq!(
        validate_error_condition(ModExpError::MemoryAllocationFailed, 1, 1, 1),
        Err(ValidationFailure::UnexpectedAllocationFailure)
    );
    assert_eq!(
        validate_error_condition(ModExpError::MemoryAllocationFailed, 100_000, 0, 0),
        Err(ValidationFailure::UnexpectedAllocationFailure)
    );
    assert_eq!(validate_error_condition(ModExpError::MemoryAllocationFailed, 100_000, 1, 0), Ok(()));
    assert_eq!(validate_error_condition(ModExpError::InvalidInput, 0, 0, 0), Ok(()));
    assert_eq!(validate_error_condition(ModExpError::OutputBufferTooSmall, 0, 0, 0), Ok(()));
}

#[test]
fn nonzero_byte_detection() {
    assert!(!has_nonzero_byte(&[]));
    assert!(!has_nonzero_byte(&[0, 0, 0]));
    assert!(has_nonzero_byte(&[0, 0, 1]));
}

use eth_arithmetic::testing::validation::check_outcome;
use eth_arithmetic::testing::ModExpResult;

fn result(output: Vec<u8>, p: ParsedModExpInput) -> Result<ModExpResult, u32> {
    Ok(ModExpResult { output, parsed_input: p })
}

#[test]
fn outcome_good_result_passes() {
    let outcome = result(vec![3], parsed(&[2], &[3], &[5]));
    assert_eq!(check_outcome(1, 1, 1, 1, &outcome), Ok(()));
}

#[test]
fn outcome_checks_size_first() {
    // Wrong size and above the modulus: the size failure is reported.
    let outcome = result(vec![9, 9], parsed(&[2], &[3], &[5]));
    assert_eq!(check_outcome(1, 1, 1, 1, &outcome), Err(ValidationFailure::OutputLengthMismatch));
}

#[test]
fn outcome_checks_modulus_then_arithmetic() {
    let outcome = result(vec![6], parsed(&[2], &[3], &[5]));
    assert_eq!(
        check_outcome(1, 1, 1, 1, &outcome),
        Err(ValidationFailure::ResultNotLessThanModulus)
    );
    let outcome = result(vec![2], parsed(&[2], &[0], &[5]));
    assert_eq!(check_outcome(1, 1, 1, 1, &outcome), Err(ValidationFailure::ZeroExponentNotOne));
}

#[test]
fn outcome_empty_modulus_skips_modulus_check() {
    let outcome = result(vec![], parsed(&[], &[1], &[]));
    assert_eq!(check_outcome(0, 0, 1, 0, &outcome), Ok(()));
}

#[test]
fn outcome_error_codes() {
    assert_eq!(check_outcome(1, 1, 1, 1, &Err(1)), Ok(()));
    assert_eq!(check_outcome(1, 1, 1, 1, &Err(2)), Ok(()));
    assert_eq!(
        check_outcome(1, 1, 1, 1, &Err(3)),
        Err(ValidationFailure::UnexpectedAllocationFailure)
    );
    assert_eq!(check_outcome(1, 60_000, 60_000, 1, &Err(3)), Ok(()));
    assert_eq!(check_outcome(1, 1, 1, 1, &Err(7)), Err(ValidationFailure::UnknownErrorCode(7)));
}
