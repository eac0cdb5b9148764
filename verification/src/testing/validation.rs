//! Checks of what the precompile returned: properties that every correct
//! result has. Each check reports the first property that fails.

use vstd::prelude::*;

use crate::big_endian::{
    be_value, lemma_be_value_lexicographic, lemma_be_value_nonzero, lemma_be_value_zero,
};
use crate::parsing::ParsedModExpInput;
use crate::testing::{error_for_code, ModExpError, ModExpResult};

verus! {

/// The property that a checked result does not have.
#[derive(Debug, PartialEq, Eq, Clone, Copy, Structural)]
pub enum ValidationFailure {
    /// The output does not have the expected length.
    OutputLengthMismatch,
    /// The parsed modulus does not have the declared modulus length.
    ModulusLengthMismatch,
    /// The result is greater than the modulus.
    ResultNotLessThanModulus,
    /// The result equals the modulus.
    ResultEqualsModulus,
    /// A zero exponent did not give one.
    ZeroExponentNotOne,
    /// A zero base with a nonzero exponent did not give zero.
    ZeroBaseNotZero,
    /// Memory allocation failed on a small input.
    UnexpectedAllocationFailure,
    /// The precompile returned a code that no error has.
    UnknownErrorCode(u32),
}

/// Whether some byte of `bytes` is nonzero.
pub fn has_nonzero_byte(bytes: &[u8]) -> (found: bool)
    ensures
        found == (be_value(bytes@) > 0),
{
    let mut i: usize = 0;
    while i < bytes.len()
        invariant
            i <= bytes.len(),
            forall|k: int| 0 <= k < i ==> bytes@[k] == 0,
        decreases bytes.len() - i,
    {
        if bytes[i] != 0 {
            proof {
                lemma_be_value_nonzero(bytes@, i as int);
            }
            return true;
        }
        i = i + 1;
    }
    proof {
        lemma_be_value_zero(bytes@);
    }
    false
}

/// Whether `a` and `b` hold the same bytes.
fn bytes_equal(a: &[u8], b: &[u8]) -> (equal: bool)
    ensures
        equal == (a@ == b@),
{
    if a.len() != b.len() {
        return false;
    }
    let mut i: usize = 0;
    while i < a.len()
        invariant
            a.len() == b.len(),
            i <= a.len(),
            forall|k: int| 0 <= k < i ==> a@[k] == b@[k],
        decreases a.len() - i,
    {
        if a[i] != b[i] {
            return false;
        }
        i = i + 1;
    }
    assert(a@ =~= b@);
    true
}

/// The first failure of two checks made one after the other.
pub open spec fn and_then_check(
    first: Result<(), ValidationFailure>,
    second: Result<(), ValidationFailure>,
) -> Result<(), ValidationFailure> {
    if first is Err {
        first
    } else {
        second
    }
}

/// The output has the expected size.
pub open spec fn output_size_check(output: Seq<u8>, expected_size: usize) -> Result<(), ValidationFailure> {
    if output.len() == expected_size {
        Ok(())
    } else {
        Err(ValidationFailure::OutputLengthMismatch)
    }
}

/// The output has the expected size.
pub fn validate_output(output: &[u8], expected_size: usize) -> (check: Result<(), ValidationFailure>)
    ensures
        check == output_size_check(output@, expected_size),
{
    if output.len() != expected_size {
        return Err(ValidationFailure::OutputLengthMismatch);
    }
    Ok(())
}

/// A result against a parsed modulus, both read as big-endian numbers.
///
/// An empty modulus passes. Otherwise the output and the modulus must both be
/// `mod_len` bytes long, and, unless the modulus is zero, the result must be
/// strictly below the modulus; a result above it, or equal to it, fails.
pub open spec fn below_modulus_check(output: Seq<u8>, modulus: Seq<u8>, mod_len: usize) -> Result<
    (),
    ValidationFailure,
> {
    if modulus.len() == 0 {
        Ok(())
    } else if output.len() != mod_len {
        Err(ValidationFailure::OutputLengthMismatch)
    } else if modulus.len() != mod_len {
        Err(ValidationFailure::ModulusLengthMismatch)
    } else if be_value(modulus) == 0 || be_value(output) < be_value(modulus) {
        Ok(())
    } else if be_value(output) > be_value(modulus) {
        Err(ValidationFailure::ResultNotLessThanModulus)
    } else {
        Err(ValidationFailure::ResultEqualsModulus)
    }
}

/// A result against a parsed modulus: see [`below_modulus_check`]. The
/// comparison runs byte by byte from the most significant end.
pub fn validate_result_less_than_modulus(output: &[u8], parsed_modulus: &[u8], mod_len: usize) -> (check:
    Result<(), ValidationFailure>)
    ensures
        check == below_modulus_check(output@, parsed_modulus@, mod_len),
{
    if parsed_modulus.len() == 0 {
        return Ok(());
    }
    if output.len() != mod_len {
        return Err(ValidationFailure::OutputLengthMismatch);
    }
    if parsed_modulus.len() != mod_len {
        return Err(ValidationFailure::ModulusLengthMismatch);
    }
    if has_nonzero_byte(parsed_modulus) {
        let mut i: usize = 0;
        while i < mod_len
            invariant
                output@.len() == mod_len,
                parsed_modulus@.len() == mod_len,
                i <= mod_len,
                be_value(parsed_modulus@) > 0,
                output@.subrange(0, i as int) == parsed_modulus@.subrange(0, i as int),
            decreases mod_len - i,
        {
            if output[i] > parsed_modulus[i] {
                proof {
                    lemma_be_value_lexicographic(parsed_modulus@, output@, i as int);
                }
                return Err(ValidationFailure::ResultNotLessThanModulus);
            } else if output[i] < parsed_modulus[i] {
                proof {
                    lemma_be_value_lexicographic(output@, parsed_modulus@, i as int);
                }
                return Ok(());
            }
            assert(output@.subrange(0, i + 1) =~= output@.subrange(0, i as int).push(output@[i as int]));
            assert(parsed_modulus@.subrange(0, i + 1) =~= parsed_modulus@.subrange(0, i as int).push(
                parsed_modulus@[i as int],
            ));
            i = i + 1;
        }
        assert(output@ =~= output@.subrange(0, mod_len as int));
        assert(parsed_modulus@ =~= parsed_modulus@.subrange(0, mod_len as int));
        return Err(ValidationFailure::ResultEqualsModulus);
    }
    Ok(())
}

/// One, written as `n` big-endian bytes: `n - 1` zero bytes and a final one
/// (a single one byte when `n` is zero).
pub open spec fn one_of_width(n: nat) -> Seq<u8> {
    Seq::new((if n == 0 { 0 } else { n - 1 }) as nat, |i: int| 0u8).push(1u8)
}

/// The value of [`one_of_width`] is one.
pub proof fn lemma_one_of_width_is_one(n: nat)
    ensures
        be_value(one_of_width(n)) == 1,
{
    let z = Seq::new((if n == 0 { 0 } else { n - 1 }) as nat, |i: int| 0u8);
    lemma_be_value_zero(z);
    assert(one_of_width(n).drop_last() =~= z);
}

/// Two arithmetic facts of the result, over the operands read as big-endian
/// numbers: a zero exponent with a nonzero modulus gives one, written with
/// `mod_len` bytes (at least one byte); a zero base with a nonzero exponent
/// gives zero. The first failing fact is reported.
pub open spec fn arithmetic_check(
    base: Seq<u8>,
    exponent: Seq<u8>,
    modulus: Seq<u8>,
    mod_len: usize,
    output: Seq<u8>,
) -> Result<(), ValidationFailure> {
    if be_value(exponent) == 0 && be_value(modulus) > 0 && output != one_of_width(mod_len as nat) {
        Err(ValidationFailure::ZeroExponentNotOne)
    } else if be_value(base) == 0 && be_value(exponent) > 0 && be_value(output) != 0 {
        Err(ValidationFailure::ZeroBaseNotZero)
    } else {
        Ok(())
    }
}

/// The arithmetic facts of [`arithmetic_check`] for a parsed input.
pub fn validate_mathematical_properties(parsed: &ParsedModExpInput, output: &[u8]) -> (check: Result<
    (),
    ValidationFailure,
>)
    ensures
        check == arithmetic_check(
            parsed.base@,
            parsed.exponent@,
            parsed.modulus@,
            parsed.mod_len,
            output@,
        ),
{
    if !has_nonzero_byte(parsed.exponent.as_slice()) {
        if has_nonzero_byte(parsed.modulus.as_slice()) {
            let zeros = if parsed.mod_len > 0 {
                parsed.mod_len - 1
            } else {
                0
            };
            let mut expected: Vec<u8> = Vec::new();
            let mut i: usize = 0;
            while i < zeros
                invariant
                    i <= zeros,
                    expected@ == Seq::new(i as nat, |k: int| 0u8),
                decreases zeros - i,
            {
                expected.push(0u8);
                i = i + 1;
                assert(expected@ =~= Seq::new(i as nat, |k: int| 0u8));
            }
            expected.push(1u8);
            assert(expected@ =~= one_of_width(parsed.mod_len as nat));
            if !bytes_equal(output, expected.as_slice()) {
                return Err(ValidationFailure::ZeroExponentNotOne);
            }
        }
    }
    if !has_nonzero_byte(parsed.base.as_slice()) {
        if has_nonzero_byte(parsed.exponent.as_slice()) {
            if has_nonzero_byte(output) {
                return Err(ValidationFailure::ZeroBaseNotZero);
            }
        }
    }
    Ok(())
}

/// An error code against the declared lengths: memory allocation may fail
/// only when the lengths add up to more than 100000 bytes. The other errors
/// always pass.
pub open spec fn error_check(error: ModExpError, base_len: u32, exp_len: u32, mod_len: u32) -> Result<
    (),
    ValidationFailure,
> {
    if error == ModExpError::MemoryAllocationFailed && base_len + exp_len + mod_len <= 100_000 {
        Err(ValidationFailure::UnexpectedAllocationFailure)
    } else {
        Ok(())
    }
}

/// An error code against the declared lengths: see [`error_check`].
pub fn validate_error_condition(error: ModExpError, base_len: u32, exp_len: u32, mod_len: u32) -> (check:
    Result<(), ValidationFailure>)
    ensures
        check == error_check(error, base_len, exp_len, mod_len),
{
    match error {
        ModExpError::InvalidInput => Ok(()),
        ModExpError::OutputBufferTooSmall => Ok(()),
        ModExpError::MemoryAllocationFailed => {
            let total_size: u64 = (base_len as u64) + (exp_len as u64) + (mod_len as u64);
            if total_size > 100_000 {
                Ok(())
            } else {
                Err(ValidationFailure::UnexpectedAllocationFailure)
            }
        },
    }
}


/// What a fuzz run checks of an outcome of the precompile, given the output
/// size it expects and the lengths it declared. A result must have the
/// expected size, lie below its modulus when the modulus is nonempty, and
/// meet the arithmetic facts, in that order. An error code must be a known
/// one that fits the declared lengths.
pub open spec fn outcome_check(
    expected_size: usize,
    base_len: u32,
    exp_len: u32,
    mod_len: u32,
    outcome: Result<ModExpResult, u32>,
) -> Result<(), ValidationFailure> {
    match outcome {
        Ok(result) => and_then_check(
            output_size_check(result.output@, expected_size),
            and_then_check(
                if result.parsed_input.mod_len > 0 {
                    below_modulus_check(
                        result.output@,
                        result.parsed_input.modulus@,
                        result.parsed_input.mod_len,
                    )
                } else {
                    Ok(())
                },
                arithmetic_check(
                    result.parsed_input.base@,
                    result.parsed_input.exponent@,
                    result.parsed_input.modulus@,
                    result.parsed_input.mod_len,
                    result.output@,
                ),
            ),
        ),
        Err(code) => match error_for_code(code) {
            Some(error) => error_check(error, base_len, exp_len, mod_len),
            None => Err(ValidationFailure::UnknownErrorCode(code)),
        },
    }
}

/// Checks an outcome of the precompile as a fuzz run does: see
/// [`outcome_check`].
pub fn check_outcome(
    expected_size: usize,
    base_len: u32,
    exp_len: u32,
    mod_len: u32,
    outcome: &Result<ModExpResult, u32>,
) -> (check: Result<(), ValidationFailure>)
    ensures
        check == outcome_check(expected_size, base_len, exp_len, mod_len, *outcome),
{
    match outcome {
        Ok(result) => {
            let size = validate_output(result.output.as_slice(), expected_size);
            if size.is_err() {
                return size;
            }
            if result.parsed_input.mod_len > 0 {
                let below = validate_result_less_than_modulus(
                    result.output.as_slice(),
                    result.parsed_input.modulus.as_slice(),
                    result.parsed_input.mod_len,
                );
                if below.is_err() {
                    return below;
                }
            }
            validate_mathematical_properties(&result.parsed_input, result.output.as_slice())
        },
        Err(code) => match ModExpError::from_code(*code) {
            Some(error) => validate_error_condition(error, base_len, exp_len, mod_len),
            None => Err(ValidationFailure::UnknownErrorCode(*code)),
        },
    }
}


/// The size check passes exactly for an output of the expected size: an
/// output longer or shorter than expected fails, and two outputs that both
/// pass for one expected size have the same length.
pub proof fn lemma_output_size_is_exact(output: Seq<u8>, other: Seq<u8>, expected_size: usize)
    ensures
        output_size_check(output, expected_size) is Ok <==> output.len() == expected_size,
        output.len() != expected_size ==> output_size_check(output, expected_size) == Err::<
            (),
            ValidationFailure,
        >(ValidationFailure::OutputLengthMismatch),
        output_size_check(output, expected_size) is Ok && output_size_check(other, expected_size) is Ok
            ==> output.len() == other.len(),
{
}

/// For an output and a modulus of `mod_len` bytes, the modulus check passes
/// exactly when every byte of the modulus is zero or the output, read
/// big-endian, is strictly below the modulus. A modulus with a nonzero byte
/// anywhere is never skipped.
pub proof fn lemma_below_modulus_meaning(output: Seq<u8>, modulus: Seq<u8>, mod_len: usize)
    requires
        mod_len > 0,
        output.len() == mod_len,
        modulus.len() == mod_len,
    ensures
        below_modulus_check(output, modulus, mod_len) is Ok <==> ((forall|k: int|
            0 <= k < modulus.len() ==> modulus[k] == 0) || be_value(output) < be_value(modulus)),
        (exists|k: int| 0 <= k < modulus.len() && modulus[k] != 0) && be_value(output) >= be_value(
            modulus,
        ) ==> below_modulus_check(output, modulus, mod_len) is Err,
{
    if forall|k: int| 0 <= k < modulus.len() ==> modulus[k] == 0 {
        lemma_be_value_zero(modulus);
    } else {
        let k = choose|k: int| !(0 <= k < modulus.len() ==> modulus[k] == 0);
        lemma_be_value_nonzero(modulus, k);
    }
    if exists|k: int| 0 <= k < modulus.len() && modulus[k] != 0 {
        let k = choose|k: int| 0 <= k < modulus.len() && modulus[k] != 0;
        lemma_be_value_nonzero(modulus, k);
    }
}

/// The arithmetic facts only apply to operands that are zero in value: an
/// exponent with any nonzero byte never fails the zero-exponent fact, and a
/// base with any nonzero byte never fails the zero-base fact. An exponent of
/// zero bytes with a modulus that has a nonzero byte demands exactly the
/// one written in `mod_len` bytes (at least one byte).
pub proof fn lemma_arithmetic_facts_apply_to_zero_operands(
    base: Seq<u8>,
    exponent: Seq<u8>,
    modulus: Seq<u8>,
    mod_len: usize,
    output: Seq<u8>,
)
    ensures
        (exists|k: int| 0 <= k < exponent.len() && exponent[k] != 0) ==> arithmetic_check(
            base,
            exponent,
            modulus,
            mod_len,
            output,
        ) != Err::<(), ValidationFailure>(ValidationFailure::ZeroExponentNotOne),
        (exists|k: int| 0 <= k < base.len() && base[k] != 0) ==> arithmetic_check(
            base,
            exponent,
            modulus,
            mod_len,
            output,
        ) != Err::<(), ValidationFailure>(ValidationFailure::ZeroBaseNotZero),
        (forall|k: int| 0 <= k < exponent.len() ==> exponent[k] == 0) && (exists|k: int|
            0 <= k < modulus.len() && modulus[k] != 0) ==> (arithmetic_check(
            base,
            exponent,
            modulus,
            mod_len,
            output,
        ) == Err::<(), ValidationFailure>(ValidationFailure::ZeroExponentNotOne) <==> output
            != one_of_width(mod_len as nat)),
{
    if exists|k: int| 0 <= k < exponent.len() && exponent[k] != 0 {
        let k = choose|k: int| 0 <= k < exponent.len() && exponent[k] != 0;
        lemma_be_value_nonzero(exponent, k);
    } else {
        lemma_be_value_zero(exponent);
    }
    if exists|k: int| 0 <= k < base.len() && base[k] != 0 {
        let k = choose|k: int| 0 <= k < base.len() && base[k] != 0;
        lemma_be_value_nonzero(base, k);
    }
    if exists|k: int| 0 <= k < modulus.len() && modulus[k] != 0 {
        let k = choose|k: int| 0 <= k < modulus.len() && modulus[k] != 0;
        lemma_be_value_nonzero(modulus, k);
    }
}

/// An allocation failure is accepted exactly when the three declared lengths
/// add up to more than 100000 bytes; which length is large does not matter,
/// and every other error is always accepted.
pub proof fn lemma_allocation_failure_threshold(error: ModExpError, base_len: u32, exp_len: u32, mod_len: u32)
    ensures
        error_check(ModExpError::MemoryAllocationFailed, base_len, exp_len, mod_len) is Ok
            <==> base_len as int + exp_len as int + mod_len as int > 100_000,
        error_check(ModExpError::MemoryAllocationFailed, base_len, exp_len, mod_len) == error_check(
            ModExpError::MemoryAllocationFailed,
            mod_len,
            base_len,
            exp_len,
        ),
        error_check(ModExpError::MemoryAllocationFailed, base_len, exp_len, mod_len) == error_check(
            ModExpError::MemoryAllocationFailed,
            exp_len,
            base_len,
            mod_len,
        ),
        error != ModExpError::MemoryAllocationFailed ==> error_check(error, base_len, exp_len, mod_len) is Ok,
{
}

} // verus!
