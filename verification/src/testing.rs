//! The rules that govern a call of the modexp precompile: reading the length
//! header, bounding the component lengths, sizing the output buffer, and
//! interpreting what the precompile hands back.

use vstd::prelude::*;

pub mod validation;

use crate::big_endian::{
    be_value, lemma_be_value_bound, lemma_be_value_four, lemma_be_value_split, pow256,
};
use crate::parsing::{lemma_window_inside_input, padded_window, operand_start, ParsedModExpInput};

verus! {

/// Largest length, in bytes, accepted for the base, the exponent or the modulus.
pub const MAX_COMPONENT_LENGTH: u32 = 1024;

/// Size in bytes of one length word of the header.
pub const U256_SIZE_BYTES: usize = 32;

/// Size in bytes of the header (three length words).
pub const HEADER_SIZE_BYTES: usize = 96;

/// Error codes returned by the modexp precompile.
#[derive(Debug, PartialEq, Eq, Clone, Copy, Structural)]
pub enum ModExpError {
    InvalidInput,
    OutputBufferTooSmall,
    MemoryAllocationFailed,
}

/// The error that a numeric code stands for, if any.
pub open spec fn error_for_code(code: u32) -> Option<ModExpError> {
    if code == 1 {
        Some(ModExpError::InvalidInput)
    } else if code == 2 {
        Some(ModExpError::OutputBufferTooSmall)
    } else if code == 3 {
        Some(ModExpError::MemoryAllocationFailed)
    } else {
        None
    }
}

impl ModExpError {
    /// The numeric code of each error.
    pub open spec fn code_of(self) -> u32 {
        match self {
            ModExpError::InvalidInput => 1,
            ModExpError::OutputBufferTooSmall => 2,
            ModExpError::MemoryAllocationFailed => 3,
        }
    }

    /// The numeric code that the precompile returns for this error.
    pub fn code(self) -> (code: u32)
        ensures
            code == self.code_of(),
    {
        match self {
            ModExpError::InvalidInput => 1,
            ModExpError::OutputBufferTooSmall => 2,
            ModExpError::MemoryAllocationFailed => 3,
        }
    }

    /// The error for a numeric code; `None` for a code that no error has.
    pub fn from_code(code: u32) -> (result: Option<Self>)
        ensures
            result == error_for_code(code),
    {
        match code {
            1 => Some(ModExpError::InvalidInput),
            2 => Some(ModExpError::OutputBufferTooSmall),
            3 => Some(ModExpError::MemoryAllocationFailed),
            _ => None,
        }
    }
}

/// Every error's code maps back to that error, and a code maps to an error
/// only if it is that error's code.
pub proof fn lemma_error_code_roundtrip(e: ModExpError, code: u32)
    ensures
        error_for_code(e.code_of()) == Some(e),
        error_for_code(code) matches Some(f) ==> f.code_of() == code,
        error_for_code(code) is None <==> !(1 <= code <= 3),
{
}

/// The length that the word at `offset` of the header declares: the low
/// 32 bits of the big-endian word (its last four bytes), or zero when the
/// data does not hold the whole word.
pub open spec fn word_low_u32(data: Seq<u8>, offset: int) -> nat {
    if data.len() < offset + 32 {
        0
    } else {
        be_value(data.subrange(offset + 28, offset + 32))
    }
}

/// The declared length is the whole 256-bit big-endian word reduced modulo
/// `2^32`: only its least significant 32 bits count.
pub proof fn lemma_word_low_u32_is_word_mod_2_32(data: Seq<u8>, offset: int)
    requires
        0 <= offset,
        offset + 32 <= data.len(),
    ensures
        word_low_u32(data, offset) == be_value(data.subrange(offset, offset + 32)) % 4294967296,
{
    let w = data.subrange(offset, offset + 32);
    lemma_be_value_split(w, 28);
    assert(w.subrange(28, 32) =~= data.subrange(offset + 28, offset + 32));
    let low = w.subrange(28, 32);
    lemma_be_value_bound(low);
    assert(pow256(4) == 4294967296) by {
        reveal_with_fuel(pow256, 5);
    }
    vstd::arithmetic::div_mod::lemma_fundamental_div_mod_converse(
        be_value(w) as int,
        4294967296,
        be_value(w.subrange(0, 28)) as int,
        be_value(low) as int,
    );
}

/// The length declared by header word `k` (0 = base, 1 = exponent, 2 = modulus).
pub open spec fn declared_len(data: Seq<u8>, k: int) -> nat {
    word_low_u32(data, 32 * k)
}

/// Reader for the header of raw modexp input bytes.
pub struct InputParser<'a> {
    data: &'a [u8],
}

impl<'a> View for InputParser<'a> {
    type V = Seq<u8>;

    closed spec fn view(&self) -> Seq<u8> {
        self.data@
    }
}

impl<'a> InputParser<'a> {
    /// A parser over `data`.
    pub fn new(data: &'a [u8]) -> (parser: Self)
        ensures
            parser@ == data@,
    {
        InputParser { data }
    }

    /// The three declared lengths (base, exponent, modulus), or `None` when
    /// the data is shorter than the header.
    pub fn parse_lengths(&self) -> (lengths: Option<(usize, usize, usize)>)
        ensures
            lengths is None <==> self@.len() < HEADER_SIZE_BYTES,
            lengths matches Some((b, e, m)) ==> {
                &&& b == declared_len(self@, 0)
                &&& e == declared_len(self@, 1)
                &&& m == declared_len(self@, 2)
            },
    {
        if self.data.len() < HEADER_SIZE_BYTES {
            return None;
        }
        let base_len = self.parse_u256_at_offset(0);
        let exp_len = self.parse_u256_at_offset(32);
        let mod_len = self.parse_u256_at_offset(64);
        Some((base_len, exp_len, mod_len))
    }

    /// The low 32 bits of the big-endian 256-bit word at `offset`, or zero
    /// when the data ends before the word does.
    fn parse_u256_at_offset(&self, offset: usize) -> (value: usize)
        requires
            offset + U256_SIZE_BYTES <= usize::MAX,
        ensures
            value == word_low_u32(self@, offset as int),
    {
        if self.data.len() < offset + U256_SIZE_BYTES {
            return 0;
        }
        let start = offset + U256_SIZE_BYTES - 4;
        let b0 = self.data[start] as u32;
        let b1 = self.data[start + 1] as u32;
        let b2 = self.data[start + 2] as u32;
        let b3 = self.data[start + 3] as u32;
        let value: u32 = b0 * 16777216 + b1 * 65536 + b2 * 256 + b3;
        proof {
            let w = self@.subrange(start as int, start + 4);
            lemma_be_value_four(w);
        }
        value as usize
    }
}

/// Whether each length is within [`MAX_COMPONENT_LENGTH`].
pub fn validate_lengths(base_len: usize, exp_len: usize, mod_len: usize) -> (valid: bool)
    ensures
        valid == (base_len <= MAX_COMPONENT_LENGTH && exp_len <= MAX_COMPONENT_LENGTH && mod_len
            <= MAX_COMPONENT_LENGTH),
{
    base_len <= MAX_COMPONENT_LENGTH as usize && exp_len <= MAX_COMPONENT_LENGTH as usize && mod_len
        <= MAX_COMPONENT_LENGTH as usize
}

/// The output buffer holds exactly `mod_len` bytes (none for an empty modulus).
pub fn calculate_output_buffer_size(mod_len: usize) -> (size: Result<usize, u32>)
    ensures
        size == Ok::<usize, u32>(mod_len),
{
    Ok(mod_len)
}


/// What a call of the precompile produced, with the operands it was given.
#[derive(Debug)]
pub struct ModExpResult {
    pub output: Vec<u8>,
    pub parsed_input: ParsedModExpInput,
}

/// Whether `data` holds the whole header.
pub open spec fn has_header(data: Seq<u8>) -> bool {
    data.len() >= HEADER_SIZE_BYTES
}

/// Whether all three declared lengths are within [`MAX_COMPONENT_LENGTH`].
pub open spec fn lengths_in_bounds(data: Seq<u8>) -> bool {
    &&& declared_len(data, 0) <= MAX_COMPONENT_LENGTH
    &&& declared_len(data, 1) <= MAX_COMPONENT_LENGTH
    &&& declared_len(data, 2) <= MAX_COMPONENT_LENGTH
}

/// The call whose base and modulus are both empty: its output is empty
/// without the precompile being run.
pub open spec fn is_empty_call(data: Seq<u8>) -> bool {
    declared_len(data, 0) == 0 && declared_len(data, 2) == 0
}

/// Whether `data` holds every operand byte that the header declares.
pub open spec fn holds_declared_data(data: Seq<u8>) -> bool {
    data.len() >= HEADER_SIZE_BYTES + declared_len(data, 0) + declared_len(data, 1) + declared_len(
        data,
        2,
    )
}

/// The inputs for which a call goes ahead: a whole header, lengths within
/// bounds, and, unless base and modulus are both empty, all declared data.
/// Every other input is refused with `InvalidInput`.
pub open spec fn admits(data: Seq<u8>) -> bool {
    &&& has_header(data)
    &&& lengths_in_bounds(data)
    &&& (is_empty_call(data) || holds_declared_data(data))
}

impl ParsedModExpInput {
    /// `self` holds the operands of `data` for the lengths its header declares.
    pub open spec fn read_from_header(self, data: Seq<u8>) -> bool {
        self.read_from(
            data,
            declared_len(data, 0) as usize,
            declared_len(data, 1) as usize,
            declared_len(data, 2) as usize,
        )
    }
}

/// An input with a whole header, lengths within bounds and at least the
/// declared operand bytes is admitted, however many bytes follow the
/// operands: only missing data refuses a call, never extra data.
pub proof fn lemma_enough_data_is_admitted(data: Seq<u8>)
    requires
        data.len() >= 96,
        declared_len(data, 0) <= 1024,
        declared_len(data, 1) <= 1024,
        declared_len(data, 2) <= 1024,
        data.len() >= 96 + declared_len(data, 0) + declared_len(data, 1) + declared_len(data, 2),
    ensures
        admits(data),
{
}

/// Appending bytes to an admitted input keeps it admitted and leaves the
/// declared lengths as they were.
pub proof fn lemma_admission_survives_trailing_data(data: Seq<u8>, extra: Seq<u8>)
    requires
        admits(data),
    ensures
        declared_len(data + extra, 0) == declared_len(data, 0),
        declared_len(data + extra, 1) == declared_len(data, 1),
        declared_len(data + extra, 2) == declared_len(data, 2),
        admits(data + extra),
{
    let ext = data + extra;
    assert(ext.subrange(28, 32) =~= data.subrange(28, 32));
    assert(ext.subrange(60, 64) =~= data.subrange(60, 64));
    assert(ext.subrange(92, 96) =~= data.subrange(92, 96));
}

/// For an admitted call that runs the precompile, the input holds every
/// declared operand byte: the operands it is given are plain slices of the
/// input, with no padding.
pub proof fn lemma_admitted_operands_are_exact(data: Seq<u8>, parsed: ParsedModExpInput)
    requires
        admits(data),
        !is_empty_call(data),
        parsed.read_from_header(data),
    ensures
        ({
            let b = declared_len(data, 0) as int;
            let e = declared_len(data, 1) as int;
            let m = declared_len(data, 2) as int;
            &&& parsed.base@ == data.subrange(96, 96 + b)
            &&& parsed.exponent@ == data.subrange(96 + b, 96 + b + e)
            &&& parsed.modulus@ == data.subrange(96 + b + e, 96 + b + e + m)
        }),
{
    let b = declared_len(data, 0) as int;
    let e = declared_len(data, 1) as int;
    let m = declared_len(data, 2) as int;
    lemma_window_inside_input(data, 96, b);
    lemma_window_inside_input(data, 96 + b, e);
    lemma_window_inside_input(data, 96 + b + e, m);
}

/// The step that comes after checking an input: either the answer is already
/// known, or the precompile is to be run with an output buffer of
/// `buffer_size` bytes.
#[derive(Debug)]
pub enum ModExpCall {
    Finished(ModExpResult),
    Invoke { parsed: ParsedModExpInput, buffer_size: usize },
}

/// Checks raw precompile input before the precompile is run.
///
/// Refuses with the `InvalidInput` code exactly the inputs that
/// [`admits`] rejects. When base and modulus are both empty the result is an
/// empty output. Otherwise the operands are parsed and the output buffer is
/// sized to the modulus length.
pub fn prepare_modexp_call(input: &[u8]) -> (step: Result<ModExpCall, u32>)
    ensures
        match step {
            Err(code) => code == ModExpError::InvalidInput.code_of() && !admits(input@),
            Ok(ModExpCall::Finished(result)) => {
                &&& admits(input@)
                &&& is_empty_call(input@)
                &&& result.output@ == Seq::<u8>::empty()
                &&& result.parsed_input.read_from_header(input@)
            },
            Ok(ModExpCall::Invoke { parsed, buffer_size }) => {
                &&& admits(input@)
                &&& !is_empty_call(input@)
                &&& parsed.read_from_header(input@)
                &&& buffer_size == declared_len(input@, 2)
            },
        },
{
    let parser = InputParser::new(input);
    let (base_len, exp_len, mod_len) = match parser.parse_lengths() {
        Some(lengths) => lengths,
        None => return Err(ModExpError::InvalidInput.code()),
    };
    if !validate_lengths(base_len, exp_len, mod_len) {
        return Err(ModExpError::InvalidInput.code());
    }
    if base_len == 0 && mod_len == 0 {
        let parsed = ParsedModExpInput::from_raw_input(input, base_len, exp_len, mod_len);
        return Ok(ModExpCall::Finished(ModExpResult { output: Vec::new(), parsed_input: parsed }));
    }
    let parsed = ParsedModExpInput::from_raw_input(input, base_len, exp_len, mod_len);
    let total_data_size = match base_len.checked_add(exp_len) {
        Some(sum) => match sum.checked_add(mod_len) {
            Some(total) => total,
            None => return Err(ModExpError::InvalidInput.code()),
        },
        None => return Err(ModExpError::InvalidInput.code()),
    };
    let required_input_size = match HEADER_SIZE_BYTES.checked_add(total_data_size) {
        Some(size) => size,
        None => return Err(ModExpError::InvalidInput.code()),
    };
    if input.len() < required_input_size {
        return Err(ModExpError::InvalidInput.code());
    }
    let buffer_size = match calculate_output_buffer_size(mod_len) {
        Ok(size) => size,
        Err(code) => return Err(code),
    };
    Ok(ModExpCall::Invoke { parsed, buffer_size })
}

/// Interprets what the precompile reported after it ran on `parsed` with the
/// output `buffer`.
///
/// A nonzero `result_code` is passed on as the error. On success, a reported
/// output length beyond the buffer is refused with `OutputBufferTooSmall`;
/// otherwise the output is the first `reported_len` bytes of the buffer.
pub fn finish_modexp_call(
    parsed: ParsedModExpInput,
    buffer: Vec<u8>,
    result_code: u32,
    reported_len: u32,
) -> (result: Result<ModExpResult, u32>)
    ensures
        result_code != 0 ==> result == Err::<ModExpResult, u32>(result_code),
        result_code == 0 && reported_len > buffer.len() ==> result == Err::<ModExpResult, u32>(
            ModExpError::OutputBufferTooSmall.code_of(),
        ),
        result_code == 0 && reported_len <= buffer.len() ==> (result matches Ok(r) && r.output@
            == buffer@.take(reported_len as int) && r.parsed_input == parsed),
{
    if result_code != 0 {
        return Err(result_code);
    }
    let reported = reported_len as usize;
    if reported > buffer.len() {
        return Err(ModExpError::OutputBufferTooSmall.code());
    }
    let mut output = buffer;
    output.truncate(reported);
    Ok(ModExpResult { output, parsed_input: parsed })
}

} // verus!
