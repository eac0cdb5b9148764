//! Reading the operands of a modexp input out of the raw bytes.

use vstd::prelude::*;

use crate::testing::HEADER_SIZE_BYTES;

verus! {

/// The `len` bytes of `input` starting at `start`, where every position at or
/// past the end of `input` reads as zero (right padding).
pub open spec fn padded_window(input: Seq<u8>, start: int, len: int) -> Seq<u8> {
    Seq::new(len as nat, |i: int| if start + i < input.len() { input[start + i] } else { 0u8 })
}

/// A window that lies inside `input` is a plain slice of it: padding only
/// ever fills positions past the end of the input.
pub proof fn lemma_window_inside_input(input: Seq<u8>, start: int, len: int)
    requires
        0 <= start,
        0 <= len,
        start + len <= input.len(),
    ensures
        padded_window(input, start, len) == input.subrange(start, start + len),
{
    assert(padded_window(input, start, len) =~= input.subrange(start, start + len));
}

/// Reads `input[start..end]`, right-padding with zeros whatever lies beyond
/// the end of `input`. The result always holds `end - start` bytes.
pub fn read_big(input: &[u8], start: usize, end: usize) -> (result: Vec<u8>)
    requires
        start <= end,
    ensures
        result@ == padded_window(input@, start as int, end - start),
{
    let len = end - start;
    let mut result: Vec<u8> = Vec::new();
    let mut i: usize = 0;
    while i < len
        invariant
            start <= end,
            len == end - start,
            i <= len,
            result@ == padded_window(input@, start as int, i as int),
        decreases len - i,
    {
        let idx = start + i;
        if idx < input.len() {
            result.push(input[idx]);
        } else {
            result.push(0u8);
        }
        i = i + 1;
        assert(result@ =~= padded_window(input@, start as int, i as int));
    }
    result
}


/// Where operand `k` (0 = base, 1 = exponent, 2 = modulus) starts in the raw
/// input: right after the header and the operands before it.
pub open spec fn operand_start(base_len: int, exp_len: int, k: int) -> int {
    if k == 0 {
        HEADER_SIZE_BYTES as int
    } else if k == 1 {
        HEADER_SIZE_BYTES + base_len
    } else {
        HEADER_SIZE_BYTES + base_len + exp_len
    }
}

/// The three operands of a modexp call together with their declared lengths.
#[derive(Debug)]
pub struct ParsedModExpInput {
    pub base_len: usize,
    pub exp_len: usize,
    pub mod_len: usize,
    pub base: Vec<u8>,
    pub exponent: Vec<u8>,
    pub modulus: Vec<u8>,
}

impl ParsedModExpInput {
    /// `self` is what `input` holds for the given declared lengths: each
    /// operand is read at its offset, right-padded with zeros.
    pub open spec fn read_from(
        self,
        input: Seq<u8>,
        base_len: usize,
        exp_len: usize,
        mod_len: usize,
    ) -> bool {
        &&& self.base_len == base_len
        &&& self.exp_len == exp_len
        &&& self.mod_len == mod_len
        &&& self.base@ == padded_window(input, operand_start(base_len as int, exp_len as int, 0), base_len as int)
        &&& self.exponent@ == padded_window(input, operand_start(base_len as int, exp_len as int, 1), exp_len as int)
        &&& self.modulus@ == padded_window(input, operand_start(base_len as int, exp_len as int, 2), mod_len as int)
    }

    /// Splits the data that follows the header into base, exponent and
    /// modulus of the declared lengths. Data missing at the end of `input`
    /// reads as zeros, so each operand has exactly its declared length.
    pub fn from_raw_input(input: &[u8], base_len: usize, exp_len: usize, mod_len: usize) -> (parsed: Self)
        requires
            HEADER_SIZE_BYTES + base_len + exp_len + mod_len <= usize::MAX,
        ensures
            parsed.read_from(input@, base_len, exp_len, mod_len),
    {
        let base_start = HEADER_SIZE_BYTES;
        let exp_start = base_start + base_len;
        let mod_start = exp_start + exp_len;
        let mod_end = mod_start + mod_len;
        let base = read_big(input, base_start, exp_start);
        let exponent = read_big(input, exp_start, mod_start);
        let modulus = read_big(input, mod_start, mod_end);
        ParsedModExpInput { base_len, exp_len, mod_len, base, exponent, modulus }
    }
}

} // verus!
