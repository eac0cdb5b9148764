//! Structured inputs for fuzzing the precompile: building well-formed raw
//! input from declared lengths and operand data.

use vstd::prelude::*;

use crate::big_endian::{be_value, lemma_be_value_four, lemma_be_value_leading_zeros};
use crate::parsing::{operand_start, padded_window};
use crate::testing::{admits, declared_len, holds_declared_data, word_low_u32};
use crate::testing::{HEADER_SIZE_BYTES, MAX_COMPONENT_LENGTH, U256_SIZE_BYTES};

verus! {

/// `arbitrary::Unstructured`, the fuzzer's source of raw bytes, carried
/// through opaquely.
#[verifier::external_type_specification]
#[verifier::external_body]
pub struct ExUnstructured<'a>(arbitrary::Unstructured<'a>);

/// `arbitrary::Error`, carried through opaquely.
#[verifier::external_type_specification]
#[verifier::external_body]
pub struct ExArbitraryError(arbitrary::Error);

/// The raw bytes that an `arbitrary::Unstructured` has not handed out yet.
pub uninterp spec fn unstructured_data(u: arbitrary::Unstructured) -> Seq<u8>;

/// The number of bytes needed to write `n` (none for zero).
pub open spec fn byte_width(n: nat) -> nat
    decreases n,
{
    if n == 0 {
        0
    } else {
        1 + byte_width(n / 256)
    }
}

/// How many bytes of the remaining `data` an `int_in_range(0..=max)` draw
/// uses: one per byte of `max`, as far as the data lasts.
pub open spec fn int_in_range_used(data: Seq<u8>, max: usize) -> nat {
    if data.len() < byte_width(max as nat) {
        data.len()
    } else {
        byte_width(max as nat)
    }
}

/// The value of an `int_in_range(0..=max)` draw: the bytes it uses, read
/// big-endian, reduced into `0..=max`.
pub open spec fn int_in_range_value(data: Seq<u8>, max: usize) -> nat {
    be_value(data.take(int_in_range_used(data, max) as int)) % (max + 1) as nat
}

/// Calls `arbitrary::Unstructured::int_in_range` on `0..=max`.
/// Claimed, as the source shows: the call succeeds (it returns `Ok` on every
/// path once the range is non-empty, which `0..=max` always is); it reads
/// one byte per byte of `max` while the data lasts, as a big-endian number,
/// and returns that number modulo `max + 1` (for `max == usize::MAX` the
/// number already fits); the bytes it read are used up.
#[verifier::external_body]
fn int_in_range_up_to(u: &mut arbitrary::Unstructured, max: usize) -> (result: Result<
    usize,
    arbitrary::Error,
>)
    ensures
        result == Ok::<usize, arbitrary::Error>(
            int_in_range_value(unstructured_data(*old(u)), max) as usize,
        ),
        ({
            let d = unstructured_data(*old(u));
            unstructured_data(*final(u)) == d.skip(int_in_range_used(d, max) as int)
        }),
{
    u.int_in_range(0..=max)
}

/// Calls `arbitrary::Unstructured::arbitrary` for a `u8`.
/// Claimed, as the source shows (`fill_buffer` on a one-byte buffer): the
/// call succeeds; it gives the first remaining byte and uses it up, or gives
/// zero and uses nothing once the data is exhausted.
#[verifier::external_body]
fn arbitrary_byte(u: &mut arbitrary::Unstructured) -> (result: Result<u8, arbitrary::Error>)
    ensures
        ({
            let d = unstructured_data(*old(u));
            result == Ok::<u8, arbitrary::Error>(if d.len() > 0 { d[0] } else { 0u8 })
        }),
        ({
            let d = unstructured_data(*old(u));
            unstructured_data(*final(u)) == (if d.len() > 0 { d.skip(1) } else { d })
        }),
{
    u.arbitrary::<u8>()
}

/// The data left after a length is drawn for [`generate_bounded_bytes`].
pub open spec fn data_after_length(d: Seq<u8>) -> Seq<u8> {
    d.skip(int_in_range_used(d, MAX_COMPONENT_LENGTH as usize) as int)
}

/// The number of bytes that `n` draws take from `rest`: one each while the
/// data lasts.
pub open spec fn bytes_taken(rest: Seq<u8>, n: int) -> int {
    if n < rest.len() { n } else { rest.len() as int }
}

/// Operand data of arbitrary length up to [`MAX_COMPONENT_LENGTH`] bytes.
///
/// The length is drawn with `int_in_range(0..=MAX_COMPONENT_LENGTH)`; the
/// bytes are the data that follows, one per draw, zeros once it runs out.
pub fn generate_bounded_bytes(u: &mut arbitrary::Unstructured) -> (result: Result<
    Vec<u8>,
    arbitrary::Error,
>)
    ensures
        ({
            let d = unstructured_data(*old(u));
            let n = int_in_range_value(d, MAX_COMPONENT_LENGTH as usize);
            let rest = data_after_length(d);
            &&& n <= MAX_COMPONENT_LENGTH
            &&& result matches Ok(bytes) && bytes@ == padded_window(rest, 0, n as int)
            &&& unstructured_data(*final(u)) == rest.skip(bytes_taken(rest, n as int))
        }),
{
    let ghost d = unstructured_data(*u);
    let len = match int_in_range_up_to(u, MAX_COMPONENT_LENGTH as usize) {
        Ok(len) => len,
        Err(e) => return Err(e),
    };
    let ghost rest = data_after_length(d);
    assert(unstructured_data(*u) =~= rest.skip(0));
    let mut bytes: Vec<u8> = Vec::with_capacity(len);
    let mut i: usize = 0;
    while i < len
        invariant
            i <= len,
            len <= MAX_COMPONENT_LENGTH,
            bytes@ == padded_window(rest, 0, i as int),
            unstructured_data(*u) == rest.skip(bytes_taken(rest, i as int)),
        decreases len - i,
    {
        let ghost cur = unstructured_data(*u);
        let byte = match arbitrary_byte(u) {
            Ok(byte) => byte,
            Err(e) => return Err(e),
        };
        proof {
            if (i as int) < rest.len() {
                assert(cur[0] == rest[i as int]);
                assert(cur.skip(1) =~= rest.skip(bytes_taken(rest, i + 1)));
            } else {
                assert(cur.len() == 0);
            }
        }
        bytes.push(byte);
        i = i + 1;
        assert(bytes@ =~= padded_window(rest, 0, i as int));
    }
    Ok(bytes)
}

/// The four bytes of `v`, most significant first.
pub open spec fn u32_be_bytes(v: u32) -> Seq<u8> {
    seq![
        (v / 16777216) as u8,
        ((v / 65536) % 256) as u8,
        ((v / 256) % 256) as u8,
        (v % 256) as u8,
    ]
}

/// `v` as a big-endian 256-bit word: 28 zero bytes, then its four bytes.
pub open spec fn u256_word(v: u32) -> Seq<u8> {
    Seq::new(28, |i: int| 0u8) + u32_be_bytes(v)
}

/// The four bytes of `v` read back big-endian give `v`.
pub proof fn lemma_u32_be_bytes_value(v: u32)
    ensures
        be_value(u32_be_bytes(v)) == v,
{
    let s = u32_be_bytes(v);
    lemma_be_value_four(s);
    let a = v / 16777216;
    let b = (v / 65536) % 256;
    let c = (v / 256) % 256;
    let d = v % 256;
    assert(a < 256);
    assert(s[0] == a && s[1] == b && s[2] == c && s[3] == d);
    assert(a * 16777216 + b * 65536 + c * 256 + d == v);
}

/// A 256-bit word made from `v` reads back, as a whole and by its low 32
/// bits, as `v`.
pub proof fn lemma_u256_word_value(v: u32)
    ensures
        be_value(u256_word(v)) == v,
        u256_word(v).len() == 32,
        be_value(u256_word(v).subrange(28, 32)) == v,
{
    lemma_u32_be_bytes_value(v);
    lemma_be_value_leading_zeros(Seq::new(28, |i: int| 0u8), u32_be_bytes(v));
    assert(u256_word(v).subrange(28, 32) =~= u32_be_bytes(v));
}

/// A length word written by [`ModExpInput::encode_u256`] reads back as its
/// value wherever it stands, whatever bytes come before and after it.
pub proof fn lemma_length_word_decodes(pre: Seq<u8>, v: u32, rest: Seq<u8>)
    ensures
        word_low_u32(pre + u256_word(v) + rest, pre.len() as int) == v,
{
    let data = pre + u256_word(v) + rest;
    lemma_u256_word_value(v);
    assert(data.subrange(pre.len() as int + 28, pre.len() as int + 32) =~= u256_word(v).subrange(28, 32));
}

/// Structured input for the modexp precompile: declared lengths and the
/// data for each operand. Data longer than its declared length is cut off,
/// shorter data is padded with zeros.
pub struct ModExpInput {
    pub base_len: u32,
    pub exp_len: u32,
    pub mod_len: u32,
    pub base_data: Vec<u8>,
    pub exp_data: Vec<u8>,
    pub mod_data: Vec<u8>,
}

impl ModExpInput {
    /// The raw bytes this input stands for: the three length words, then
    /// each operand's data cut or padded to its declared length.
    pub open spec fn encoded(&self) -> Seq<u8> {
        u256_word(self.base_len) + u256_word(self.exp_len) + u256_word(self.mod_len) + padded_window(
            self.base_data@,
            0,
            self.base_len as int,
        ) + padded_window(self.exp_data@, 0, self.exp_len as int) + padded_window(
            self.mod_data@,
            0,
            self.mod_len as int,
        )
    }

    /// The number of raw bytes this input stands for.
    pub open spec fn encoded_len(&self) -> int {
        HEADER_SIZE_BYTES + self.base_len + self.exp_len + self.mod_len
    }

    /// The raw input bytes: header, then base, exponent and modulus data.
    pub fn to_bytes(&self) -> (bytes: Vec<u8>)
        requires
            self.encoded_len() <= usize::MAX,
        ensures
            bytes@ == self.encoded(),
    {
        let mut buffer: Vec<u8> = Vec::with_capacity(self.calculate_buffer_size());
        let base_word = self.encode_u256(self.base_len);
        buffer.extend_from_slice(base_word.as_slice());
        let exp_word = self.encode_u256(self.exp_len);
        buffer.extend_from_slice(exp_word.as_slice());
        let mod_word = self.encode_u256(self.mod_len);
        buffer.extend_from_slice(mod_word.as_slice());
        assert(buffer@ =~= u256_word(self.base_len) + u256_word(self.exp_len) + u256_word(self.mod_len));
        self.append_padded_data(&mut buffer, self.base_data.as_slice(), self.base_len as usize);
        self.append_padded_data(&mut buffer, self.exp_data.as_slice(), self.exp_len as usize);
        self.append_padded_data(&mut buffer, self.mod_data.as_slice(), self.mod_len as usize);
        buffer
    }

    /// The output size that a successful call has: the modulus length.
    pub fn expected_output_size(&self) -> (size: usize)
        ensures
            size == self.mod_len,
    {
        self.mod_len as usize
    }

    /// The number of raw input bytes: header plus the three declared lengths.
    pub fn calculate_buffer_size(&self) -> (size: usize)
        requires
            self.encoded_len() <= usize::MAX,
        ensures
            size == self.encoded_len(),
    {
        HEADER_SIZE_BYTES + self.base_len as usize + self.exp_len as usize + self.mod_len as usize
    }

    /// `value` as a big-endian 256-bit word.
    pub fn encode_u256(&self, value: u32) -> (word: [u8; 32])
        ensures
            word@ == u256_word(value),
    {
        let mut bytes = [0u8; 32];
        bytes[U256_SIZE_BYTES - 4] = (value / 16777216) as u8;
        bytes[U256_SIZE_BYTES - 3] = ((value / 65536) % 256) as u8;
        bytes[U256_SIZE_BYTES - 2] = ((value / 256) % 256) as u8;
        bytes[U256_SIZE_BYTES - 1] = (value % 256) as u8;
        assert(bytes@ =~= u256_word(value));
        bytes
    }

    /// Appends `data` cut or zero-padded to `target_len` bytes.
    pub fn append_padded_data(&self, buffer: &mut Vec<u8>, data: &[u8], target_len: usize)
        requires
            old(buffer)@.len() + target_len <= usize::MAX,
        ensures
            final(buffer)@ == old(buffer)@ + padded_window(data@, 0, target_len as int),
    {
        let actual_len = if data.len() < target_len {
            data.len()
        } else {
            target_len
        };
        let ghost start = buffer@;
        let mut i: usize = 0;
        while i < actual_len
            invariant
                start.len() + target_len <= usize::MAX,
                i <= actual_len,
                actual_len <= data@.len(),
                actual_len <= target_len,
                buffer@ == start + data@.subrange(0, i as int),
            decreases actual_len - i,
        {
            buffer.push(data[i]);
            i = i + 1;
            assert(buffer@ =~= start + data@.subrange(0, i as int));
        }
        if actual_len < target_len {
            let new_len = buffer.len() + (target_len - actual_len);
            let ghost before = buffer@;
            buffer.resize(new_len, 0u8);
            assert forall|k: int| before.len() <= k < new_len implies buffer@[k] == 0u8 by {
                assert(cloned(0u8, buffer@[k]));
            }
            assert(buffer@ =~= before + Seq::new((target_len - actual_len) as nat, |k: int| 0u8));
        }
        assert(buffer@ =~= start + padded_window(data@, 0, target_len as int));
    }
}


/// The raw bytes built from a structured input declare exactly its lengths
/// and hold exactly its data, cut or padded to those lengths. Its output
/// size is the length the header declares for the modulus, and with lengths
/// within bounds the input is always admitted.
pub proof fn lemma_encoded_input_roundtrip(input: ModExpInput)
    ensures
        ({
            let raw = input.encoded();
            let b = input.base_len as int;
            let e = input.exp_len as int;
            let m = input.mod_len as int;
            &&& raw.len() == input.encoded_len()
            &&& declared_len(raw, 0) == input.base_len
            &&& declared_len(raw, 1) == input.exp_len
            &&& declared_len(raw, 2) == input.mod_len
            &&& holds_declared_data(raw)
            &&& padded_window(raw, operand_start(b, e, 0), b) == padded_window(input.base_data@, 0, b)
            &&& padded_window(raw, operand_start(b, e, 1), e) == padded_window(input.exp_data@, 0, e)
            &&& padded_window(raw, operand_start(b, e, 2), m) == padded_window(input.mod_data@, 0, m)
            &&& (input.base_len <= MAX_COMPONENT_LENGTH && input.exp_len <= MAX_COMPONENT_LENGTH
                && input.mod_len <= MAX_COMPONENT_LENGTH ==> admits(raw))
        }),
{
    let raw = input.encoded();
    let b = input.base_len as int;
    let e = input.exp_len as int;
    let m = input.mod_len as int;
    let wb = u256_word(input.base_len);
    let we = u256_word(input.exp_len);
    let wm = u256_word(input.mod_len);
    let pb = padded_window(input.base_data@, 0, b);
    let pe = padded_window(input.exp_data@, 0, e);
    let pm = padded_window(input.mod_data@, 0, m);
    lemma_u256_word_value(input.base_len);
    lemma_u256_word_value(input.exp_len);
    lemma_u256_word_value(input.mod_len);
    assert(raw.subrange(28, 32) =~= wb.subrange(28, 32));
    assert(raw.subrange(60, 64) =~= we.subrange(28, 32));
    assert(raw.subrange(92, 96) =~= wm.subrange(28, 32));
    assert(padded_window(raw, 96, b) =~= pb);
    assert(padded_window(raw, 96 + b, e) =~= pe);
    assert(padded_window(raw, 96 + b + e, m) =~= pm);
}

} // verus!
