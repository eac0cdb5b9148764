//! Input framing, validation and property checks for the EIP-198 modular
//! exponentiation precompile.
//!
//! The precompile input is a 96-byte header of three big-endian 256-bit
//! length words (base, exponent, modulus) followed by the three operands.
//! Operands that run past the end of the input are right-padded with zeros.

pub mod big_endian;
pub mod fuzz_input;
pub mod parsing;
pub mod testing;
