# eth_arithmetic

Verified input handling for the EIP-198 modular exponentiation precompile.

- `src/big_endian.rs` — byte strings read as big-endian numbers, with the
  lemmas the rest relies on (order of equal-length strings is lexicographic).
- `src/parsing.rs` — reading the operands out of raw input, right-padded with
  zeros (`read_big`, `ParsedModExpInput::from_raw_input`).
- `src/testing.rs` — the header parser, length limits, output buffer sizing,
  error codes, and the two halves of a precompile call: checking the input
  (`prepare_modexp_call`) and interpreting what the precompile reported
  (`finish_modexp_call`).
- `src/testing/validation.rs` — property checks on results (below the
  modulus, `b^0 = 1`, `0^e = 0`, plausible error codes), and the whole
  check that a fuzz run makes of an outcome (`check_outcome`).
- `src/fuzz_input.rs` — building raw input from structured fuzz input, with
  the proof that such input always parses back to what it was built from.
- `app/` — the foreign call into the native precompile and the libFuzzer
  target; not verified.
