use eth_arithmetic::fuzz_input::{generate_bounded_bytes, ModExpInput};
use eth_arithmetic::testing::{prepare_modexp_call, InputParser, ModExpCall, MAX_COMPONENT_LENGTH};

fn sample() -> ModExpInput {
    ModExpInput {
        base_len: 2,
        exp_len: 1,
        mod_len: 3,
        base_data: vec![0xAA, 0xBB, 0xCC],
        exp_data: vec![],
        mod_data: vec![1, 2],
    }
}

#[test]
fn encode_u256_is_big_endian_word() {
    let word = sample().encode_u256(0x01020304);
    let mut expected = [0u8; 32];
    expected[28..32].copy_from_slice(&[1, 2, 3, 4]);
    assert_eq!(word, expected);
}

#[test]
fn to_bytes_layout() {
    let input = sample();
    let bytes = input.to_bytes();
    assert_eq!(bytes.len(), input.calculate_buffer_size());
    assert_eq!(bytes.len(), 96 + 2 + 1 + 3);
    assert_eq!(bytes[31], 2);
    assert_eq!(bytes[63], 1);
    assert_eq!(bytes[95], 3);
    // base cut to 2 bytes, exponent padded to 1, modulus padded to 3
    assert_eq!(&bytes[96..], &[0xAA, 0xBB, 0x00, 0x01, 0x02, 0x00]);
    assert_eq!(input.expected_output_size(), 3);
}

#[test]
fn to_bytes_roundtrips_through_parser() {
    let input = sample();
    let bytes = input.to_bytes();
    assert_eq!(InputParser::new(&bytes).parse_lengths(), Some((2, 1, 3)));
    match prepare_modexp_call(&bytes).unwrap() {
        ModExpCall::Invoke { parsed, buffer_size } => {
            assert_eq!(buffer_size, input.expected_output_size());
            assert_eq!(parsed.base, vec![0xAA, 0xBB]);
            assert_eq!(parsed.exponent, vec![0x00]);
            assert_eq!(parsed.modulus, vec![1, 2, 0]);
        }
        ModExpCall::Finished(_) => panic!("expected a call"),
    }
}

#[test]
fn append_padded_data_cuts_and_pads() {
    let input = sample();
    let mut buffer = vec![9u8];
    input.append_padded_data(&mut buffer, &[1, 2, 3], 2);
    assert_eq!(buffer, vec![9, 1, 2]);
    input.append_padded_data(&mut buffer, &[4], 3);
    assert_eq!(buffer, vec![9, 1, 2, 4, 0, 0]);
    input.append_padded_data(&mut buffer, &[5], 0);
    assert_eq!(buffer, vec![9, 1, 2, 4, 0, 0]);
}

#[test]
fn bounded_bytes_stay_within_limit() {
    let data: Vec<u8> = (0..=255u8).cycle().take(5000).collect();
    let mut u = arbitrary::Unstructured::new(&data);
    for _ in 0..4 {
        let bytes = generate_bounded_bytes(&mut u).unwrap();
        assert!(bytes.len() <= MAX_COMPONENT_LENGTH as usize);
    }
    let mut empty = arbitrary::Unstructured::new(&[]);
    assert_eq!(generate_bounded_bytes(&mut empty).unwrap(), Vec::<u8>::new());
}

#[test]
fn bounded_bytes_take_the_data_after_the_length() {
    // Length drawn from the first two bytes (3), then the next bytes, zero-padded.
    let data = [0x00u8, 0x03, 7, 8];
    let mut u = arbitrary::Unstructured::new(&data);
    assert_eq!(generate_bounded_bytes(&mut u).unwrap(), vec![7, 8, 0]);
    assert!(u.is_empty());
}

#[test]
fn length_word_decodes_after_any_prefix() {
    let input = sample();
    let mut data = vec![0xEEu8; 64];
    data.extend_from_slice(&input.encode_u256(0xDEAD_BEEF));
    data.extend_from_slice(&[1, 2, 3]);
    // The word sits where the modulus length is read.
    assert_eq!(
        InputParser::new(&data).parse_lengths(),
        Some((0xEEEE_EEEE, 0xEEEE_EEEE, 0xDEAD_BEEF))
    );
}

#[test]
fn bounded_bytes_length_reduced_modulo_limit_plus_one() {
    // 0x0401 = 1025 reduces to 0; 0x0402 = 1026 reduces to 1.
    let data = [0x04u8, 0x01];
    let mut u = arbitrary::Unstructured::new(&data);
    assert_eq!(generate_bounded_bytes(&mut u).unwrap(), Vec::<u8>::new());
    let data = [0x04u8, 0x02, 0x55];
    let mut u = arbitrary::Unstructured::new(&data);
    assert_eq!(generate_bounded_bytes(&mut u).unwrap(), vec![0x55]);
    // One byte of data only: the length is that byte.
    let data = [0x02u8];
    let mut u = arbitrary::Unstructured::new(&data);
    assert_eq!(generate_bounded_bytes(&mut u).unwrap(), vec![0, 0]);
}
