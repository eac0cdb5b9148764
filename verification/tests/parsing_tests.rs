use eth_arithmetic::parsing::{read_big, ParsedModExpInput};

#[test]
fn test_read_big_exact_data() {
    let input = vec![0x01, 0x02, 0x03, 0x04, 0x05];
    let result = read_big(&input, 1, 4);
    assert_eq!(result, vec![0x02, 0x03, 0x04]);
}

#[test]
fn test_read_big_partial_data() {
    let input = vec![0x01, 0x02, 0x03];
    let result = read_big(&input, 1, 5);
    // Should read [0x02, 0x03] and pad with zeros
    assert_eq!(result, vec![0x02, 0x03, 0x00, 0x00]);
}

#[test]
fn test_read_big_out_of_bounds() {
    let input = vec![0x01, 0x02];
    let result = read_big(&input, 5, 8);
    // Should return all zeros since start is beyond input
    assert_eq!(result, vec![0x00, 0x00, 0x00]);
}

#[test]
fn test_read_big_empty_input() {
    let input = vec![];
    let result = read_big(&input, 0, 4);
    // Should return all zeros
    assert_eq!(result, vec![0x00, 0x00, 0x00, 0x00]);
}

#[test]
fn test_parsed_modexp_basic() {
    let mut input = vec![0u8; 100];
    // Add some data at position 96
    input[96] = 0xAA;
    input[97] = 0xBB;
    input[98] = 0xCC;
    input[99] = 0xDD;

    let parsed = ParsedModExpInput::from_raw_input(&input, 2, 1, 1);

    assert_eq!(parsed.base, vec![0xAA, 0xBB]);
    assert_eq!(parsed.exponent, vec![0xCC]);
    assert_eq!(parsed.modulus, vec![0xDD]);
}

#[test]
fn test_parsed_modexp_with_padding() {
    // Input only has 97 bytes total, but we request more
    let input = vec![0u8; 97];

    let parsed = ParsedModExpInput::from_raw_input(&input, 2, 2, 2);

    // base starts at 96, should get 1 byte then pad
    assert_eq!(parsed.base, vec![0x00, 0x00]);
    // exp starts at 98, which is beyond input, all zeros
    assert_eq!(parsed.exponent, vec![0x00, 0x00]);
    // mod starts at 100, which is beyond input, all zeros
    assert_eq!(parsed.modulus, vec![0x00, 0x00]);
}

#[test]
fn test_parsed_modexp_zero_lengths() {
    let input = vec![0xFF; 100];

    let parsed = ParsedModExpInput::from_raw_input(&input, 0, 0, 0);

    assert_eq!(parsed.base, vec![]);
    assert_eq!(parsed.exponent, vec![]);
    assert_eq!(parsed.modulus, vec![]);
}

#[test]
fn test_parsed_modexp_reproduces_fuzzer_case() {
    // Declared lengths larger than the available data
    let mut input = vec![0u8; 96];
    // Add only 2 bytes of actual data
    input.push(0xFF);
    input.push(0xFF);

    // But declare we want 4 bytes for modulus
    let parsed = ParsedModExpInput::from_raw_input(&input, 0, 0, 4);

    // Should get [0xFF, 0xFF, 0x00, 0x00] due to right padding
    assert_eq!(parsed.modulus, vec![0xFF, 0xFF, 0x00, 0x00]);
}

#[test]
fn read_big_empty_range_is_empty() {
    let input = vec![1u8, 2, 3];
    assert_eq!(read_big(&input, 2, 2), Vec::<u8>::new());
    assert_eq!(read_big(&input, 7, 7), Vec::<u8>::new());
}

#[test]
fn read_big_window_ending_at_input_end() {
    let input = vec![9u8, 8, 7, 6];
    assert_eq!(read_big(&input, 2, 4), vec![7, 6]);
    assert_eq!(read_big(&input, 0, 4), input);
}

#[test]
fn parsed_modexp_records_lengths_and_offsets() {
    let mut input = vec![0u8; 96];
    input.extend_from_slice(&[1, 2, 3, 4, 5, 6]);
    let parsed = ParsedModExpInput::from_raw_input(&input, 1, 2, 3);
    assert_eq!(parsed.base_len, 1);
    assert_eq!(parsed.exp_len, 2);
    assert_eq!(parsed.mod_len, 3);
    assert_eq!(parsed.base, vec![1]);
    assert_eq!(parsed.exponent, vec![2, 3]);
    assert_eq!(parsed.modulus, vec![4, 5, 6]);
}

#[test]
fn parsed_modexp_input_shorter_than_header() {
    let input = vec![0xEEu8; 10];
    let parsed = ParsedModExpInput::from_raw_input(&input, 1, 1, 2);
    assert_eq!(parsed.base, vec![0]);
    assert_eq!(parsed.exponent, vec![0]);
    assert_eq!(parsed.modulus, vec![0, 0]);
}
