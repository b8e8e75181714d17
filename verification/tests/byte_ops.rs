use bulk_kernels::byte::{count_one_bits, count_zero_bits, xor_bytes};

#[test]
fn xor_example() {
    let data1 = [0b1101_0101u8, 0b1010_1010];
    let data2 = [0b0110_0011u8, 0b1111_0000];
    assert_eq!(xor_bytes(&data1, &data2), vec![0b1011_0110u8, 0b0101_1010]);
}

#[test]
fn xor_truncates_to_shorter_input() {
    let short = [1u8, 2, 3];
    let long = [16u8, 32, 64, 128, 255];
    let out = xor_bytes(&short, &long);
    assert_eq!(out.len(), 3);
    assert_eq!(out, vec![17u8, 34, 67]);
    let flipped = xor_bytes(&long, &short);
    assert_eq!(flipped, vec![17u8, 34, 67]);
}

#[test]
fn xor_round_trip_restores() {
    let a = [0x12u8, 0x34, 0x56, 0x78, 0x9a];
    let key = [0xffu8, 0x00, 0x55, 0xaa, 0x0f];
    let masked = xor_bytes(&a, &key);
    let unmasked = xor_bytes(&masked, &key);
    assert_eq!(unmasked, a.to_vec());
}

#[test]
fn xor_with_self_is_all_zeros() {
    let a = [0xdeu8, 0xad, 0xbe, 0xef];
    assert_eq!(xor_bytes(&a, &a), vec![0u8; 4]);
}

#[test]
fn xor_empty_input() {
    let a = [5u8, 6];
    let empty: [u8; 0] = [];
    assert_eq!(xor_bytes(&a, &empty), Vec::<u8>::new());
}

#[test]
fn count_zero_bits_example() {
    let input = [0b1100_1100u8, 0b1010_1010, 0b1111_0000];
    assert_eq!(count_zero_bits(&input), 12);
}

#[test]
fn count_zero_bits_empty() {
    let empty: [u8; 0] = [];
    assert_eq!(count_zero_bits(&empty), 0);
}

#[test]
fn count_zero_bits_extremes() {
    assert_eq!(count_zero_bits(&[0xffu8; 5]), 0);
    assert_eq!(count_zero_bits(&[0x00u8; 5]), 40);
}

#[test]
fn count_one_bits_example() {
    let input = [0b1100_1100u8, 0b1010_1010, 0b1111_0000];
    assert_eq!(count_one_bits(&input), 12);
    assert_eq!(count_one_bits(&[0x01u8, 0x80, 0x07]), 5);
}

#[test]
fn bit_counts_sum_to_bits_of_buffer() {
    let input = [0u8, 1, 2, 3, 0x7f, 0x80, 0xff, 0x5c];
    let zeros = count_zero_bits(&input);
    let ones = count_one_bits(&input);
    assert_eq!(zeros + ones, 8 * input.len() as u64);
}
