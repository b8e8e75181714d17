use bulk_kernels::engine::main_region_len;
use bulk_kernels::lanes::{BYTE_LANES, WIDE_LANES};

#[test]
fn split_empty_buffer() {
    assert_eq!(main_region_len(0, BYTE_LANES), 0);
    assert_eq!(main_region_len(0, WIDE_LANES), 0);
}

#[test]
fn split_shorter_than_one_group() {
    assert_eq!(main_region_len(5, BYTE_LANES), 0);
    assert_eq!(main_region_len(1, WIDE_LANES), 0);
}

#[test]
fn split_exact_group_multiple() {
    assert_eq!(main_region_len(16, BYTE_LANES), 16);
    assert_eq!(main_region_len(32, BYTE_LANES), 32);
    assert_eq!(main_region_len(6, WIDE_LANES), 6);
}

#[test]
fn split_with_remainder() {
    assert_eq!(main_region_len(17, BYTE_LANES), 16);
    assert_eq!(main_region_len(31, BYTE_LANES), 16);
    assert_eq!(main_region_len(33, WIDE_LANES), 32);
}
