use bulk_kernels::images::invert_colors;

/// Deterministic pseudo-random bytes for exercising many buffer lengths.
fn pseudo_random_bytes(len: usize, seed: u64) -> Vec<u8> {
    let mut state: u64 = seed.wrapping_add(0x9e3779b97f4a7c15);
    let mut out = Vec::with_capacity(len);
    for _ in 0..len {
        state = state
            .wrapping_mul(6364136223846793005)
            .wrapping_add(1442695040888963407);
        out.push((state >> 56) as u8);
    }
    out
}

#[test]
fn invert_example() {
    let mut colors = vec![0u8, 128, 255, 100, 50];
    invert_colors(&mut colors);
    assert_eq!(colors, vec![255u8, 127, 0, 155, 205]);
}

#[test]
fn invert_empty_is_noop() {
    let mut empty: Vec<u8> = Vec::new();
    invert_colors(&mut empty);
    assert!(empty.is_empty());
}

#[test]
fn invert_twice_restores() {
    let original = pseudo_random_bytes(40, 7);
    let mut buf = original.clone();
    invert_colors(&mut buf);
    assert_ne!(buf, original);
    invert_colors(&mut buf);
    assert_eq!(buf, original);
}

#[test]
fn invert_exact_lane_multiple() {
    let mut buf = vec![1u8; 32];
    invert_colors(&mut buf);
    assert_eq!(buf, vec![254u8; 32]);
}

#[test]
fn invert_boundary_length_17() {
    let mut buf: Vec<u8> = (0u8..17).collect();
    invert_colors(&mut buf);
    let expected: Vec<u8> = (0u8..17).map(|b| 255 - b).collect();
    assert_eq!(buf, expected);
}

#[test]
fn invert_matches_scalar_across_lengths() {
    for len in 0..64usize {
        let original = pseudo_random_bytes(len, len as u64);
        let mut buf = original.clone();
        invert_colors(&mut buf);
        let scalar: Vec<u8> = original.iter().map(|&b| 255 - b).collect();
        assert_eq!(buf, scalar, "length {len}");
    }
}
