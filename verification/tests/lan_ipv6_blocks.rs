//! Overlap of numbered blocks.
use landscape::lan_ipv6::blocks::{blocks_overlap, range_blocks_overlap};

#[test]
fn test_blocks_overlap_same_index_same_len() {
    assert!(blocks_overlap(48, 0, 64, 0, 64));
}

#[test]
fn test_blocks_overlap_adjacent() {
    assert!(!blocks_overlap(48, 0, 64, 1, 64));
}

#[test]
fn test_blocks_overlap_nested() {
    assert!(blocks_overlap(48, 0, 62, 2, 64));
}

#[test]
fn test_blocks_no_overlap_different_sizes() {
    assert!(!blocks_overlap(48, 0, 62, 4, 64));
}

#[test]
fn overlap_does_not_depend_on_order() {
    for (a, m, b, n) in [(0u64, 62u8, 2u64, 64u8), (0, 62, 4, 64), (5, 60, 80, 64), (5, 60, 96, 64)] {
        assert_eq!(blocks_overlap(48, a, m, b, n), blocks_overlap(48, b, n, a, m));
    }
}

#[test]
fn overlap_of_large_indices() {
    assert!(blocks_overlap(0, u32::MAX as u64, 64, u32::MAX as u64, 64));
    assert!(blocks_overlap(0, 1, 33, 1 << 31, 64));
    assert!(!blocks_overlap(0, 1, 33, 1 << 32, 64));
}

#[test]
fn ranges_share_an_end() {
    assert!(range_blocks_overlap(1, 4, 4, 9));
    assert!(!range_blocks_overlap(1, 4, 5, 9));
    assert!(range_blocks_overlap(0, 9, 3, 3));
}
