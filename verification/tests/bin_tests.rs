use mimalloc_core::bin::{_mi_bin, _mi_bin_size, mi_bin, mi_good_size, MI_BIN_HUGE};
use mimalloc_core::page::MI_MEDIUM_OBJ_SIZE_MAX;

#[test]
fn bin_of_small_sizes() {
    // Size 0 resolves to the smallest bin, not an error.
    assert_eq!(mi_bin(0), 1);
    assert_eq!(mi_bin(1), 1);
    assert_eq!(mi_bin(8), 1);
    // Two-word rounding: word counts up to 8 go to even bins.
    assert_eq!(mi_bin(9), 2);
    assert_eq!(mi_bin(16), 2);
    assert_eq!(mi_bin(17), 4);
    assert_eq!(mi_bin(24), 4);
    assert_eq!(mi_bin(32), 4);
    assert_eq!(mi_bin(33), 6);
    assert_eq!(mi_bin(48), 6);
    assert_eq!(mi_bin(64), 8);
    assert_eq!(_mi_bin(64), 8);
}

#[test]
fn bin_of_medium_sizes() {
    // 9 words (65..72 bytes) is the first exponential bin.
    assert_eq!(mi_bin(65), 9);
    assert_eq!(mi_bin(72), 9);
    assert_eq!(mi_bin(80), 9);
    assert_eq!(mi_bin(81), 10);
    assert_eq!(mi_bin(128), 12);
    assert_eq!(mi_bin(160), 13);
    // The largest medium object maps to the last regular bin.
    assert_eq!(mi_bin(MI_MEDIUM_OBJ_SIZE_MAX), 52);
}

#[test]
fn bin_of_huge_sizes() {
    assert_eq!(mi_bin(MI_MEDIUM_OBJ_SIZE_MAX + 1), MI_BIN_HUGE as u8);
    assert_eq!(mi_bin(1 << 30), MI_BIN_HUGE as u8);
}

#[test]
fn bin_is_monotonic_on_samples() {
    let mut prev = 0u8;
    for s in 0..=4096usize {
        let b = mi_bin(s);
        assert!(b >= prev, "bin must not decrease: size {}", s);
        assert!(b >= 1 && b as usize <= MI_BIN_HUGE);
        prev = b;
    }
}

#[test]
fn bin_size_covers_request() {
    assert_eq!(_mi_bin_size(1), 8);
    assert_eq!(_mi_bin_size(4), 32);
    assert_eq!(_mi_bin_size(8), 64);
    assert_eq!(_mi_bin_size(9), 80);
    assert_eq!(_mi_bin_size(52), MI_MEDIUM_OBJ_SIZE_MAX);
    // The huge and full pseudo-queues carry the sentinel sizes.
    assert_eq!(_mi_bin_size(73), MI_MEDIUM_OBJ_SIZE_MAX + 8);
    assert_eq!(_mi_bin_size(74), MI_MEDIUM_OBJ_SIZE_MAX + 16);
    for s in 0..=MI_MEDIUM_OBJ_SIZE_MAX {
        if s % 997 == 0 || s < 200 {
            assert!(_mi_bin_size(mi_bin(s)) >= s);
        }
    }
}

#[test]
fn good_size_rounds_to_bin_size() {
    assert_eq!(mi_good_size(0), 8);
    assert_eq!(mi_good_size(24), 32);
    assert_eq!(mi_good_size(70), 80);
    assert_eq!(mi_good_size(MI_MEDIUM_OBJ_SIZE_MAX), MI_MEDIUM_OBJ_SIZE_MAX);
}

#[test]
fn good_size_of_huge_rounds_to_os_page() {
    // One object above the medium-object maximum: huge bin, size rounded
    // up to the OS page size.
    let size = MI_MEDIUM_OBJ_SIZE_MAX + 1;
    assert_eq!(mi_bin(size), MI_BIN_HUGE as u8);
    assert_eq!(mi_good_size(size), 135168);
    assert_eq!(mi_good_size(1000000), 1003520);
}

#[test]
fn good_size_never_shrinks_and_is_idempotent() {
    for s in (0..200000usize).step_by(613) {
        let g = mi_good_size(s);
        assert!(g >= s);
        assert_eq!(mi_good_size(g), g);
    }
}
