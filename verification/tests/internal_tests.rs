use mimalloc_core::constants::{MI_ALIGN2W, MI_ALIGNMENT, MI_INTPTR_BITS, MI_INTPTR_SIZE};
use mimalloc_core::internal::{
    _mi_align_down, _mi_align_up, _mi_divide_up, _mi_wsize_from_size, mi_bsr, mi_clz, mi_ctz,
    mi_mem_is_zero,
};
use mimalloc_core::os::{_mi_os_has_overcommit, _mi_os_page_size};
use mimalloc_core::stats::{StatCount, StatCounter, Stats};
use mimalloc_core::thread::{
    mi_delayed_e, OsThreadLocalData, SegmentsThreadLocalData, ThreadLocalData,
};

#[test]
fn bit_scans() {
    assert_eq!(mi_clz(0), MI_INTPTR_BITS);
    assert_eq!(mi_ctz(0), MI_INTPTR_BITS);
    assert_eq!(mi_bsr(0), MI_INTPTR_BITS);
    assert_eq!(mi_clz(1), 63);
    assert_eq!(mi_bsr(1), 0);
    assert_eq!(mi_bsr(2), 1);
    assert_eq!(mi_bsr(3), 1);
    assert_eq!(mi_bsr(4), 2);
    assert_eq!(mi_bsr(16383), 13);
    assert_eq!(mi_bsr(16384), 14);
    assert_eq!(mi_ctz(8), 3);
    assert_eq!(mi_ctz(12), 2);
    assert_eq!(mi_clz(usize::MAX), 0);
}

#[test]
fn alignment_helpers() {
    // Power-of-two alignments take the mask path.
    assert_eq!(_mi_align_up(0, 8), 0);
    assert_eq!(_mi_align_up(1, 8), 8);
    assert_eq!(_mi_align_up(8, 8), 8);
    assert_eq!(_mi_align_up(9, 8), 16);
    assert_eq!(_mi_align_up(131073, 4096), 135168);
    assert_eq!(_mi_align_down(7, 8), 0);
    assert_eq!(_mi_align_down(17, 8), 16);
    // Non-power-of-two alignments take the division path.
    assert_eq!(_mi_align_up(10, 6), 12);
    assert_eq!(_mi_align_down(10, 6), 6);
    assert_eq!(_mi_divide_up(0, 3), 0);
    assert_eq!(_mi_divide_up(1, 3), 1);
    assert_eq!(_mi_divide_up(9, 3), 3);
    assert_eq!(_mi_divide_up(10, 3), 4);
    assert_eq!(_mi_wsize_from_size(0), 0);
    assert_eq!(_mi_wsize_from_size(1), 1);
    assert_eq!(_mi_wsize_from_size(8), 1);
    assert_eq!(_mi_wsize_from_size(9), 2);
}

#[test]
fn memory_zero_scan() {
    assert!(mi_mem_is_zero(&[]));
    assert!(mi_mem_is_zero(&[0, 0, 0]));
    assert!(!mi_mem_is_zero(&[0, 1, 0]));
    assert!(!mi_mem_is_zero(&[255]));
}

#[test]
fn os_configuration() {
    assert_eq!(_mi_os_page_size(), 4096);
    assert!(_mi_os_has_overcommit());
    assert_eq!(MI_INTPTR_SIZE, 8);
    assert_eq!(MI_ALIGNMENT, MI_ALIGN2W);
}

#[test]
fn delayed_flag_encoding() {
    assert_eq!(mi_delayed_e::new(0), mi_delayed_e::MI_USE_DELAYED_FREE);
    assert_eq!(mi_delayed_e::new(1), mi_delayed_e::MI_DELAYED_FREEING);
    assert_eq!(mi_delayed_e::new(2), mi_delayed_e::MI_NO_DELAYED_FREE);
    assert_eq!(mi_delayed_e::new(3), mi_delayed_e::MI_NEVER_DELAYED_FREE);
}

#[test]
fn fresh_statistics_are_zero() {
    let s = Stats::new();
    assert_eq!(s.normal_bins.len(), 74);
    assert_eq!(s.segments, StatCount::new());
    assert_eq!(s.malloc, StatCounter::new());
    assert_eq!(s.normal_bins[0], StatCounter::new());
    assert_eq!(s.normal_bins[73], StatCounter::new());
}

#[test]
fn thread_local_data_wiring() {
    let mut os = OsThreadLocalData::new();
    assert!(os.stats.is_none());
    os.set_stats(3);
    assert_eq!(os.stats, Some(3));

    let mut segments = SegmentsThreadLocalData::new();
    assert_eq!(segments.spans.len(), 36);
    assert_eq!(segments.count, 0);
    segments.set_stats(4);
    segments.set_os(5);
    assert_eq!(segments.stats, Some(4));
    assert_eq!(segments.os, Some(5));

    let mut tld = ThreadLocalData::new();
    assert_eq!(tld.heartbeat, 0);
    assert!(!tld.recurse);
    assert!(tld.heap_backing.is_none());
    assert!(tld.heaps.is_none());
    tld.init_main();
    assert_eq!(tld.segments.stats, Some(0));
    assert_eq!(tld.segments.os, Some(0));
    assert_eq!(tld.os.stats, Some(0));
}
