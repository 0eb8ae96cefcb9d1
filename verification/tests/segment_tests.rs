use mimalloc_core::page::mi_page_s;
use mimalloc_core::segment::{
    mi_commit_mask_s, mi_segment_kind_e, mi_segment_s, MI_SEGMENT_SIZE, MI_SEGMENT_SLICE_SIZE,
    MI_SLICES_PER_SEGMENT,
};

fn make_segment(base: usize, segment_slices: usize) -> mi_segment_s {
    mi_segment_s {
        memid: 0,
        mem_is_pinned: false,
        mem_is_large: false,
        mem_is_committed: false,
        allow_decommit: true,
        decommit_expire: 0,
        decommit_mask: mi_commit_mask_s::new(),
        commit_mask: mi_commit_mask_s::new(),
        abandoned_next: None,
        next: None,
        abandoned: 0,
        abandoned_visits: 0,
        used: 0,
        cookie: 0,
        segment_slices,
        segment_info_slices: 1,
        kind: mi_segment_kind_e::MI_SEGMENT_NORMAL,
        thread_id: Some(1),
        slice_entries: segment_slices,
        slices: Vec::new(),
        base,
    }
}

#[test]
fn test_segment_size() {
    let segment = make_segment(0, MI_SLICES_PER_SEGMENT);
    assert_eq!(
        mi_segment_s::mi_segment_size(&segment),
        MI_SLICES_PER_SEGMENT * MI_SEGMENT_SLICE_SIZE
    );
    assert_eq!(mi_segment_s::mi_segment_size(&segment), MI_SEGMENT_SIZE);
    let half = make_segment(0, 512);
    assert_eq!(mi_segment_s::mi_segment_size(&half), 512 * MI_SEGMENT_SLICE_SIZE);
}

#[test]
fn test_segment_end() {
    let segment = make_segment(1 << 30, MI_SLICES_PER_SEGMENT);
    assert_eq!(
        mi_segment_s::mi_segment_end(&segment),
        (1 << 30) + MI_SEGMENT_SIZE
    );
    let small = make_segment(4096, 2);
    assert_eq!(
        mi_segment_s::mi_segment_end(&small),
        4096 + 2 * MI_SEGMENT_SLICE_SIZE
    );
}

#[test]
fn commit_mask_tracks_bits() {
    let mut mask = mi_commit_mask_s::new();
    assert!(!mask.is_bit_set(0));
    assert!(!mask.is_bit_set(1023));
    mask.set_bit(5);
    mask.set_bit(64);
    mask.set_bit(1023);
    assert!(mask.is_bit_set(5));
    assert!(mask.is_bit_set(64));
    assert!(mask.is_bit_set(1023));
    assert!(!mask.is_bit_set(6));
    assert!(!mask.is_bit_set(63));
    mask.clear_bit(64);
    assert!(!mask.is_bit_set(64));
    assert!(mask.is_bit_set(5));
    assert!(mask.is_bit_set(1023));
}

#[test]
fn segment_abandon_counters() {
    let mut segment = make_segment(0, MI_SLICES_PER_SEGMENT);
    segment.used = 2;
    assert!(!segment.is_all_abandoned());
    segment.mark_page_abandoned();
    assert_eq!(segment.abandoned, 1);
    assert!(!segment.is_all_abandoned());
    segment.mark_page_abandoned();
    assert!(segment.is_all_abandoned());
    segment.mark_page_reclaimed();
    assert_eq!(segment.abandoned, 1);
    let _ = mi_page_s::new();
}
