use mimalloc_core::heap::{heap_free, mi_free_block_mt, Heap};
use mimalloc_core::thread::{thread_deinit, thread_init};
use mimalloc_core::page::mi_page_s;
use mimalloc_core::segment::{mi_commit_mask_s, mi_segment_kind_e, mi_segment_s};
use mimalloc_core::thread::mi_delayed_e;

/// Scenario: thread T1 allocates a block from page P; thread T2 frees
/// it. P's delayed-free flag transitions from its default through the
/// transient registering state to registered exactly once, across any
/// number of subsequent foreign frees of other blocks on P, and P
/// appears on T1's thread-delayed-free list exactly once.
#[test]
fn foreign_free_registers_page_exactly_once() {
    let mut heap = Heap::new();
    let mut page = mi_page_s::new();
    let page_id = 17usize;
    page.init(32, 16);
    mi_page_s::set_heap(&mut page, Some(0));

    // T1 allocates three blocks.
    let b0 = page.alloc_block().unwrap();
    let b1 = page.alloc_block().unwrap();
    let b2 = page.alloc_block().unwrap();

    assert_eq!(
        mi_page_s::thread_free_flag(&page),
        mi_delayed_e::MI_USE_DELAYED_FREE
    );
    assert_eq!(heap.thread_delayed_free.len(), 0);

    // T2 frees the first block: this one wins the registration.
    let registered = mi_free_block_mt(&mut heap, &mut page, page_id, b0);
    assert!(registered);
    assert_eq!(
        mi_page_s::thread_free_flag(&page),
        mi_delayed_e::MI_NO_DELAYED_FREE
    );
    assert_eq!(heap.thread_delayed_free, vec![page_id]);

    // Further foreign frees of other blocks never register again.
    assert!(!mi_free_block_mt(&mut heap, &mut page, page_id, b1));
    assert!(!mi_free_block_mt(&mut heap, &mut page, page_id, b2));
    assert_eq!(
        mi_page_s::thread_free_flag(&page),
        mi_delayed_e::MI_NO_DELAYED_FREE
    );
    assert_eq!(heap.thread_delayed_free, vec![page_id]);
    assert_eq!(page.xthread_free.list.len(), 3);

    // `used` still counts the cross-thread frees until the owner
    // collects; then the blocks are available again.
    assert_eq!(page.used, 3);
    page.collect_free();
    assert_eq!(page.used, 0);
    assert_eq!(page.free.len(), 16);
}

/// The free dispatch: the owning thread takes the local path, foreign
/// threads the cross-thread path.
#[test]
fn free_dispatches_on_thread_identity() {
    let mut heap = Heap::new();
    heap.thread_id = 7;
    let mut page = mi_page_s::new();
    page.init(16, 4);
    let a = page.alloc_block().unwrap();
    let b = page.alloc_block().unwrap();

    // The owner frees: local_free grows, no registration.
    assert!(!heap_free(&mut heap, &mut page, 0, a, 7));
    assert_eq!(page.local_free.len(), 1);
    assert_eq!(page.xthread_free.list.len(), 0);
    assert_eq!(heap.thread_delayed_free.len(), 0);

    // A foreign thread frees: thread_free grows and the page registers.
    assert!(heap_free(&mut heap, &mut page, 0, b, 8));
    assert_eq!(page.local_free.len(), 1);
    assert_eq!(page.xthread_free.list.len(), 1);
    assert_eq!(heap.thread_delayed_free.len(), 1);
}

/// Thread lifecycle: a fresh context is wired to itself; at exit every
/// owned page is abandoned with its state intact.
#[test]
fn thread_lifecycle_abandons_pages() {
    let tld = thread_init();
    assert_eq!(tld.segments.stats, Some(0));
    assert_eq!(tld.os.stats, Some(0));

    let mut pages: Vec<mi_page_s> = Vec::new();
    let mut p1 = mi_page_s::new();
    p1.init(32, 8);
    mi_page_s::set_heap(&mut p1, Some(0));
    let _ = p1.alloc_block().unwrap();
    let used_before = p1.used;
    pages.push(p1);
    let mut p2 = mi_page_s::new();
    p2.init(64, 4);
    mi_page_s::set_heap(&mut p2, Some(0));
    pages.push(p2);

    let stats = thread_deinit(tld, &mut pages);
    assert_eq!(stats.threads, mimalloc_core::stats::StatCounter::new());
    assert!(pages.iter().all(|p| mi_page_s::heap(p).is_none()));
    assert_eq!(pages[0].used, used_before);
    assert_eq!(pages[1].free.len(), 4);
}

/// The sticky never-delayed state: foreign frees never register such a
/// page, and only reclaim by the owner resets the flag.
#[test]
fn never_delayed_free_is_sticky() {
    let mut heap = Heap::new();
    let mut page = mi_page_s::new();
    page.init(32, 4);
    mi_page_s::set_heap(&mut page, Some(1));
    let a = page.alloc_block().unwrap();
    let b = page.alloc_block().unwrap();

    page.xthread_free.store_flag(mi_delayed_e::MI_NEVER_DELAYED_FREE);
    assert!(!mi_free_block_mt(&mut heap, &mut page, 0, a));
    assert!(!mi_free_block_mt(&mut heap, &mut page, 0, b));
    assert_eq!(
        mi_page_s::thread_free_flag(&page),
        mi_delayed_e::MI_NEVER_DELAYED_FREE
    );
    assert_eq!(heap.thread_delayed_free.len(), 0);
    assert_eq!(page.xthread_free.list.len(), 2);

    page.abandon();
    page.reclaim(2);
    assert_eq!(
        mi_page_s::thread_free_flag(&page),
        mi_delayed_e::MI_USE_DELAYED_FREE
    );
}

fn make_segment() -> mi_segment_s {
    mi_segment_s {
        memid: 0,
        mem_is_pinned: false,
        mem_is_large: false,
        mem_is_committed: true,
        allow_decommit: false,
        decommit_expire: 0,
        decommit_mask: mi_commit_mask_s::new(),
        commit_mask: mi_commit_mask_s::new(),
        abandoned_next: None,
        next: None,
        abandoned: 0,
        abandoned_visits: 0,
        used: 1,
        cookie: 0,
        segment_slices: 1024,
        segment_info_slices: 1,
        kind: mi_segment_kind_e::MI_SEGMENT_NORMAL,
        thread_id: Some(1),
        slice_entries: 1024,
        slices: Vec::new(),
        base: 0,
    }
}

/// Scenario: a thread terminates while still owning a page with live
/// cross-thread-freed blocks; the page becomes abandoned; a second
/// thread later reclaiming it observes a `used`/free-list state equal
/// to what it would have been had the original thread continued.
#[test]
fn abandoned_page_reclaims_consistently() {
    let mut heap1 = Heap::new();
    let mut heap2 = Heap::new();

    // Two identical pages: one will be abandoned and reclaimed, the
    // other stays with its owner as the baseline.
    let mut page = mi_page_s::new();
    page.init(64, 8);
    mi_page_s::set_heap(&mut page, Some(1));
    let mut baseline = mi_page_s::new();
    baseline.init(64, 8);
    mi_page_s::set_heap(&mut baseline, Some(1));

    let a0 = page.alloc_block().unwrap();
    let a1 = page.alloc_block().unwrap();
    let b0 = baseline.alloc_block().unwrap();
    let b1 = baseline.alloc_block().unwrap();

    // Another thread frees one block on each page.
    mi_free_block_mt(&mut heap1, &mut page, 0, a0);
    mi_free_block_mt(&mut heap1, &mut baseline, 1, b0);

    // The owner of `page` terminates: the page is abandoned, its
    // segment records it, and the segment becomes reclaimable.
    let mut segment = make_segment();
    page.abandon();
    segment.mark_page_abandoned();
    segment.thread_id = None;
    assert!(page.xheap.is_none());
    assert!(segment.is_all_abandoned());

    // A second thread reclaims the page.
    page.reclaim(2);
    segment.mark_page_reclaimed();
    segment.thread_id = Some(2);
    assert_eq!(mi_page_s::heap(&page), Some(2));
    assert_eq!(segment.abandoned, 0);

    // The reclaimed page's state matches the baseline that was never
    // abandoned, except for the delayed-free flag which reclaim resets.
    assert_eq!(page.used, baseline.used);
    assert_eq!(page.free.len(), baseline.free.len());
    assert_eq!(page.local_free.len(), baseline.local_free.len());
    assert_eq!(page.xthread_free.list.len(), baseline.xthread_free.list.len());
    assert_eq!(
        mi_page_s::thread_free_flag(&page),
        mi_delayed_e::MI_USE_DELAYED_FREE
    );

    // Allocation continues identically on both pages.
    page.collect_free();
    baseline.collect_free();
    assert_eq!(page.used, baseline.used);
    let r = page.alloc_block().unwrap();
    let s = baseline.alloc_block().unwrap();
    assert_eq!(r, s);
    assert_eq!(page.used, baseline.used);
    let _ = (a1, b1, heap2);
}
