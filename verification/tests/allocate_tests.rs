use mimalloc_core::bin::mi_bin;
use mimalloc_core::heap::{heap_allocate, heap_free_local, Heap};
use mimalloc_core::page::mi_page_s;
use mimalloc_core::segment::{MI_SEGMENT_SLICE_SIZE, MI_SLICES_PER_SEGMENT};
use mimalloc_core::span_queue::Span;
use mimalloc_core::thread::SegmentsThreadLocalData;

/// Scenario: allocate 1000 objects of size 24 from one heap; bin(24)
/// equals bin(32) under the two-word alignment policy; freeing all 1000
/// and allocating 1000 more reuses the same page set — no new span (and
/// so no new segment) is requested.
#[test]
fn thousand_small_objects_reuse_their_page() {
    assert_eq!(mi_bin(24), mi_bin(32));

    let mut heap = Heap::new();
    let mut pages: Vec<mi_page_s> = Vec::new();
    let mut segments = SegmentsThreadLocalData::new();

    // One fresh segment's worth of free slices is registered.
    segments.span_free(Span { segment: 0, slice_index: 0, slice_count: MI_SLICES_PER_SEGMENT });
    assert_eq!(segments.total_free_slices(), MI_SLICES_PER_SEGMENT);

    // First round: 1000 objects of size 24.
    let mut blocks = Vec::new();
    for _ in 0..1000 {
        let (pid, b) = heap_allocate(&mut heap, &mut pages, &mut segments, 24)
            .expect("a fresh segment serves 1000 small objects");
        blocks.push((pid, b));
    }
    // They all came from one carved page: one slice left the registry.
    assert_eq!(pages.len(), 1);
    assert_eq!(segments.total_free_slices(), MI_SLICES_PER_SEGMENT - 1);
    let first_pid = blocks[0].0;
    assert!(blocks.iter().all(|&(pid, _)| pid == first_pid));
    // Size 24 is served from 32-byte blocks.
    assert_eq!(pages[first_pid].xblock_size, 32);
    assert_eq!(pages[first_pid].capacity as usize, MI_SEGMENT_SLICE_SIZE / 32);

    // Free all 1000.
    for (pid, b) in blocks.drain(..) {
        let mut page = pages.remove(pid);
        heap_free_local(&mut page, b);
        pages.insert(pid, page);
    }
    assert_eq!(pages[first_pid].used, 0);

    // Second round: 1000 more. The same page serves them; the span
    // registry is not consulted again.
    for _ in 0..1000 {
        let (pid, b) = heap_allocate(&mut heap, &mut pages, &mut segments, 24)
            .expect("the freed page serves the second round");
        blocks.push((pid, b));
    }
    assert_eq!(pages.len(), 1, "no new page was carved");
    assert!(blocks.iter().all(|&(pid, _)| pid == first_pid));
    assert_eq!(
        segments.total_free_slices(),
        MI_SLICES_PER_SEGMENT - 1,
        "no new span (segment memory) was requested"
    );
}

/// Carving splits a span and freeing coalesces it back: the registry
/// conserves its free slices exactly.
#[test]
fn span_registry_splits_and_coalesces() {
    let mut segments = SegmentsThreadLocalData::new();
    assert_eq!(segments.total_free_slices(), 0);

    segments.span_free(Span { segment: 3, slice_index: 0, slice_count: 1024 });
    assert_eq!(segments.total_free_slices(), 1024);

    let a = segments.span_allocate(10).expect("1024-run covers 10");
    assert_eq!(a.slice_count, 10);
    assert_eq!(segments.total_free_slices(), 1014);

    let b = segments.span_allocate(1000).expect("remainder covers 1000");
    assert_eq!(b.slice_count, 1000);
    assert_eq!(segments.total_free_slices(), 14);

    // Nothing long enough is left.
    assert!(segments.span_allocate(20).is_none());
    assert_eq!(segments.total_free_slices(), 14);

    // Returning the runs coalesces them back into one full-segment run:
    // freeing `b` (adjacent to the leftover tail) yields a merged run
    // strictly wider than `b` itself.
    segments.span_free(a);
    let merged = segments.span_free(b);
    assert_eq!(merged.slice_index, 0);
    assert_eq!(merged.slice_count, 1024);
    assert_eq!(segments.total_free_slices(), 1024);
    let whole = segments.span_allocate(1024).expect("coalesced back to one run");
    assert_eq!(whole.slice_count, 1024);
    assert_eq!(whole.slice_index, 0);
    assert_eq!(segments.total_free_slices(), 0);
}

/// Small sizes hit the direct lookup table: the carve fills the entry
/// for the request's word count and later requests take it without a
/// queue walk.
#[test]
fn small_sizes_use_the_direct_table() {
    let mut heap = Heap::new();
    let mut pages: Vec<mi_page_s> = Vec::new();
    let mut segments = SegmentsThreadLocalData::new();
    segments.span_free(Span { segment: 0, slice_index: 0, slice_count: 8 });

    assert!(heap.pages_free_direct.iter().all(|e| e.is_none()));
    let (pid, _) = heap_allocate(&mut heap, &mut pages, &mut segments, 24).unwrap();
    // Size 24 is three words: the carve filled that entry.
    assert_eq!(heap.pages_free_direct[3], Some(pid));
    let (pid2, _) = heap_allocate(&mut heap, &mut pages, &mut segments, 24).unwrap();
    assert_eq!(pid2, pid);
}

/// Allocation falls back from an exhausted page to a fresh one.
#[test]
fn exhausted_page_triggers_new_carve() {
    let mut heap = Heap::new();
    let mut pages: Vec<mi_page_s> = Vec::new();
    let mut segments = SegmentsThreadLocalData::new();
    segments.span_free(Span { segment: 0, slice_index: 0, slice_count: 4 });

    // 64KiB slice of 8KiB blocks: 8 blocks per page.
    let per_page = MI_SEGMENT_SLICE_SIZE / 8192;
    for _ in 0..per_page {
        heap_allocate(&mut heap, &mut pages, &mut segments, 8192).expect("first page");
    }
    assert_eq!(pages.len(), 1);
    heap_allocate(&mut heap, &mut pages, &mut segments, 8192).expect("second page");
    assert_eq!(pages.len(), 2);

    // The registry runs dry eventually: four slices serve four pages.
    let mut served = 0usize;
    while heap_allocate(&mut heap, &mut pages, &mut segments, 8192).is_some() {
        served += 1;
    }
    assert_eq!(segments.total_free_slices(), 0);
    assert_eq!(pages.len(), 4);
    assert_eq!(served, 4 * per_page - per_page - 1);
}
