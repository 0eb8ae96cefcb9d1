use mimalloc_core::block::{mi_block_s, FreeList};
use mimalloc_core::page::{embedded_flag, mi_page_flags_s, mi_page_s, TaggedSlot};
use mimalloc_core::thread::mi_delayed_e;

/// The accounting equation of the page invariant, checked on the
/// executable state: with no outstanding cross-thread frees,
/// `used + |free| + |local_free| == capacity`.
fn accounting_holds(p: &mi_page_s) -> bool {
    p.used as usize + p.free.len() + p.local_free.len() + p.xthread_free.list.len()
        == p.capacity as usize + p.xthread_free.list.len()
}

#[test]
fn new_page_is_empty() {
    let p = mi_page_s::new();
    assert_eq!(p.capacity, 0);
    assert_eq!(p.used, 0);
    assert_eq!(p.retire_expire, 7);
    assert!(mi_page_s::mi_page_all_free(&p));
    assert!(mi_page_s::heap(&p).is_none());
    assert_eq!(
        mi_page_s::thread_free_flag(&p),
        mi_delayed_e::MI_USE_DELAYED_FREE
    );
    let _ = mi_block_s::new();
}

#[test]
fn page_flags_roundtrip() {
    let mut p = mi_page_s::new();
    mi_page_s::set_in_full(&mut p, false);
    mi_page_s::set_has_aligned(&mut p, false);
    assert!(!mi_page_s::is_in_full(&p));
    assert!(!mi_page_s::has_aligned(&p));
    assert_eq!(p.flags.full_aligned(), 0);
    mi_page_s::set_in_full(&mut p, true);
    assert!(mi_page_s::is_in_full(&p));
    assert_ne!(p.flags.full_aligned(), 0);
    let f = mi_page_flags_s::new();
    assert!(f.x.in_full && f.x.has_aligned);
    let e = embedded_flag::new();
    assert!(e.in_full && e.has_aligned);
}

#[test]
fn accounting_invariant_over_alloc_free_sequence() {
    // For a sequence of allocate/free operations from one thread, the
    // equation `used - |thread_free| + |free| + |local_free| == capacity`
    // holds after each operation (thread_free stays empty throughout).
    let mut p = mi_page_s::new();
    p.init(32, 100);
    assert!(accounting_holds(&p));
    let mut blocks = Vec::new();
    for _ in 0..60 {
        let b = p.alloc_block().expect("page has free blocks");
        assert!(accounting_holds(&p));
        blocks.push(b);
    }
    assert_eq!(p.used, 60);
    for b in blocks.drain(0..30) {
        p.free_block_local(b);
        assert!(accounting_holds(&p));
    }
    assert_eq!(p.used, 30);
    p.collect_free();
    assert!(accounting_holds(&p));
    for _ in 0..70 {
        let b = p.alloc_block().expect("page has free blocks");
        assert!(accounting_holds(&p));
        blocks.push(b);
    }
    assert_eq!(p.used, 100);
    // The page is exhausted now.
    assert!(p.alloc_block().is_none());
    for b in blocks {
        p.free_block_local(b);
        assert!(accounting_holds(&p));
    }
    p.collect_free();
    assert!(mi_page_s::mi_page_all_free(&p));
    assert_eq!(p.free.len(), 100);
}

#[test]
fn alloc_migrates_local_free_list() {
    let mut p = mi_page_s::new();
    p.init(16, 2);
    let a = p.alloc_block().unwrap();
    let b = p.alloc_block().unwrap();
    assert!(p.alloc_block().is_none());
    p.free_block_local(a);
    // The freed block sits in local_free, not in free; allocation
    // migrates it over.
    assert_eq!(p.free.len(), 0);
    assert_eq!(p.local_free.len(), 1);
    let c = p.alloc_block().unwrap();
    assert_eq!(c, a);
    assert_eq!(p.local_free.len(), 0);
    p.free_block_local(b);
    p.free_block_local(c);
}

#[test]
fn no_block_double_counted() {
    // A block index never occurs twice across the free lists.
    let mut p = mi_page_s::new();
    p.init(8, 40);
    let mut blocks = Vec::new();
    for _ in 0..40 {
        blocks.push(p.alloc_block().unwrap());
    }
    // Every handed-out index is distinct.
    let mut seen = vec![false; 40];
    for &b in &blocks {
        assert!(!seen[b], "block {} handed out twice", b);
        seen[b] = true;
    }
    for &b in blocks.iter().take(20) {
        p.free_block_local(b);
    }
    p.collect_free();
    // The free list holds each freed index exactly once.
    let mut seen = vec![0usize; 40];
    for i in 0..p.free.len() {
        seen[p.free.get(i)] += 1;
    }
    for (b, count) in seen.iter().enumerate() {
        assert!(*count <= 1, "block {} counted {} times as free", b, count);
    }
}

#[test]
fn tagged_slot_models_one_atomic_word() {
    let mut slot = TaggedSlot::new();
    assert_eq!(slot.load_flag(), mi_delayed_e::MI_USE_DELAYED_FREE);
    assert!(slot.try_begin_delayed_registration());
    assert_eq!(slot.load_flag(), mi_delayed_e::MI_DELAYED_FREEING);
    // A concurrent freer loses the race while registration is running.
    assert!(!slot.try_begin_delayed_registration());
    slot.end_delayed_registration();
    assert_eq!(slot.load_flag(), mi_delayed_e::MI_NO_DELAYED_FREE);
    slot.push_keeping_flag(3);
    slot.push_keeping_flag(7);
    assert_eq!(slot.load_flag(), mi_delayed_e::MI_NO_DELAYED_FREE);
    assert_eq!(slot.list.len(), 2);
    let mut target = FreeList::new();
    slot.collect_into(&mut target);
    assert_eq!(slot.list.len(), 0);
    assert_eq!(target.len(), 2);
    assert_eq!(slot.load_flag(), mi_delayed_e::MI_NO_DELAYED_FREE);
}
