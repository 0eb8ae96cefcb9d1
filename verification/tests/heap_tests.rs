use mimalloc_core::bin::{mi_bin, MI_BIN_FULL, MI_BIN_HUGE};
use mimalloc_core::heap::{mi_random_cxt_s, Heap, MI_PAGES_DIRECT};
use mimalloc_core::page::mi_page_s;
use mimalloc_core::page_queue::{
    mi_page_queue_contains, mi_page_queue_is_full, mi_page_queue_is_huge,
    mi_page_queue_is_special, mi_page_queue_of, mi_page_queue_s,
};

#[test]
fn new_heap_has_one_queue_per_bin() {
    let heap = Heap::new();
    assert_eq!(heap.pages.len(), MI_BIN_FULL + 1);
    assert_eq!(heap.pages_free_direct.len(), MI_PAGES_DIRECT);
    assert_eq!(heap.thread_delayed_free.len(), 0);
    for (b, q) in heap.pages.iter().enumerate() {
        assert_eq!(q.block_size, Heap::bin_size(b as u8));
        assert!(q.pages.is_empty());
    }
    // The huge and full pseudo-queues are recognized by their sizes.
    assert!(mi_page_queue_is_huge(&heap.pages[MI_BIN_HUGE]));
    assert!(mi_page_queue_is_full(&heap.pages[MI_BIN_FULL]));
    assert!(mi_page_queue_is_special(&heap.pages[MI_BIN_HUGE]));
    assert!(!mi_page_queue_is_special(&heap.pages[52]));
    assert!(Heap::mi_heap_contains_queue(&heap, MI_BIN_FULL));
    assert!(!Heap::mi_heap_contains_queue(&heap, MI_BIN_FULL + 1));
    let q = Heap::get_page_queue(&heap, 9);
    assert_eq!(q.block_size, 80);
    let r = mi_random_cxt_s::new();
    assert_eq!(r.output_available, 0);
}

#[test]
fn heap_bin_helpers_agree_with_bin_module() {
    for s in (0..200000usize).step_by(97) {
        assert_eq!(Heap::mi_bin(s), mi_bin(s));
        assert_eq!(
            Heap::mi_good_size(s),
            mimalloc_core::bin::mi_good_size(s)
        );
    }
}

#[test]
fn page_queue_membership() {
    let mut q = mi_page_queue_s::new(32);
    assert!(!mi_page_queue_contains(&q, 5));
    q.push_front(5);
    q.push_front(9);
    assert!(mi_page_queue_contains(&q, 5));
    assert!(mi_page_queue_contains(&q, 9));
    assert!(!mi_page_queue_contains(&q, 7));
    assert!(q.remove_page(5));
    assert!(!mi_page_queue_contains(&q, 5));
    assert!(!q.remove_page(5));
    assert!(mi_page_queue_contains(&q, 9));
}

#[test]
fn page_queue_of_owned_page() {
    let mut page = mi_page_s::new();
    page.init(32, 4);
    mi_page_s::set_heap(&mut page, Some(0));
    // A page serving 32-byte blocks belongs to bin(32).
    assert_eq!(mi_page_queue_of(&page), mi_bin(32) as usize);
    // Once marked full it belongs to the full queue.
    mi_page_s::set_in_full(&mut page, true);
    assert_eq!(mi_page_queue_of(&page), MI_BIN_FULL);
}
