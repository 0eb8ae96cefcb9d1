//! Heaps: a thread's allocation front end. A heap owns one page queue
//! per size class plus a direct lookup table for small sizes, and can
//! only allocate from the thread that created it; freeing blocks can be
//! done from any thread through the delayed-free protocol.
use vstd::prelude::*;

verus! {

use crate::bin::{MI_BIN_FULL, MI_BIN_HUGE, _mi_bin_size, spec_bin, spec_bin_size,
    spec_good_size, spec_wsize};
use crate::page::{mi_page_s, delayed_after_foreign_free, foreign_free_registers};
use crate::internal::_mi_wsize_from_size;
use crate::page_queue::{mi_page_queue_s, mi_page_queue_t};
use crate::thread::{mi_delayed_e, mi_threadid_t, SegmentsThreadLocalData};

/// In a checked build a padding structure sits at the end of each block
/// to detect buffer overflows.
#[derive(Debug, Copy, Clone, PartialEq, Eq, Structural)]
pub struct mi_padding_s {
    /// Encoded block value to check validity of the padding (in case of
    /// overflow).
    pub canary: u32,
    /// Padding bytes before the block (usable size minus `delta` is the
    /// exact allocated byte count).
    pub delta: u32,
}

pub type mi_padding_t = mi_padding_s;

/// Size of the padding structure in bytes and in machine words.
pub const MI_PADDING_SIZE: usize = 8;

pub const MI_PADDING_WSIZE: usize = 1;

pub const MI_SMALL_WSIZE_MAX: usize = 128;

pub const MI_SMALL_SIZE_MAX: usize = MI_SMALL_WSIZE_MAX * 8;

/// Entries of the direct small-size lookup table.
pub const MI_PAGES_DIRECT: usize = MI_SMALL_WSIZE_MAX + MI_PADDING_WSIZE + 1;

/// Random context used for allocation-address diversification.
#[derive(Debug, Clone, Copy, PartialEq, Eq)]
pub struct mi_random_cxt_s {
    pub input: [u32; 16],
    pub output: [u32; 16],
    pub output_available: i32,
}

impl mi_random_cxt_s {
    pub fn new() -> (r: Self)
        ensures
            r.output_available == 0,
            forall|i: int| 0 <= i < 16 ==> r.input@[i] == 0,
            forall|i: int| 0 <= i < 16 ==> r.output@[i] == 0,
    {
        Self { input: [0; 16], output: [0; 16], output_available: 0 }
    }
}

pub type mi_random_ctx_t = mi_random_cxt_s;

/// A heap owns a set of pages, one queue per size class plus the full
/// queue, and a list of pages that foreign frees registered for the
/// owner's attention.
pub struct Heap {
    /// The thread-local context this heap belongs to.
    pub tld: Option<usize>,
    /// Optimize: for each small word count, a page with possibly free
    /// blocks in the corresponding queue.
    pub pages_free_direct: Vec<Option<usize>>,
    /// Queue of pages for each size class (or "bin").
    pub pages: Vec<mi_page_queue_s>,
    /// Pages registered by the one-time delayed-free transition, waiting
    /// for the owner's attention.
    pub thread_delayed_free: Vec<usize>,
    /// Thread this heap belongs to.
    pub thread_id: mi_threadid_t,
    /// Random cookie to verify pointers.
    pub cookie: usize,
    /// Two random keys used to encode the `thread_delayed_free` list.
    pub keys: [usize; 2],
    /// Random number context used for secure allocation.
    pub random: mi_random_ctx_t,
    /// Total number of pages in the `pages` queues.
    pub page_count: usize,
    /// Smallest retired index (retired pages are fully free, but still
    /// in the page queues).
    pub page_retired_min: usize,
    /// Largest retired index into the `pages` array.
    pub page_retired_max: usize,
    /// Next heap in this thread's list of heaps.
    pub next: Option<usize>,
    /// True if this heap should not reclaim abandoned pages.
    pub no_reclaim: bool,
}

impl Heap {
    /// The queue table has one queue per bin, each carrying its bin's
    /// representative block size, and the direct table has one entry per
    /// small word count.
    pub open spec fn wf(&self) -> bool {
        &&& self.pages@.len() == MI_BIN_FULL + 1
        &&& forall|b: int|
            0 <= b < self.pages@.len() ==> #[trigger] self.pages@[b].block_size as int
                == spec_bin_size(b)
        &&& self.pages_free_direct@.len() == MI_PAGES_DIRECT
    }

    pub fn new() -> (r: Self)
        ensures
            r.wf(),
            forall|b: int| 0 <= b < r.pages@.len() ==> (#[trigger] r.pages@[b]).pages@.len() == 0,
            forall|i: int| 0 <= i < r.pages_free_direct@.len() ==> r.pages_free_direct@[i] is None,
            r.thread_delayed_free@.len() == 0,
            r.tld is None,
            r.thread_id == 0,
            r.cookie == 0,
            r.keys[0] == 0,
            r.keys[1] == 0,
            r.random.output_available == 0,
            forall|i: int| 0 <= i < 16 ==> r.random.input@[i] == 0 && r.random.output@[i] == 0,
            r.page_count == 0,
            r.page_retired_min == 0,
            r.page_retired_max == 0,
            r.next is None,
            !r.no_reclaim,
    {
        let mut pages: Vec<mi_page_queue_s> = Vec::new();
        let mut b: usize = 0;
        while b < MI_BIN_FULL + 1
            invariant
                b == pages@.len(),
                b <= MI_BIN_FULL + 1,
                forall|i: int|
                    0 <= i < b ==> (#[trigger] pages@[i]).block_size as int == spec_bin_size(i)
                        && pages@[i].pages@.len() == 0,
            decreases MI_BIN_FULL + 1 - b,
        {
            let bs = _mi_bin_size(b as u8);
            pages.push(mi_page_queue_s::new(bs));
            b += 1;
        }
        let mut pages_free_direct: Vec<Option<usize>> = Vec::new();
        let mut i: usize = 0;
        while i < MI_PAGES_DIRECT
            invariant
                i == pages_free_direct@.len(),
                i <= MI_PAGES_DIRECT,
                forall|j: int| 0 <= j < i ==> pages_free_direct@[j] is None,
            decreases MI_PAGES_DIRECT - i,
        {
            pages_free_direct.push(None);
            i += 1;
        }
        Self {
            tld: None,
            pages_free_direct,
            pages,
            thread_delayed_free: Vec::new(),
            thread_id: 0,
            cookie: 0,
            keys: [0, 0],
            random: mi_random_cxt_s::new(),
            page_count: 0,
            page_retired_min: 0,
            page_retired_max: 0,
            next: None,
            no_reclaim: false,
        }
    }

    /// Is the queue index one of this heap's queues?
    pub fn mi_heap_contains_queue(heap: &Heap, pq: usize) -> (r: bool)
        ensures
            r == (pq <= MI_BIN_FULL),
    {
        pq <= MI_BIN_FULL
    }

    /// The representative block size of a bin, as carried by the empty
    /// heap's queue table.
    pub fn bin_size(bin: u8) -> (r: usize)
        requires
            bin as int <= MI_BIN_FULL as int,
        ensures
            r == spec_bin_size(bin as int),
    {
        _mi_bin_size(bin)
    }

    /// The queue serving a bin.
    pub fn get_page_queue(heap: &Heap, bin: u8) -> (r: &mi_page_queue_t)
        requires
            heap.wf(),
            bin as int <= MI_BIN_FULL as int,
        ensures
            r == heap.pages@[bin as int],
            r.block_size as int == spec_bin_size(bin as int),
    {
        &heap.pages[bin as usize]
    }

    /// Return the bin for a given field size.
    #[inline(always)]
    pub fn mi_bin(size: usize) -> (bin: u8)
        requires
            size <= usize::MAX - 8,
        ensures
            bin == spec_bin(size as int),
            1 <= bin <= MI_BIN_HUGE,
    {
        crate::bin::mi_bin(size)
    }

    /// Good size for allocation.
    pub fn mi_good_size(size: usize) -> (r: usize)
        requires
            size + 4095 <= usize::MAX,
        ensures
            r == spec_good_size(size as int),
    {
        crate::bin::mi_good_size(size)
    }

    /// The one-time link of a page onto this heap's thread-delayed-free
    /// list, performed by the foreign free that wins the delayed-free
    /// registration race.
    pub fn register_delayed_page(&mut self, page_id: usize)
        ensures
            final(self).thread_delayed_free@ == old(self).thread_delayed_free@.push(page_id),
            final(self).pages == old(self).pages,
            final(self).pages_free_direct == old(self).pages_free_direct,
            final(self).tld == old(self).tld,
            final(self).thread_id == old(self).thread_id,
            final(self).cookie == old(self).cookie,
            final(self).keys == old(self).keys,
            final(self).random == old(self).random,
            final(self).page_count == old(self).page_count,
            final(self).page_retired_min == old(self).page_retired_min,
            final(self).page_retired_max == old(self).page_retired_max,
            final(self).next == old(self).next,
            final(self).no_reclaim == old(self).no_reclaim,
    {
        self.thread_delayed_free.push(page_id);
    }
}

impl Default for Heap {
    fn default() -> (r: Self)
        ensures
            r.wf(),
            r.thread_delayed_free@.len() == 0,
            r.page_count == 0,
    {
        Self::new()
    }
}

impl Default for mi_random_cxt_s {
    fn default() -> (r: Self)
        ensures
            r.output_available == 0,
    {
        Self::new()
    }
}

/// The heap's queues agree with the page arena: every page id linked
/// into a queue names a well-formed page of the arena whose block size
/// is the queue's, every entry of the direct small-size table names a
/// page serving its word count's bin, and every arena page is
/// well-formed.
pub open spec fn heap_arena_wf(heap: &Heap, pages: Seq<mi_page_s>) -> bool {
    &&& heap.wf()
    &&& forall|p: int| 0 <= p < pages.len() ==> (#[trigger] pages[p]).wf()
    &&& forall|b: int, i: int|
        #![trigger heap.pages@[b].pages@[i]]
        0 <= b < heap.pages@.len() && 0 <= i < heap.pages@[b].pages@.len() ==> (
        heap.pages@[b].pages@[i] as int) < pages.len() && pages[heap.pages@[b].pages@[i] as int].xblock_size
            as int == spec_bin_size(b)
    &&& forall|w: int|
        0 <= w < heap.pages_free_direct@.len() ==> (#[trigger] heap.pages_free_direct@[w] matches
        Some(pid) ==> (pid as int) < pages.len() && pages[pid as int].xblock_size as int
            == spec_bin_size(crate::bin::spec_bin_of_wsize(w)))
}

/// Every page linked into the heap's queue for `bin` has nothing left
/// to serve: its three free-block lists are all empty.
pub open spec fn spec_bin_queue_exhausted(heap: &Heap, pages: Seq<mi_page_s>, bin: int) -> bool {
    forall|i: int|
        #![trigger heap.pages@[bin].pages@[i]]
        0 <= i < heap.pages@[bin].pages@.len() ==> pages[heap.pages@[bin].pages@[i] as int].free@.len()
            == 0 && pages[heap.pages@[bin].pages@[i] as int].local_free@.len() == 0
            && pages[heap.pages@[bin].pages@[i] as int].xthread_free.list@.len() == 0
}

/// The slice run a page serving `bin` occupies: the bin's block size
/// rounded up to whole slices.
pub open spec fn spec_bin_page_slices(bin: int) -> int {
    (spec_bin_size(bin) + crate::segment::MI_SEGMENT_SLICE_SIZE - 1) / (
    crate::segment::MI_SEGMENT_SLICE_SIZE as int)
}

/// Allocate one block from the page with the given arena id, leaving
/// every other page in place.
fn arena_alloc_block(pages: &mut Vec<mi_page_s>, pid: usize) -> (r: Option<usize>)
    requires
        pid < old(pages)@.len(),
        forall|p: int| 0 <= p < old(pages)@.len() ==> (#[trigger] old(pages)@[p]).wf(),
    ensures
        final(pages)@.len() == old(pages)@.len(),
        forall|p: int| 0 <= p < final(pages)@.len() ==> (#[trigger] final(pages)@[p]).wf(),
        forall|p: int|
            0 <= p < final(pages)@.len() && p != pid ==> final(pages)@[p] == old(pages)@[p],
        final(pages)@[pid as int].xblock_size == old(pages)@[pid as int].xblock_size,
        final(pages)@[pid as int].capacity == old(pages)@[pid as int].capacity,
        final(pages)@[pid as int].xheap == old(pages)@[pid as int].xheap,
        r matches Some(b) ==> b < old(pages)@[pid as int].capacity && !old(pages)@[pid as int].live@.contains(b) && final(pages)@[pid as int].live@ == old(pages)@[pid as int].live@.insert(b) && final(pages)@[pid as int].used - final(pages)@[pid as int].xthread_free.list@.len() == old(pages)@[pid as int].used - old(pages)@[pid as int].xthread_free.list@.len() + 1,
        r is None <==> old(pages)@[pid as int].free@.len() + old(pages)@[pid as int].local_free@.len() + old(pages)@[pid as int].xthread_free.list@.len() == 0,
        r is None ==> final(pages)@[pid as int].used == old(pages)@[pid as int].used,
{
    let mut pg = pages.remove(pid);
    let r = pg.alloc_block();
    pages.insert(pid, pg);
    proof {
        assert(pages@ =~= old(pages)@.update(pid as int, pages@[pid as int]));
        assert forall|p: int| 0 <= p < pages@.len() implies (#[trigger] pages@[p]).wf() by {
            if p != pid {
                assert(pages@[p] == old(pages)@[p]);
                assert(old(pages)@[p].wf());
            }
        }
    }
    r
}

/// `allocate(heap, size)`: consult the direct lookup table for small
/// sizes, else size-class the request and take a block from the first
/// page in the bin's queue that has one immediately available; when no
/// queued page has room, ask the thread's span registry for a free
/// slice run and carve a new page from it. (Sizes above the
/// medium-object maximum take the dedicated huge path straight to the
/// raw provider and never reach the size-classed queues.)
///
/// Success is owed unless the heap is exhausted: `None` is returned
/// only when every page queued under the request's bin has all three
/// free-block lists empty and no registered free run is long enough
/// for a new page, so that only the raw provider can help. On success
/// the block comes from a page of the request's size class, whose
/// block size covers the request, and it is newly taken: the chosen
/// page's live set grows by exactly the returned block (so its live
/// count, `used` net of pending cross-thread frees, grows by one), and
/// every other page is untouched.
#[verifier::rlimit(60)]
#[verifier::spinoff_prover]
pub fn heap_allocate(
    heap: &mut Heap,
    pages: &mut Vec<mi_page_s>,
    segments: &mut SegmentsThreadLocalData,
    size: usize,
) -> (r: Option<(usize, usize)>)
    requires
        heap_arena_wf(old(heap), old(pages)@),
        old(segments).spans_wf(),
        size <= crate::page::MI_MEDIUM_OBJ_SIZE_MAX,
        old(heap).page_count < usize::MAX,
        old(pages)@.len() < usize::MAX,
    ensures
        heap_arena_wf(final(heap), final(pages)@),
        final(segments).spans_wf(),
        r matches Some(p) ==> (p.0 as int) < final(pages)@.len() && final(pages)@[p.0 as int].xblock_size as int == spec_bin_size(spec_bin(size as int)) && final(pages)@[p.0 as int].xblock_size >= size && (p.1 as int) < final(pages)@[p.0 as int].capacity
            && final(pages)@[p.0 as int].live@.contains(p.1),
        r matches Some(p) ==> forall|q: int|
            0 <= q < old(pages)@.len() && q != p.0 as int ==> final(pages)@[q] == old(pages)@[q],
        r matches Some(p) ==> ((p.0 as int) < old(pages)@.len() ==> final(pages)@.len() == old(pages)@.len() && !old(pages)@[p.0 as int].live@.contains(p.1) && final(pages)@[p.0 as int].live@ == old(pages)@[p.0 as int].live@.insert(p.1) && final(pages)@[p.0 as int].used - final(pages)@[p.0 as int].xthread_free.list@.len() == old(pages)@[p.0 as int].used - old(pages)@[p.0 as int].xthread_free.list@.len() + 1),
        r matches Some(p) ==> ((p.0 as int) == old(pages)@.len() ==> final(pages)@.len() == old(pages)@.len() + 1 && final(pages)@[p.0 as int].live@ == Set::<usize>::empty().insert(p.1) && final(pages)@[p.0 as int].used - final(pages)@[p.0 as int].xthread_free.list@.len() == 1),
        r is None ==> spec_bin_queue_exhausted(old(heap), old(pages)@, spec_bin(size as int))
            && old(segments).spec_no_span_fits(spec_bin_page_slices(spec_bin(size as int)))
            && final(pages)@ == old(pages)@ && final(segments).spans@ == old(segments).spans@
            && final(heap).pages == old(heap).pages,
{
    proof {
        crate::bin::lemma_bin_size_fits(size as int);
    }
    // Optimize: sizes at or below the small threshold consult the
    // direct table first (no bin computation, no queue walk). Its
    // entries are hints; the probe below decides whether to take one.
    if size <= MI_SMALL_SIZE_MAX {
        let w = _mi_wsize_from_size(size);
        match heap.pages_free_direct[w] {
            Some(pid) => {
                if mi_page_s::has_any_available(&pages[pid]) {
                    let got = arena_alloc_block(pages, pid);
                    match got {
                        Some(b) => {
                            proof {
                                assert(pages@[pid as int].xblock_size as int == spec_bin_size(
                                    spec_bin(size as int),
                                ));
                                lemma_arena_update_keeps_links(heap, old(pages)@, pages@, pid);
                            }
                            return Some((pid, b));
                        },
                        None => {
                            proof {
                                // Unreachable: the page was probed to
                                // have an available block.
                                assert(false);
                            }
                            return None;
                        },
                    }
                }
            },
            None => {},
        }
    }
    let bin = Heap::mi_bin(size);
    let qlen = heap.pages[bin as usize].pages.len();
    let mut i: usize = 0;
    while i < qlen
        invariant
            heap_arena_wf(heap, pages@),
            old(segments).spans_wf(),
            segments == old(segments),
            *heap == *old(heap),
            *pages == *old(pages),
            1 <= bin <= 52,
            bin == spec_bin(size as int),
            size as int <= spec_bin_size(bin as int) <= crate::page::MI_MEDIUM_OBJ_SIZE_MAX as int,
            qlen == heap.pages@[bin as int].pages@.len(),
            i <= qlen,
            forall|j: int|
                #![trigger heap.pages@[bin as int].pages@[j]]
                0 <= j < i ==> pages@[heap.pages@[bin as int].pages@[j] as int].free@.len() == 0
                    && pages@[heap.pages@[bin as int].pages@[j] as int].local_free@.len() == 0
                    && pages@[heap.pages@[bin as int].pages@[j] as int].xthread_free.list@.len()
                    == 0,
            old(pages)@.len() < usize::MAX,
            old(heap).page_count < usize::MAX,
        decreases qlen - i,
    {
        let pid = heap.pages[bin as usize].pages[i];
        proof {
            assert(heap.pages@[bin as int].pages@[i as int] == pid);
        }
        if mi_page_s::has_any_available(&pages[pid]) {
            let got = arena_alloc_block(pages, pid);
            match got {
                Some(b) => {
                    proof {
                        assert(pages@[pid as int].xblock_size as int == spec_bin_size(
                            bin as int,
                        ));
                        lemma_arena_update_keeps_links(heap, old(pages)@, pages@, pid);
                    }
                    return Some((pid, b));
                },
                None => {
                    proof {
                        // Unreachable: the page was probed to have an
                        // available block.
                        assert(false);
                    }
                    return None;
                },
            }
        }
        i += 1;
    }
    // Every queued page of the bin is empty: carve a new page from a
    // free slice span.
    let bsz = _mi_bin_size(bin);
    let slices = crate::internal::_mi_divide_up(bsz, crate::segment::MI_SEGMENT_SLICE_SIZE);
    proof {
        vstd::arithmetic::div_mod::lemma_div_is_ordered(65536, bsz + 65535, 65536);
        vstd::arithmetic::div_mod::lemma_div_is_ordered(bsz + 65535, 196607int, 65536);
        vstd::arithmetic::div_mod::lemma_fundamental_div_mod_converse(65536, 65536, 1, 0);
        vstd::arithmetic::div_mod::lemma_fundamental_div_mod_converse(196607, 65536, 2, 65535);
        assert(1 <= slices <= 2);
        assert(slices as int == spec_bin_page_slices(bin as int));
    }
    match segments.span_allocate(slices) {
        None => {
            proof {
                assert(spec_bin_queue_exhausted(old(heap), old(pages)@, bin as int));
            }
            None
        },
        Some(span) => {
            let capacity = (slices * crate::segment::MI_SEGMENT_SLICE_SIZE) / bsz;
            proof {
                let run = (slices * crate::segment::MI_SEGMENT_SLICE_SIZE) as int;
                vstd::arithmetic::div_mod::lemma_div_non_zero(run, bsz as int);
                vstd::arithmetic::div_mod::lemma_div_is_ordered_by_denominator(run, 8, bsz as int);
                vstd::arithmetic::div_mod::lemma_div_is_ordered(run, 131072, 8);
                vstd::arithmetic::div_mod::lemma_fundamental_div_mod_converse(131072, 8, 16384, 0);
                assert(1 <= capacity <= 16384);
            }
            let mut page = mi_page_s::new();
            page.init(bsz as u32, capacity as u16);
            page.slice_count = span.slice_count as u32;
            page.slice_offset = 0;
            let pid = pages.len();
            let ghost pages0 = pages@;
            pages.push(page);
            let mut q = heap.pages.remove(bin as usize);
            q.push_front(pid);
            heap.pages.insert(bin as usize, q);
            heap.page_count = heap.page_count + 1;
            if size <= MI_SMALL_SIZE_MAX {
                let w = _mi_wsize_from_size(size);
                heap.pages_free_direct.set(w, Some(pid));
            }
            proof {
                assert(heap.pages@ =~= old(heap).pages@.update(
                    bin as int,
                    heap.pages@[bin as int],
                ));
                assert forall|p: int| 0 <= p < pages@.len() implies (#[trigger] pages@[p]).wf() by {
                    if p < pages@.len() - 1 {
                        assert(pages@[p] == pages0[p]);
                        assert(pages0[p].wf());
                    }
                }
                assert forall|b: int, j: int|
                    #![trigger heap.pages@[b].pages@[j]]
                    0 <= b < heap.pages@.len() && 0 <= j
                        < heap.pages@[b].pages@.len() implies (heap.pages@[b].pages@[j] as int)
                    < pages@.len() && pages@[heap.pages@[b].pages@[j] as int].xblock_size as int
                    == spec_bin_size(b) by {
                    if b == bin as int {
                        if j == 0 {
                        } else {
                            assert(heap.pages@[b].pages@[j] == old(heap).pages@[b].pages@[j - 1]);
                            assert(pages@[heap.pages@[b].pages@[j] as int] == pages0[heap.pages@[b].pages@[j] as int]);
                        }
                    } else {
                        assert(heap.pages@[b].pages@[j] == old(heap).pages@[b].pages@[j]);
                        assert(pages@[heap.pages@[b].pages@[j] as int] == pages0[heap.pages@[b].pages@[j] as int]);
                    }
                }
                assert forall|w: int|
                    0 <= w < heap.pages_free_direct@.len() implies (
                #[trigger] heap.pages_free_direct@[w] matches Some(dpid) ==> (dpid as int)
                    < pages@.len() && pages@[dpid as int].xblock_size as int == spec_bin_size(
                    crate::bin::spec_bin_of_wsize(w),
                )) by {
                    if heap.pages_free_direct@[w] is Some {
                        let dpid = heap.pages_free_direct@[w]->0;
                        if dpid as int == pid as int && w == spec_wsize(size as int) {
                        } else {
                            assert(heap.pages_free_direct@[w] == old(
                                heap,
                            ).pages_free_direct@[w]);
                            assert(pages@[dpid as int] == pages0[dpid as int]);
                        }
                    }
                }
            }
            let ghost pages1 = pages@;
            let got = arena_alloc_block(pages, pid);
            match got {
                Some(b) => {
                    proof {
                        lemma_arena_update_keeps_links(heap, pages1, pages@, pid);
                        assert(forall|q: int|
                            0 <= q < pages0.len() && q != pid as int ==> final(pages)@[q]
                                == pages0[q]);
                    }
                    Some((pid, b))
                },
                None => {
                    proof {
                        // Unreachable: the freshly carved page has its
                        // whole capacity immediately available.
                        assert(pages1[pid as int].free@.len() == capacity as nat);
                        assert(false);
                    }
                    None
                },
            }
        },
    }
}

/// After one arena page changed without touching its block size, the
/// heap's queue links and direct-table entries still agree with the
/// arena.
proof fn lemma_arena_update_keeps_links(
    heap: &Heap,
    before: Seq<mi_page_s>,
    after: Seq<mi_page_s>,
    pid: usize,
)
    requires
        heap_arena_wf(heap, before),
        after.len() == before.len(),
        (pid as int) < before.len(),
        forall|q: int| 0 <= q < after.len() && q != pid as int ==> after[q] == before[q],
        forall|q: int| 0 <= q < after.len() ==> (#[trigger] after[q]).wf(),
        after[pid as int].xblock_size == before[pid as int].xblock_size,
    ensures
        heap_arena_wf(heap, after),
{
    assert forall|b: int, i: int|
        #![trigger heap.pages@[b].pages@[i]]
        0 <= b < heap.pages@.len() && 0 <= i < heap.pages@[b].pages@.len() implies (
    heap.pages@[b].pages@[i] as int) < after.len() && after[heap.pages@[b].pages@[i] as int].xblock_size
        as int == spec_bin_size(b) by {
        let link = heap.pages@[b].pages@[i];
        if link as int != pid as int {
            assert(after[link as int] == before[link as int]);
        }
    }
    assert forall|w: int|
        0 <= w < heap.pages_free_direct@.len() implies (#[trigger] heap.pages_free_direct@[w]
        matches Some(dpid) ==> (dpid as int) < after.len() && after[dpid as int].xblock_size
        as int == spec_bin_size(crate::bin::spec_bin_of_wsize(w))) by {
        if heap.pages_free_direct@[w] is Some {
            let dpid = heap.pages_free_direct@[w]->0;
            if dpid as int != pid as int {
                assert(after[dpid as int] == before[dpid as int]);
            }
        }
    }
}

/// `free(block)`, owner's side: once the pointer has been resolved to
/// its page through the segment geometry, a block freed by the owning
/// thread goes onto the page's `local_free` list without any
/// synchronization. (The cross-thread side is `mi_free_block_mt`.)
pub fn heap_free_local(page: &mut mi_page_s, block: usize)
    requires
        old(page).wf(),
        old(page).live@.contains(block),
    ensures
        final(page).wf(),
        final(page).local_free@ == old(page).local_free@.push(block),
        final(page).used == old(page).used - 1,
        final(page).live@ == old(page).live@.remove(block),
        final(page).free@ == old(page).free@,
        final(page).xthread_free.list@ == old(page).xthread_free.list@,
        final(page).xthread_free.flag == old(page).xthread_free.flag,
{
    page.free_block_local(block);
}

/// `free(block)`: once the pointer has been resolved to its page, the
/// freeing thread's id decides the path. The owning thread pushes onto
/// the page's `local_free` list and never touches the delayed-free
/// flag; any other thread goes through the lock-free cross-thread
/// protocol, registering the page with the owning heap exactly once per
/// dormant state.
pub fn heap_free(
    heap: &mut Heap,
    page: &mut mi_page_s,
    page_id: usize,
    block: usize,
    thread_id: mi_threadid_t,
) -> (registered: bool)
    requires
        old(page).wf(),
        old(page).live@.contains(block),
        old(page).xthread_free.flag != mi_delayed_e::MI_DELAYED_FREEING,
    ensures
        final(page).wf(),
        final(page).live@ == old(page).live@.remove(block),
        final(page).free@ == old(page).free@,
        final(page).capacity == old(page).capacity,
        final(page).xblock_size == old(page).xblock_size,
        thread_id == old(heap).thread_id ==> !registered && final(page).local_free@ == old(page).local_free@.push(block) && final(page).used == old(page).used - 1 && final(page).xthread_free.list@ == old(page).xthread_free.list@ && final(page).xthread_free.flag
            == old(page).xthread_free.flag && *final(heap) == *old(heap),
        thread_id != old(heap).thread_id ==> registered == foreign_free_registers(
            old(page).xthread_free.flag,
        ) && final(page).xthread_free.list@ == old(page).xthread_free.list@.push(block) && final(page).xthread_free.flag == delayed_after_foreign_free(old(page).xthread_free.flag) && final(page).used == old(page).used && final(page).local_free@ == old(page).local_free@,
        registered ==> final(heap).thread_delayed_free@ == old(heap).thread_delayed_free@.push(
            page_id,
        ),
        !registered ==> *final(heap) == *old(heap),
{
    if thread_id == heap.thread_id {
        page.free_block_local(block);
        false
    } else {
        mi_free_block_mt(heap, page, page_id, block)
    }
}

/// A foreign thread frees a block of a page owned by another thread's
/// heap: read the delayed-free flag; when the page is dormant, win the
/// registration race, link the page onto the owning heap's
/// thread-delayed-free list exactly once and mark the page registered;
/// in every case push the block onto the page's `thread_free` list with
/// a single tagged operation that preserves the flag bits.
///
/// A freer that observes the transient registering state would back off
/// and retry; run sequentially that state never outlives its winner, so
/// it is excluded here.
pub fn mi_free_block_mt(heap: &mut Heap, page: &mut mi_page_s, page_id: usize, block: usize) -> (
    registered: bool)
    requires
        old(page).wf(),
        old(page).live@.contains(block),
        old(page).xthread_free.flag != mi_delayed_e::MI_DELAYED_FREEING,
    ensures
        final(page).wf(),
        registered == foreign_free_registers(old(page).xthread_free.flag),
        final(page).xthread_free.flag == delayed_after_foreign_free(old(page).xthread_free.flag),
        final(page).xthread_free.list@ == old(page).xthread_free.list@.push(block),
        final(page).live@ == old(page).live@.remove(block),
        final(page).used == old(page).used,
        final(page).free@ == old(page).free@,
        final(page).local_free@ == old(page).local_free@,
        final(page).capacity == old(page).capacity,
        final(page).xblock_size == old(page).xblock_size,
        final(page).xheap == old(page).xheap,
        registered ==> final(heap).thread_delayed_free@ == old(heap).thread_delayed_free@.push(
            page_id,
        ) && final(heap).pages == old(heap).pages,
        !registered ==> *final(heap) == *old(heap),
{
    let mut registered = false;
    let use_delayed = match page.xthread_free.load_flag() {
        mi_delayed_e::MI_USE_DELAYED_FREE => true,
        _ => false,
    };
    if use_delayed {
        let won = page.xthread_free.try_begin_delayed_registration();
        if won {
            heap.register_delayed_page(page_id);
            page.xthread_free.end_delayed_registration();
            registered = true;
        }
    }
    proof {
        assert forall|b: usize| page.live@.contains(b) implies !page.spec_free_blocks(b) by {
            assert(!old(page).spec_free_blocks(b));
        }
        assert(page.wf());
    }
    page.thread_free_push(block);
    registered
}

} // verus!
