//! Thread-local and related data: the delayed-free flag, the per-thread
//! OS and segment bookkeeping, and the thread-local context owning them.
use vstd::prelude::*;

verus! {

use crate::segment::{MI_SEGMENT_BIN_MAX, MI_SLICES_PER_SEGMENT};
use crate::span_queue::{SpanQueue, Span, spec_span_queue_sizes, spec_queues_slices,
    span_bucket_for, lemma_queues_slices_update, lemma_span_sum_push, lemma_span_sum_remove,
    lemma_queues_slices_all_empty};
use crate::stats::Stats;

/// Thread ids.
pub type mi_threadid_t = usize;

/// The delayed flags are used for efficient multi-threaded free-ing.
#[derive(Debug, Copy, Clone, PartialEq, Eq, Structural)]
pub enum mi_delayed_e {
    /// Push on the owning heap's thread delayed list.
    MI_USE_DELAYED_FREE,
    /// Temporary: another thread is accessing the owning heap.
    MI_DELAYED_FREEING,
    /// Optimize: push on the page-local thread free queue if a block is
    /// already in the heap's thread delayed free list.
    MI_NO_DELAYED_FREE,
    /// Sticky; only resets on page reclaim.
    MI_NEVER_DELAYED_FREE,
}

impl mi_delayed_e {
    /// The flag encoded by the low two bits of a tagged thread-free word.
    pub fn new(x: usize) -> (r: Self)
        requires
            x <= 3,
        ensures
            x == 0 ==> r == mi_delayed_e::MI_USE_DELAYED_FREE,
            x == 1 ==> r == mi_delayed_e::MI_DELAYED_FREEING,
            x == 2 ==> r == mi_delayed_e::MI_NO_DELAYED_FREE,
            x == 3 ==> r == mi_delayed_e::MI_NEVER_DELAYED_FREE,
    {
        if x == 0 {
            mi_delayed_e::MI_USE_DELAYED_FREE
        } else if x == 1 {
            mi_delayed_e::MI_DELAYED_FREEING
        } else if x == 2 {
            mi_delayed_e::MI_NO_DELAYED_FREE
        } else {
            mi_delayed_e::MI_NEVER_DELAYED_FREE
        }
    }
}

pub type mi_delayed_t = mi_delayed_e;

/// OS thread local data.
#[derive(Debug, Clone, Copy, PartialEq, Eq)]
pub struct OsThreadLocalData {
    /// Start point for the next allocation search.
    pub region_idx: usize,
    /// Which statistics record events go to (`None` until wired up).
    pub stats: Option<usize>,
}

impl OsThreadLocalData {
    pub fn new() -> (r: Self)
        ensures
            r.region_idx == 0,
            r.stats is None,
    {
        Self { region_idx: 0, stats: None }
    }

    pub fn set_stats(&mut self, stats: usize)
        ensures
            final(self).stats == Some(stats),
            final(self).region_idx == old(self).region_idx,
    {
        self.stats = Some(stats)
    }
}

impl Default for OsThreadLocalData {
    fn default() -> (r: Self)
        ensures
            r.region_idx == 0,
            r.stats is None,
    {
        Self::new()
    }
}

/// Segments thread local data: the free-span registry plus segment
/// counts and sizes.
#[derive(Debug, Clone, PartialEq, Eq)]
pub struct SegmentsThreadLocalData {
    /// Free slice spans inside segments, bucketed by run length.
    pub spans: Vec<SpanQueue>,
    /// Current number of segments.
    pub count: usize,
    /// Peak number of segments.
    pub peak_count: usize,
    /// Current size of all segments.
    pub current_size: usize,
    /// Peak size of all segments.
    pub peak_size: usize,
    /// Which statistics record events go to.
    pub stats: Option<usize>,
    /// Which OS thread-local data is used.
    pub os: Option<usize>,
}

impl SegmentsThreadLocalData {
    /// The span registry is intact: one bucket per run-length class
    /// carrying its threshold, and every registered span lies within a
    /// segment's slice table and within its bucket's class.
    pub open spec fn spans_wf(&self) -> bool {
        &&& self.spans@.len() == MI_SEGMENT_BIN_MAX + 1
        &&& forall|b: int|
            0 <= b < self.spans@.len() ==> (#[trigger] self.spans@[b]).slice_count as int
                == spec_span_queue_sizes()[b]
        &&& forall|b: int, i: int|
            #![trigger self.spans@[b].spans@[i]]
            0 <= b < self.spans@.len() && 0 <= i < self.spans@[b].spans@.len() ==> 1 <= self.spans@[b].spans@[i].slice_count
                && self.spans@[b].spans@[i].slice_count as int <= spec_span_queue_sizes()[b]
                && self.spans@[b].spans@[i].slice_index + self.spans@[b].spans@[i].slice_count
                <= MI_SLICES_PER_SEGMENT
    }

    /// The free slices available for carving, over all buckets.
    pub open spec fn spec_free_slices(&self) -> int {
        spec_queues_slices(self.spans@)
    }

    /// No registered free run is at least `slice_count` slices long.
    pub open spec fn spec_no_span_fits(&self, slice_count: int) -> bool {
        forall|b: int, i: int|
            #![trigger self.spans@[b].spans@[i]]
            0 <= b < self.spans@.len() && 0 <= i < self.spans@[b].spans@.len()
                ==> self.spans@[b].spans@[i].slice_count < slice_count
    }

    /// Is exactly this span registered in some bucket?
    pub open spec fn spec_has_span(&self, span: Span) -> bool {
        exists|b: int, i: int|
            #![trigger self.spans@[b].spans@[i]]
            0 <= b < self.spans@.len() && 0 <= i < self.spans@[b].spans@.len()
                && self.spans@[b].spans@[i] == span
    }

    /// Is some run of `segment` registered that ends exactly where
    /// `slice_index` begins?
    pub open spec fn spec_has_span_ending_at(&self, segment: usize, slice_index: int) -> bool {
        exists|b: int, i: int|
            #![trigger self.spans@[b].spans@[i]]
            0 <= b < self.spans@.len() && 0 <= i < self.spans@[b].spans@.len()
                && self.spans@[b].spans@[i].segment == segment
                && self.spans@[b].spans@[i].slice_index + self.spans@[b].spans@[i].slice_count
                == slice_index
    }

    /// Is some run of `segment` registered that starts exactly at
    /// `slice_index`?
    pub open spec fn spec_has_span_starting_at(&self, segment: usize, slice_index: int) -> bool {
        exists|b: int, i: int|
            #![trigger self.spans@[b].spans@[i]]
            0 <= b < self.spans@.len() && 0 <= i < self.spans@[b].spans@.len()
                && self.spans@[b].spans@[i].segment == segment
                && self.spans@[b].spans@[i].slice_index == slice_index
    }

    pub fn new() -> (r: Self)
        ensures
            r.spans_wf(),
            r.spec_free_slices() == 0,
            r.spans@.len() == MI_SEGMENT_BIN_MAX + 1,
            forall|i: int|
                0 <= i < r.spans@.len() ==> #[trigger] r.spans@[i].slice_count
                    == spec_span_queue_sizes()[i] && r.spans@[i].spans@.len() == 0,
            r.count == 0,
            r.peak_count == 0,
            r.current_size == 0,
            r.peak_size == 0,
            r.stats is None,
            r.os is None,
    {
        let r = Self {
            spans: SpanQueue::mi_segment_span_queues_empty(),
            count: 0,
            peak_count: 0,
            current_size: 0,
            peak_size: 0,
            stats: None,
            os: None,
        };
        proof {
            assert forall|b: int| 0 <= b < r.spans@.len() implies (#[trigger] r.spans@[b]).slice_count
                as int == spec_span_queue_sizes()[b] && r.spans@[b].spans@.len() == 0 by {
                assert(r.spans@[b].slice_count == spec_span_queue_sizes()[b]);
            }
            lemma_queues_slices_all_empty(r.spans@);
        }
        r
    }

    /// File a free span under the bucket for its run length.
    pub fn push_span(&mut self, span: Span)
        requires
            old(self).spans_wf(),
            1 <= span.slice_count,
            span.slice_index + span.slice_count <= MI_SLICES_PER_SEGMENT,
        ensures
            final(self).spans_wf(),
            final(self).spec_free_slices() == old(self).spec_free_slices() + span.slice_count,
            final(self).spec_has_span(span),
            final(self).count == old(self).count,
            final(self).peak_count == old(self).peak_count,
            final(self).current_size == old(self).current_size,
            final(self).peak_size == old(self).peak_size,
            final(self).stats == old(self).stats,
            final(self).os == old(self).os,
    {
        let b = span_bucket_for(span.slice_count);
        let mut q = self.spans.remove(b);
        q.push(span);
        self.spans.insert(b, q);
        proof {
            let qs0 = old(self).spans@;
            let qb = self.spans@[b as int];
            assert(self.spans@ =~= qs0.update(b as int, qb));
            lemma_queues_slices_update(qs0, b as int, qb);
            lemma_span_sum_push(qs0[b as int].spans@, span);
            assert forall|bb: int, i: int|
                #![trigger self.spans@[bb].spans@[i]]
                0 <= bb < self.spans@.len() && 0 <= i
                    < self.spans@[bb].spans@.len() implies 1 <= self.spans@[bb].spans@[i].slice_count
                && self.spans@[bb].spans@[i].slice_count as int <= spec_span_queue_sizes()[bb]
                && self.spans@[bb].spans@[i].slice_index + self.spans@[bb].spans@[i].slice_count
                <= MI_SLICES_PER_SEGMENT by {
                if bb == b as int && i == qs0[bb].spans@.len() {
                } else {
                    assert(self.spans@[bb].spans@[i] == qs0[bb].spans@[i]);
                }
            }
            assert(self.spans@[b as int].spans@[qs0[b as int].spans@.len() as int] == span);
        }
    }

    /// Unlink and return the span at a bucket position.
    fn remove_span(&mut self, b: usize, i: usize) -> (r: Span)
        requires
            old(self).spans_wf(),
            b < old(self).spans@.len(),
            i < old(self).spans@[b as int].spans@.len(),
        ensures
            final(self).spans_wf(),
            r == old(self).spans@[b as int].spans@[i as int],
            1 <= r.slice_count,
            r.slice_index + r.slice_count <= MI_SLICES_PER_SEGMENT,
            final(self).spec_free_slices() == old(self).spec_free_slices() - r.slice_count,
            final(self).spans@.len() == old(self).spans@.len(),
            forall|bb: int|
                0 <= bb < final(self).spans@.len() && bb != b as int ==> final(self).spans@[bb]
                    == old(self).spans@[bb],
            final(self).spans@[b as int].spans@ == old(self).spans@[b as int].spans@.remove(
                i as int,
            ),
            final(self).count == old(self).count,
            final(self).peak_count == old(self).peak_count,
            final(self).current_size == old(self).current_size,
            final(self).peak_size == old(self).peak_size,
            final(self).stats == old(self).stats,
            final(self).os == old(self).os,
    {
        let mut q = self.spans.remove(b);
        let r = q.remove_at(i);
        self.spans.insert(b, q);
        proof {
            let qs0 = old(self).spans@;
            let qb = self.spans@[b as int];
            assert(self.spans@ =~= qs0.update(b as int, qb));
            lemma_queues_slices_update(qs0, b as int, qb);
            lemma_span_sum_remove(qs0[b as int].spans@, i as int);
            assert forall|bb: int, j: int|
                #![trigger self.spans@[bb].spans@[j]]
                0 <= bb < self.spans@.len() && 0 <= j
                    < self.spans@[bb].spans@.len() implies 1 <= self.spans@[bb].spans@[j].slice_count
                && self.spans@[bb].spans@[j].slice_count as int <= spec_span_queue_sizes()[bb]
                && self.spans@[bb].spans@[j].slice_index + self.spans@[bb].spans@[j].slice_count
                <= MI_SLICES_PER_SEGMENT by {
                if bb == b as int {
                    if j < i as int {
                        assert(self.spans@[bb].spans@[j] == qs0[bb].spans@[j]);
                    } else {
                        assert(self.spans@[bb].spans@[j] == qs0[bb].spans@[j + 1]);
                    }
                } else {
                    assert(self.spans@[bb].spans@[j] == qs0[bb].spans@[j]);
                }
            }
        }
        r
    }

    /// Ask the registry for a free run of exactly `slice_count` slices
    /// to carve a page from: the smallest bucket that can hold such a
    /// run is consulted first (good fit by bucket, not exhaustive
    /// search); a longer run is split and the remainder re-filed under
    /// the bucket for its new length. `None` only when no registered
    /// run is long enough.
    pub fn span_allocate(&mut self, slice_count: usize) -> (r: Option<Span>)
        requires
            old(self).spans_wf(),
            1 <= slice_count <= MI_SLICES_PER_SEGMENT,
        ensures
            final(self).spans_wf(),
            r matches Some(s) ==> s.slice_count == slice_count && s.slice_index + s.slice_count
                <= MI_SLICES_PER_SEGMENT && final(self).spec_free_slices() == old(
                self,
            ).spec_free_slices() - slice_count,
            r is None ==> final(self).spans@ == old(self).spans@ && old(self).spec_no_span_fits(
                slice_count as int,
            ),
            final(self).count == old(self).count,
            final(self).peak_count == old(self).peak_count,
            final(self).current_size == old(self).current_size,
            final(self).peak_size == old(self).peak_size,
            final(self).stats == old(self).stats,
            final(self).os == old(self).os,
    {
        let start = span_bucket_for(slice_count);
        let mut b = start;
        while b < MI_SEGMENT_BIN_MAX + 1
            invariant
                old(self).spans_wf(),
                1 <= slice_count <= MI_SLICES_PER_SEGMENT,
                start <= b <= MI_SEGMENT_BIN_MAX + 1,
                self.spans@ == old(self).spans@,
                self.count == old(self).count,
                self.peak_count == old(self).peak_count,
                self.current_size == old(self).current_size,
                self.peak_size == old(self).peak_size,
                self.stats == old(self).stats,
                self.os == old(self).os,
                forall|j: int| 0 <= j < start ==> spec_span_queue_sizes()[j] < slice_count,
                forall|bb: int, i: int|
                    #![trigger old(self).spans@[bb].spans@[i]]
                    start <= bb < b && 0 <= i < old(self).spans@[bb].spans@.len() ==> old(
                        self,
                    ).spans@[bb].spans@[i].slice_count < slice_count,
            decreases MI_SEGMENT_BIN_MAX + 1 - b,
        {
            let qlen = self.spans[b].spans.len();
            let mut i: usize = 0;
            while i < qlen
                invariant
                    old(self).spans_wf(),
                    1 <= slice_count <= MI_SLICES_PER_SEGMENT,
                    start <= b <= MI_SEGMENT_BIN_MAX,
                    i <= qlen,
                    self.spans@ == old(self).spans@,
                    self.count == old(self).count,
                    self.peak_count == old(self).peak_count,
                    self.current_size == old(self).current_size,
                    self.peak_size == old(self).peak_size,
                    self.stats == old(self).stats,
                    self.os == old(self).os,
                    qlen == old(self).spans@[b as int].spans@.len(),
                    forall|j: int|
                        0 <= j < i ==> old(self).spans@[b as int].spans@[j].slice_count
                            < slice_count,
                decreases qlen - i,
            {
                if self.spans[b].spans[i].slice_count >= slice_count {
                    let found = self.remove_span(b, i);
                    let result = Span {
                        segment: found.segment,
                        slice_index: found.slice_index,
                        slice_count,
                    };
                    if found.slice_count > slice_count {
                        let rest = Span {
                            segment: found.segment,
                            slice_index: found.slice_index + slice_count,
                            slice_count: found.slice_count - slice_count,
                        };
                        self.push_span(rest);
                    }
                    return Some(result);
                }
                i += 1;
            }
            b += 1;
        }
        proof {
            assert forall|bb: int, i: int|
                #![trigger old(self).spans@[bb].spans@[i]]
                0 <= bb < old(self).spans@.len() && 0 <= i
                    < old(self).spans@[bb].spans@.len() implies old(
                self,
            ).spans@[bb].spans@[i].slice_count < slice_count by {
                if bb < start {
                    assert(old(self).spans@[bb].spans@[i].slice_count as int
                        <= spec_span_queue_sizes()[bb]);
                }
            }
        }
        None
    }

    /// A span among the registered free runs that ends exactly where
    /// `slice_index` begins, in the same segment.
    fn find_span_ending_at(&self, segment: usize, slice_index: usize) -> (r: Option<
        (usize, usize),
    >)
        requires
            self.spans_wf(),
        ensures
            r matches Some(p) ==> (p.0 as int) < self.spans@.len() && (p.1 as int)
                < self.spans@[p.0 as int].spans@.len() && self.spans@[p.0 as int].spans@[p.1 as int].segment
                == segment && self.spans@[p.0 as int].spans@[p.1 as int].slice_index
                + self.spans@[p.0 as int].spans@[p.1 as int].slice_count == slice_index,
            r is None ==> forall|b: int, i: int|
                #![trigger self.spans@[b].spans@[i]]
                0 <= b < self.spans@.len() && 0 <= i < self.spans@[b].spans@.len() ==> !(
                self.spans@[b].spans@[i].segment == segment
                    && self.spans@[b].spans@[i].slice_index
                    + self.spans@[b].spans@[i].slice_count == slice_index),
    {
        let mut b: usize = 0;
        while b < self.spans.len()
            invariant
                self.spans_wf(),
                b <= self.spans@.len(),
                forall|bb: int, i: int|
                    #![trigger self.spans@[bb].spans@[i]]
                    0 <= bb < b && 0 <= i < self.spans@[bb].spans@.len() ==> !(
                    self.spans@[bb].spans@[i].segment == segment
                        && self.spans@[bb].spans@[i].slice_index
                        + self.spans@[bb].spans@[i].slice_count == slice_index),
            decreases self.spans@.len() - b,
        {
            let qlen = self.spans[b].spans.len();
            let mut i: usize = 0;
            while i < qlen
                invariant
                    self.spans_wf(),
                    b < self.spans@.len(),
                    i <= qlen,
                    qlen == self.spans@[b as int].spans@.len(),
                    forall|j: int|
                        0 <= j < i ==> !(self.spans@[b as int].spans@[j].segment == segment
                            && self.spans@[b as int].spans@[j].slice_index
                            + self.spans@[b as int].spans@[j].slice_count == slice_index),
                decreases qlen - i,
            {
                let s = self.spans[b].spans[i];
                if s.segment == segment && s.slice_index + s.slice_count == slice_index {
                    return Some((b, i));
                }
                i += 1;
            }
            b += 1;
        }
        None
    }

    /// A span among the registered free runs that starts exactly at
    /// `slice_index`, in the same segment.
    fn find_span_starting_at(&self, segment: usize, slice_index: usize) -> (r: Option<
        (usize, usize),
    >)
        requires
            self.spans_wf(),
        ensures
            r matches Some(p) ==> (p.0 as int) < self.spans@.len() && (p.1 as int)
                < self.spans@[p.0 as int].spans@.len() && self.spans@[p.0 as int].spans@[p.1 as int].segment
                == segment && self.spans@[p.0 as int].spans@[p.1 as int].slice_index
                == slice_index,
            r is None ==> forall|b: int, i: int|
                #![trigger self.spans@[b].spans@[i]]
                0 <= b < self.spans@.len() && 0 <= i < self.spans@[b].spans@.len() ==> !(
                self.spans@[b].spans@[i].segment == segment
                    && self.spans@[b].spans@[i].slice_index == slice_index),
    {
        let mut b: usize = 0;
        while b < self.spans.len()
            invariant
                self.spans_wf(),
                b <= self.spans@.len(),
                forall|bb: int, i: int|
                    #![trigger self.spans@[bb].spans@[i]]
                    0 <= bb < b && 0 <= i < self.spans@[bb].spans@.len() ==> !(
                    self.spans@[bb].spans@[i].segment == segment
                        && self.spans@[bb].spans@[i].slice_index == slice_index),
            decreases self.spans@.len() - b,
        {
            let qlen = self.spans[b].spans.len();
            let mut i: usize = 0;
            while i < qlen
                invariant
                    self.spans_wf(),
                    b < self.spans@.len(),
                    i <= qlen,
                    qlen == self.spans@[b as int].spans@.len(),
                    forall|j: int|
                        0 <= j < i ==> !(self.spans@[b as int].spans@[j].segment == segment
                            && self.spans@[b as int].spans@[j].slice_index == slice_index),
                decreases qlen - i,
            {
                let s = self.spans[b].spans[i];
                if s.segment == segment && s.slice_index == slice_index {
                    return Some((b, i));
                }
                i += 1;
            }
            b += 1;
        }
        None
    }

    /// The slices the registry has available for carving, over all
    /// buckets.
    pub fn total_free_slices(&self) -> (r: usize)
        requires
            self.spans_wf(),
            self.spec_free_slices() <= usize::MAX,
        ensures
            r == self.spec_free_slices(),
    {
        proof {
            crate::span_queue::lemma_queues_sum_nonneg_prefix(self.spans@);
        }
        let mut total: usize = 0;
        let mut b: usize = 0;
        while b < self.spans.len()
            invariant
                self.spans_wf(),
                b <= self.spans@.len(),
                total == spec_queues_slices(self.spans@.take(b as int)),
                self.spec_free_slices() <= usize::MAX,
                forall|j: int|
                    0 <= j <= self.spans@.len() ==> 0 <= #[trigger] spec_queues_slices(
                        self.spans@.take(j),
                    ) <= spec_queues_slices(self.spans@),
            decreases self.spans@.len() - b,
        {
            proof {
                crate::span_queue::lemma_queues_slices_take(self.spans@, b as int);
                crate::span_queue::lemma_span_sum_nonneg(self.spans@[b as int].spans@);
            }
            let q_total = self.spans[b].total_slices();
            total = total + q_total;
            b += 1;
        }
        proof {
            assert(self.spans@.take(self.spans@.len() as int) =~= self.spans@);
        }
        total
    }

    /// Return a page's slice run to the registry, coalescing it with an
    /// adjacent free run on either side when one is registered
    /// (adjacency is decided by slice-index arithmetic, not pointer
    /// chasing). The registry afterwards holds the returned run, which
    /// covers the freed range; when a run ending at the range's start
    /// (or starting at its end) was registered, the returned run
    /// extends strictly beyond that boundary. The total of free slices
    /// grows by exactly the freed run's length, coalesced or not.
    pub fn span_free(&mut self, span: Span) -> (merged: Span)
        requires
            old(self).spans_wf(),
            1 <= span.slice_count,
            span.slice_index + span.slice_count <= MI_SLICES_PER_SEGMENT,
        ensures
            final(self).spans_wf(),
            final(self).spec_free_slices() == old(self).spec_free_slices() + span.slice_count,
            final(self).spec_has_span(merged),
            merged.segment == span.segment,
            merged.slice_index <= span.slice_index,
            span.slice_index + span.slice_count <= merged.slice_index + merged.slice_count,
            merged.slice_index + merged.slice_count <= MI_SLICES_PER_SEGMENT,
            old(self).spec_has_span_ending_at(span.segment, span.slice_index as int)
                ==> merged.slice_index < span.slice_index,
            old(self).spec_has_span_starting_at(
                span.segment,
                span.slice_index + span.slice_count,
            ) ==> merged.slice_index + merged.slice_count > span.slice_index + span.slice_count,
            final(self).count == old(self).count,
            final(self).peak_count == old(self).peak_count,
            final(self).current_size == old(self).current_size,
            final(self).peak_size == old(self).peak_size,
            final(self).stats == old(self).stats,
            final(self).os == old(self).os,
    {
        let ghost e = span.slice_index + span.slice_count as int;
        let mut merged = span;
        let found_left = self.find_span_ending_at(span.segment, span.slice_index);
        proof {
            // Completeness of the search: a registered left neighbor is
            // always found.
            if found_left is None && old(self).spec_has_span_ending_at(
                span.segment,
                span.slice_index as int,
            ) {
                let (b2, i2) = choose|b2: int, i2: int|
                    #![trigger old(self).spans@[b2].spans@[i2]]
                    0 <= b2 < old(self).spans@.len() && 0 <= i2 < old(
                        self,
                    ).spans@[b2].spans@.len() && old(self).spans@[b2].spans@[i2].segment
                        == span.segment && old(self).spans@[b2].spans@[i2].slice_index + old(
                        self,
                    ).spans@[b2].spans@[i2].slice_count == span.slice_index as int;
                assert(false);
            }
        }
        if let Some((b, i)) = found_left {
            let left = self.remove_span(b, i);
            merged = Span {
                segment: span.segment,
                slice_index: left.slice_index,
                slice_count: left.slice_count + span.slice_count,
            };
            proof {
                assert(merged.slice_index + merged.slice_count == e);
                assert(merged.slice_index < span.slice_index);
            }
        }
        proof {
            assert(merged.slice_index + merged.slice_count == e);
            // A run starting at the freed range's end survives the left
            // removal: the removed left neighbor cannot be it (it would
            // need a negative length).
            if old(self).spec_has_span_starting_at(span.segment, e) {
                let (b2, i2) = choose|b2: int, i2: int|
                    #![trigger old(self).spans@[b2].spans@[i2]]
                    0 <= b2 < old(self).spans@.len() && 0 <= i2 < old(
                        self,
                    ).spans@[b2].spans@.len() && old(self).spans@[b2].spans@[i2].segment
                        == span.segment && old(self).spans@[b2].spans@[i2].slice_index == e;
                if found_left is Some {
                    let pair = found_left->0;
                    let b = pair.0 as int;
                    let i = pair.1 as int;
                    if b2 == b {
                        if i2 == i {
                            // The left neighbor ends at the range's
                            // start; a run starting at the range's end
                            // with that property would be shorter than
                            // one slice.
                            assert(false);
                        } else if i2 < i {
                            assert(self.spans@[b2].spans@[i2] == old(
                                self,
                            ).spans@[b2].spans@[i2]);
                        } else {
                            assert(self.spans@[b2].spans@[i2 - 1] == old(
                                self,
                            ).spans@[b2].spans@[i2]);
                        }
                    } else {
                        assert(self.spans@[b2] == old(self).spans@[b2]);
                        assert(self.spans@[b2].spans@[i2] == old(self).spans@[b2].spans@[i2]);
                    }
                } else {
                    assert(self.spans@[b2].spans@[i2] == old(self).spans@[b2].spans@[i2]);
                }
                assert(self.spec_has_span_starting_at(span.segment, e));
            }
        }
        let found_right = self.find_span_starting_at(
            merged.segment,
            merged.slice_index + merged.slice_count,
        );
        proof {
            // Completeness again: a surviving right neighbor is found.
            if found_right is None && old(self).spec_has_span_starting_at(span.segment, e) {
                let (b3, i3) = choose|b3: int, i3: int|
                    #![trigger self.spans@[b3].spans@[i3]]
                    0 <= b3 < self.spans@.len() && 0 <= i3 < self.spans@[b3].spans@.len()
                        && self.spans@[b3].spans@[i3].segment == span.segment
                        && self.spans@[b3].spans@[i3].slice_index == e;
                assert(false);
            }
        }
        if let Some((b, i)) = found_right {
            let right = self.remove_span(b, i);
            merged = Span {
                segment: merged.segment,
                slice_index: merged.slice_index,
                slice_count: merged.slice_count + right.slice_count,
            };
        }
        self.push_span(merged);
        merged
    }

    pub fn set_stats(&mut self, stats: usize)
        ensures
            *final(self) == (SegmentsThreadLocalData { stats: Some(stats), ..*old(self) }),
    {
        self.stats = Some(stats)
    }

    pub fn set_os(&mut self, os: usize)
        ensures
            *final(self) == (SegmentsThreadLocalData { os: Some(os), ..*old(self) }),
    {
        self.os = Some(os)
    }
}

/// Thread local data: one per thread, created at its first allocation
/// and torn down at thread exit.
#[derive(Debug)]
pub struct ThreadLocalData {
    /// Monotonic heartbeat count.
    pub heartbeat: u64,
    /// True if deferred work was called; prevents infinite recursion.
    pub recurse: bool,
    /// Backing heap of this thread (cannot be deleted).
    pub heap_backing: Option<usize>,
    /// List head of the heaps in this thread, so all can be abandoned
    /// when the thread terminates.
    pub heaps: Option<usize>,
    /// Segment thread-local data.
    pub segments: SegmentsThreadLocalData,
    /// OS thread-local data.
    pub os: OsThreadLocalData,
    /// Statistics.
    pub stats: Stats,
}

impl ThreadLocalData {
    pub fn new() -> (r: Self)
        ensures
            r.heartbeat == 0,
            !r.recurse,
            r.heap_backing is None,
            r.heaps is None,
            r.segments.count == 0,
            r.segments.peak_count == 0,
            r.segments.current_size == 0,
            r.segments.peak_size == 0,
            r.segments.spans@.len() == MI_SEGMENT_BIN_MAX + 1,
            r.segments.spans_wf(),
            r.segments.spec_free_slices() == 0,
            r.stats.is_zero(),
            r.os.region_idx == 0,
            r.os.stats is None,
            r.segments.stats is None,
            r.segments.os is None,
    {
        Self {
            heartbeat: 0,
            recurse: false,
            heap_backing: None,
            heaps: None,
            segments: SegmentsThreadLocalData::new(),
            os: OsThreadLocalData::new(),
            stats: Stats::new(),
        }
    }

    /// Wire the main thread's sub-contexts to its own statistics and OS
    /// data (they live inside this very context, hence index 0).
    pub fn init_main(&mut self)
        ensures
            final(self).segments.stats == Some(0usize),
            final(self).segments.os == Some(0usize),
            final(self).os.stats == Some(0usize),
            final(self).heartbeat == old(self).heartbeat,
            final(self).recurse == old(self).recurse,
            final(self).heap_backing == old(self).heap_backing,
            final(self).heaps == old(self).heaps,
            final(self).segments.spans == old(self).segments.spans,
            final(self).segments.count == old(self).segments.count,
            final(self).stats == old(self).stats,
    {
        self.segments.set_stats(0);
        self.segments.set_os(0);
        self.os.set_stats(0);
    }
}

/// Lifecycle hook surrounding allocation: the per-thread context
/// created at a thread's first allocation, wired to its own statistics
/// and OS sub-contexts.
pub fn thread_init() -> (r: ThreadLocalData)
    ensures
        r.segments.spans_wf(),
        r.segments.spec_free_slices() == 0,
        r.heap_backing is None,
        r.heaps is None,
        r.stats.is_zero(),
        r.segments.stats == Some(0usize),
        r.segments.os == Some(0usize),
        r.os.stats == Some(0usize),
{
    let mut tld = ThreadLocalData::new();
    tld.init_main();
    tld
}

/// Lifecycle hook at thread exit: every page the thread still owns is
/// abandoned — the ownership marker is cleared while counters and free
/// lists stay exactly as they are — rather than freed outright, so
/// in-flight cross-thread frees stay valid. The context's statistics
/// are handed back to be merged into the process totals.
pub fn thread_deinit(tld: ThreadLocalData, pages: &mut Vec<crate::page::mi_page_s>) -> (r: Stats)
    requires
        forall|p: int|
            0 <= p < old(pages)@.len() ==> (#[trigger] old(pages)@[p]).wf() && old(pages)@[p].xthread_free.flag != mi_delayed_e::MI_DELAYED_FREEING,
    ensures
        final(pages)@.len() == old(pages)@.len(),
        forall|p: int|
            0 <= p < final(pages)@.len() ==> (#[trigger] final(pages)@[p]) == (
            crate::page::mi_page_s { xheap: None, ..old(pages)@[p] }),
        r == tld.stats,
{
    let mut i: usize = 0;
    while i < pages.len()
        invariant
            pages@.len() == old(pages)@.len(),
            i <= pages@.len(),
            forall|p: int|
                0 <= p < i ==> (#[trigger] pages@[p]) == (crate::page::mi_page_s {
                    xheap: None,
                    ..old(pages)@[p]
                }),
            forall|p: int| i <= p < pages@.len() ==> (#[trigger] pages@[p]) == old(pages)@[p],
            forall|p: int|
                0 <= p < old(pages)@.len() ==> (#[trigger] old(pages)@[p]).wf() && old(
                    pages,
                )@[p].xthread_free.flag != mi_delayed_e::MI_DELAYED_FREEING,
        decreases pages@.len() - i,
    {
        let mut page = pages.remove(i);
        page.abandon();
        pages.insert(i, page);
        i += 1;
    }
    tld.stats
}

} // verus!
