//! Span queues: the per-thread registry of free slice runs inside
//! segments, bucketed by run length for good-fit span reuse.
use vstd::prelude::*;

verus! {

use crate::segment::{MI_SEGMENT_BIN_MAX, MI_SLICES_PER_SEGMENT};

/// A span is an available range of slices inside one segment, described
/// by its first slice index and its length in slices.
#[derive(Debug, Clone, Copy, PartialEq, Eq)]
pub struct Span {
    pub segment: usize,
    pub slice_index: usize,
    pub slice_count: usize,
}

/// The bucket thresholds: bucket `i` keeps spans of at most
/// `spec_span_queue_sizes()[i]` slices (but more than the previous
/// bucket's threshold).
pub open spec fn spec_span_queue_sizes() -> Seq<int> {
    seq![
        1, 1, 2, 3, 4, 5, 6, 7, 10, 12, 14, 16, 20, 24, 28, 32, 40, 48, 56, 64, 80, 96, 112,
        128, 160, 192, 224, 256, 320, 384, 448, 512, 640, 768, 896, 1024,
    ]
}

/// The span queues keep track of slice spans of at most the given
/// `slice_count` (but more than the previous size class).
#[derive(Debug, Clone, PartialEq, Eq)]
pub struct SpanQueue {
    pub spans: Vec<Span>,
    pub slice_count: usize,
}

impl SpanQueue {
    pub fn new(size: usize) -> (r: Self)
        ensures
            r.spans@.len() == 0,
            r.slice_count == size,
    {
        Self { spans: Vec::new(), slice_count: size }
    }

    /// The empty bucket array a fresh segments registry starts from: one
    /// empty queue per run-length class.
    pub fn mi_segment_span_queues_empty() -> (r: Vec<SpanQueue>)
        ensures
            r@.len() == MI_SEGMENT_BIN_MAX + 1,
            forall|i: int|
                0 <= i < r@.len() ==> #[trigger] r@[i].slice_count == spec_span_queue_sizes()[i]
                    && r@[i].spans@.len() == 0,
    {
        let sizes: Vec<usize> = span_queue_sizes();
        let mut queues: Vec<SpanQueue> = Vec::new();
        let mut i: usize = 0;
        while i < sizes.len()
            invariant
                i == queues@.len(),
                i <= sizes@.len(),
                sizes@.len() == MI_SEGMENT_BIN_MAX + 1,
                forall|j: int| 0 <= j < sizes@.len() ==> sizes@[j] == spec_span_queue_sizes()[j],
                forall|j: int|
                    0 <= j < i ==> #[trigger] queues@[j].slice_count == spec_span_queue_sizes()[j]
                        && queues@[j].spans@.len() == 0,
            decreases sizes@.len() - i,
        {
            queues.push(SpanQueue::new(sizes[i]));
            i += 1;
        }
        queues
    }
}

impl Default for SpanQueue {
    fn default() -> (r: Self)
        ensures
            r.spans@.len() == 0,
            r.slice_count == 0,
    {
        Self::new(0)
    }
}

/// The slices a list of spans holds in total.
pub open spec fn spec_span_seq_slices(s: Seq<Span>) -> int
    decreases s.len(),
{
    if s.len() == 0 {
        0
    } else {
        spec_span_seq_slices(s.drop_last()) + s.last().slice_count
    }
}

/// The slices all buckets of a span-queue table hold in total: the free
/// slices a segments registry has available for carving.
pub open spec fn spec_queues_slices(qs: Seq<SpanQueue>) -> int
    decreases qs.len(),
{
    if qs.len() == 0 {
        0
    } else {
        spec_queues_slices(qs.drop_last()) + spec_span_seq_slices(qs.last().spans@)
    }
}

/// Appending a span adds its length to the total.
pub proof fn lemma_span_sum_push(s: Seq<Span>, x: Span)
    ensures
        spec_span_seq_slices(s.push(x)) == spec_span_seq_slices(s) + x.slice_count,
{
    assert(s.push(x).drop_last() =~= s);
    assert(s.push(x).last() == x);
}

/// Removing a span subtracts its length from the total.
pub proof fn lemma_span_sum_remove(s: Seq<Span>, i: int)
    requires
        0 <= i < s.len(),
    ensures
        spec_span_seq_slices(s.remove(i)) == spec_span_seq_slices(s) - s[i].slice_count,
    decreases s.len(),
{
    if i == s.len() - 1 {
        assert(s.remove(i) =~= s.drop_last());
    } else {
        assert(s.remove(i).drop_last() =~= s.drop_last().remove(i));
        assert(s.remove(i).last() == s.last());
        lemma_span_sum_remove(s.drop_last(), i);
    }
}

/// A prefix extended by one element: the running total grows by that
/// element's length.
pub proof fn lemma_span_sum_take(s: Seq<Span>, i: int)
    requires
        0 <= i < s.len(),
    ensures
        spec_span_seq_slices(s.take(i + 1)) == spec_span_seq_slices(s.take(i))
            + s[i].slice_count,
{
    assert(s.take(i + 1).drop_last() =~= s.take(i));
    assert(s.take(i + 1).last() == s[i]);
}

/// Replacing one bucket changes the table's total by the difference of
/// the bucket totals.
pub proof fn lemma_queues_slices_update(qs: Seq<SpanQueue>, i: int, q: SpanQueue)
    requires
        0 <= i < qs.len(),
    ensures
        spec_queues_slices(qs.update(i, q)) == spec_queues_slices(qs) - spec_span_seq_slices(
            qs[i].spans@,
        ) + spec_span_seq_slices(q.spans@),
    decreases qs.len(),
{
    if i == qs.len() - 1 {
        assert(qs.update(i, q).drop_last() =~= qs.drop_last());
        assert(qs.update(i, q).last() == q);
    } else {
        assert(qs.update(i, q).drop_last() =~= qs.drop_last().update(i, q));
        assert(qs.update(i, q).last() == qs.last());
        lemma_queues_slices_update(qs.drop_last(), i, q);
    }
}

/// A prefix of the bucket table extended by one bucket.
pub proof fn lemma_queues_slices_take(qs: Seq<SpanQueue>, i: int)
    requires
        0 <= i < qs.len(),
    ensures
        spec_queues_slices(qs.take(i + 1)) == spec_queues_slices(qs.take(i))
            + spec_span_seq_slices(qs[i].spans@),
{
    assert(qs.take(i + 1).drop_last() =~= qs.take(i));
    assert(qs.take(i + 1).last() == qs[i]);
}

impl SpanQueue {
    /// Link a free span into this bucket.
    pub fn push(&mut self, span: Span)
        ensures
            final(self).spans@ == old(self).spans@.push(span),
            final(self).slice_count == old(self).slice_count,
    {
        self.spans.push(span);
    }

    /// Unlink the span at a position.
    pub fn remove_at(&mut self, i: usize) -> (r: Span)
        requires
            i < old(self).spans@.len(),
        ensures
            r == old(self).spans@[i as int],
            final(self).spans@ == old(self).spans@.remove(i as int),
            final(self).slice_count == old(self).slice_count,
    {
        self.spans.remove(i)
    }

    /// The spans this bucket holds in total.
    pub fn total_slices(&self) -> (r: usize)
        requires
            spec_span_seq_slices(self.spans@) <= usize::MAX,
        ensures
            r == spec_span_seq_slices(self.spans@),
    {
        proof {
            lemma_span_sum_nonneg_prefix(self.spans@);
        }
        let mut total: usize = 0;
        let mut i: usize = 0;
        while i < self.spans.len()
            invariant
                i <= self.spans@.len(),
                total == spec_span_seq_slices(self.spans@.take(i as int)),
                spec_span_seq_slices(self.spans@) <= usize::MAX,
                forall|j: int|
                    0 <= j <= self.spans@.len() ==> #[trigger] spec_span_seq_slices(
                        self.spans@.take(j),
                    ) <= spec_span_seq_slices(self.spans@),
                forall|j: int|
                    0 <= j <= self.spans@.len() ==> #[trigger] spec_span_seq_slices(
                        self.spans@.take(j),
                    ) >= 0,
            decreases self.spans@.len() - i,
        {
            proof {
                lemma_span_sum_take(self.spans@, i as int);
            }
            total = total + self.spans[i].slice_count;
            i += 1;
        }
        proof {
            assert(self.spans@.take(self.spans@.len() as int) =~= self.spans@);
        }
        total
    }
}

/// Every prefix total is between zero and the whole total.
pub proof fn lemma_span_sum_nonneg_prefix(s: Seq<Span>)
    ensures
        forall|j: int|
            0 <= j <= s.len() ==> #[trigger] spec_span_seq_slices(s.take(j))
                <= spec_span_seq_slices(s),
        forall|j: int| 0 <= j <= s.len() ==> #[trigger] spec_span_seq_slices(s.take(j)) >= 0,
    decreases s.len(),
{
    assert(spec_span_seq_slices(s.take(0)) == 0) by {
        assert(s.take(0) =~= Seq::<Span>::empty());
    }
    assert forall|j: int| 0 <= j <= s.len() implies #[trigger] spec_span_seq_slices(s.take(j))
        >= 0 by {
        lemma_span_sum_prefix_bounds(s, 0, j);
    }
    assert forall|j: int| 0 <= j <= s.len() implies #[trigger] spec_span_seq_slices(s.take(j))
        <= spec_span_seq_slices(s) by {
        lemma_span_sum_prefix_bounds(s, j, s.len() as int);
        assert(s.take(s.len() as int) =~= s);
    }
}

/// Prefix totals grow with the prefix.
proof fn lemma_span_sum_prefix_bounds(s: Seq<Span>, i: int, j: int)
    requires
        0 <= i <= j <= s.len(),
    ensures
        spec_span_seq_slices(s.take(i)) <= spec_span_seq_slices(s.take(j)),
    decreases j - i,
{
    if i < j {
        lemma_span_sum_prefix_bounds(s, i, j - 1);
        lemma_span_sum_take(s, j - 1);
    }
}

/// A list's total is never negative.
pub proof fn lemma_span_sum_nonneg(s: Seq<Span>)
    ensures
        spec_span_seq_slices(s) >= 0,
    decreases s.len(),
{
    if s.len() > 0 {
        lemma_span_sum_nonneg(s.drop_last());
    }
}

/// Every prefix of the bucket table totals between zero and the whole.
pub proof fn lemma_queues_sum_nonneg_prefix(qs: Seq<SpanQueue>)
    ensures
        forall|j: int|
            0 <= j <= qs.len() ==> 0 <= #[trigger] spec_queues_slices(qs.take(j))
                <= spec_queues_slices(qs),
{
    assert forall|j: int|
        0 <= j <= qs.len() implies 0 <= #[trigger] spec_queues_slices(qs.take(j))
        <= spec_queues_slices(qs) by {
        lemma_queues_prefix_bounds(qs, 0, j);
        lemma_queues_prefix_bounds(qs, j, qs.len() as int);
        assert(qs.take(0) =~= Seq::<SpanQueue>::empty());
        assert(qs.take(qs.len() as int) =~= qs);
    }
}

/// Bucket-table prefix totals grow with the prefix.
proof fn lemma_queues_prefix_bounds(qs: Seq<SpanQueue>, i: int, j: int)
    requires
        0 <= i <= j <= qs.len(),
    ensures
        spec_queues_slices(qs.take(i)) <= spec_queues_slices(qs.take(j)),
    decreases j - i,
{
    if i < j {
        lemma_queues_prefix_bounds(qs, i, j - 1);
        lemma_queues_slices_take(qs, j - 1);
        lemma_span_sum_nonneg(qs[j - 1].spans@);
    }
}

/// A table of empty buckets holds no slices.
pub proof fn lemma_queues_slices_all_empty(qs: Seq<SpanQueue>)
    requires
        forall|b: int| 0 <= b < qs.len() ==> (#[trigger] qs[b]).spans@.len() == 0,
    ensures
        spec_queues_slices(qs) == 0,
    decreases qs.len(),
{
    if qs.len() > 0 {
        lemma_queues_slices_all_empty(qs.drop_last());
    }
}

/// The bucket that keeps spans of `slice_count` slices: the first whose
/// threshold is large enough. Spans in every earlier bucket are
/// strictly shorter than `slice_count`.
pub fn span_bucket_for(slice_count: usize) -> (b: usize)
    requires
        1 <= slice_count <= 1024,
    ensures
        b <= MI_SEGMENT_BIN_MAX,
        spec_span_queue_sizes()[b as int] >= slice_count,
        forall|j: int| 0 <= j < b ==> spec_span_queue_sizes()[j] < slice_count,
{
    let sizes: Vec<usize> = span_queue_sizes();
    let mut b: usize = 0;
    while b < MI_SEGMENT_BIN_MAX
        invariant
            b <= MI_SEGMENT_BIN_MAX,
            sizes@.len() == MI_SEGMENT_BIN_MAX + 1,
            forall|i: int| 0 <= i < sizes@.len() ==> sizes@[i] == spec_span_queue_sizes()[i],
            forall|j: int| 0 <= j < b ==> spec_span_queue_sizes()[j] < slice_count,
        decreases MI_SEGMENT_BIN_MAX - b,
    {
        if sizes[b] >= slice_count {
            return b;
        }
        b += 1;
    }
    proof {
        assert(spec_span_queue_sizes()[MI_SEGMENT_BIN_MAX as int] == 1024);
    }
    b
}

/// The bucket thresholds as a vector, matching `spec_span_queue_sizes`.
pub fn span_queue_sizes() -> (r: Vec<usize>)
    ensures
        r@.len() == MI_SEGMENT_BIN_MAX + 1,
        forall|i: int| 0 <= i < r@.len() ==> r@[i] == spec_span_queue_sizes()[i],
{
    let r: Vec<usize> = vec![
        1, 1, 2, 3, 4, 5, 6, 7, 10, 12, 14, 16, 20, 24, 28, 32, 40, 48, 56, 64, 80, 96, 112,
        128, 160, 192, 224, 256, 320, 384, 448, 512, 640, 768, 896, 1024,
    ];
    r
}

} // verus!
