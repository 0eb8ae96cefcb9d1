//! Statistics counters: a sink of monotonically applied increment and
//! decrement events that the allocator core feeds but never reads back.
use vstd::prelude::*;

verus! {

use crate::bin::MI_BIN_HUGE;

/// A gauge with its running extremes: total allocated, total freed, the
/// peak and the current level.
#[derive(Clone, Copy, Debug, PartialEq, Eq, PartialOrd, Ord, Default)]
pub struct StatCount {
    pub allocated: i64,
    pub freed: i64,
    pub peak: i64,
    pub current: i64,
}

impl StatCount {
    pub open spec fn is_zero(&self) -> bool {
        self.allocated == 0 && self.freed == 0 && self.peak == 0 && self.current == 0
    }

    pub fn new() -> (r: Self)
        ensures
            r.is_zero(),
    {
        Self { allocated: 0, freed: 0, peak: 0, current: 0 }
    }
}

/// A plain event counter: total amount and number of events.
#[derive(Clone, Copy, Debug, PartialEq, Eq, PartialOrd, Ord, Default)]
pub struct StatCounter {
    pub total: i64,
    pub count: i64,
}

impl StatCounter {
    pub open spec fn is_zero(&self) -> bool {
        self.total == 0 && self.count == 0
    }

    pub fn new() -> (r: Self)
        ensures
            r.is_zero(),
    {
        Self { total: 0, count: 0 }
    }
}

/// The full statistics record of one thread-local context.
#[derive(Clone, Debug)]
pub struct Stats {
    pub segments: StatCount,
    pub pages: StatCount,
    pub reserved: StatCount,
    pub committed: StatCounter,
    pub reset: StatCounter,
    pub page_committed: StatCounter,
    pub segments_abandoned: StatCounter,
    pub pages_abandoned: StatCounter,
    pub threads: StatCounter,
    pub normal: StatCounter,
    pub huge: StatCounter,
    pub large: StatCounter,
    pub malloc: StatCounter,
    pub segments_cache: StatCounter,
    pub pages_extended: StatCounter,
    pub mmap_calls: StatCounter,
    pub commit_calls: StatCounter,
    pub page_no_retire: StatCounter,
    pub searches: StatCounter,
    pub normal_count: StatCounter,
    pub huge_count: StatCounter,
    pub large_count: StatCounter,
    /// Per-bin counters for the normal size classes.
    pub normal_bins: Vec<StatCounter>,
}

impl Stats {
    /// All counters zero, one per-bin counter for each bin up to the
    /// huge bin.
    pub open spec fn is_zero(&self) -> bool {
        &&& self.segments.is_zero()
        &&& self.pages.is_zero()
        &&& self.reserved.is_zero()
        &&& self.committed.is_zero()
        &&& self.reset.is_zero()
        &&& self.page_committed.is_zero()
        &&& self.segments_abandoned.is_zero()
        &&& self.pages_abandoned.is_zero()
        &&& self.threads.is_zero()
        &&& self.normal.is_zero()
        &&& self.huge.is_zero()
        &&& self.large.is_zero()
        &&& self.malloc.is_zero()
        &&& self.segments_cache.is_zero()
        &&& self.pages_extended.is_zero()
        &&& self.mmap_calls.is_zero()
        &&& self.commit_calls.is_zero()
        &&& self.page_no_retire.is_zero()
        &&& self.searches.is_zero()
        &&& self.normal_count.is_zero()
        &&& self.huge_count.is_zero()
        &&& self.large_count.is_zero()
        &&& self.normal_bins@.len() == MI_BIN_HUGE + 1
        &&& forall|i: int| 0 <= i < self.normal_bins@.len() ==> self.normal_bins@[i].is_zero()
    }

    pub fn new() -> (r: Self)
        ensures
            r.is_zero(),
    {
        let mut normal_bins: Vec<StatCounter> = Vec::new();
        let mut i: usize = 0;
        while i < MI_BIN_HUGE + 1
            invariant
                i == normal_bins@.len(),
                i <= MI_BIN_HUGE + 1,
                forall|j: int| 0 <= j < i ==> normal_bins@[j].is_zero(),
            decreases MI_BIN_HUGE + 1 - i,
        {
            normal_bins.push(StatCounter::new());
            i += 1;
        }
        Self {
            segments: StatCount::new(),
            pages: StatCount::new(),
            reserved: StatCount::new(),
            committed: StatCounter::new(),
            reset: StatCounter::new(),
            page_committed: StatCounter::new(),
            segments_abandoned: StatCounter::new(),
            pages_abandoned: StatCounter::new(),
            threads: StatCounter::new(),
            normal: StatCounter::new(),
            huge: StatCounter::new(),
            large: StatCounter::new(),
            malloc: StatCounter::new(),
            segments_cache: StatCounter::new(),
            pages_extended: StatCounter::new(),
            mmap_calls: StatCounter::new(),
            commit_calls: StatCounter::new(),
            page_no_retire: StatCounter::new(),
            searches: StatCounter::new(),
            normal_count: StatCounter::new(),
            huge_count: StatCounter::new(),
            large_count: StatCounter::new(),
            normal_bins,
        }
    }
}

} // verus!
