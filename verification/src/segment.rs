//! Segments: large OS-backed regions subdivided into fixed-size slices,
//! hosting the pages that serve allocations. Commit state is tracked per
//! commit-unit in a fixed-width bitmask, so partially committed segments
//! need no byte-level scanning.
use vstd::prelude::*;

verus! {

use crate::page::mi_slice_t;

// Main tuning parameters for segment sizes.
// Sizes for 64-bit (usually divide by two for 32-bit).
/// log2 of the slice size: 64KiB slices.
pub const MI_SEGMENT_SLICE_SHIFT: usize = 16;

/// Count of span-queue buckets; the bucket index of a full segment-sized
/// span.
pub const MI_SEGMENT_BIN_MAX: usize = 35;

/// log2 of a normal segment's size: 64MiB.
pub const MI_SEGMENT_SHIFT: usize = 26;

// Derived constants.
/// Size of a normal segment: 64MiB.
pub const MI_SEGMENT_SIZE: usize = 64 * 1024 * 1024;

pub const MI_SEGMENT_ALIGN: usize = MI_SEGMENT_SIZE;

pub const MI_SEGMENT_MASK: usize = MI_SEGMENT_SIZE - 1;

/// Size of one slice: 64KiB.
pub const MI_SEGMENT_SLICE_SIZE: usize = 64 * 1024;

/// Slices in a normal segment: 1024.
pub const MI_SLICES_PER_SEGMENT: usize = 1024;

pub enum mi_segment_kind_e {
    /// A segment of the standard size with pages inside.
    MI_SEGMENT_NORMAL,
    /// A segment with just one huge page inside.
    MI_SEGMENT_HUGE,
}

pub type mi_segment_kind_t = mi_segment_kind_e;

// A segment holds a commit mask where a bit is set if the corresponding
// MI_COMMIT_SIZE area is committed. The MI_COMMIT_SIZE must be a
// multiple of the slice size; if equal we have the most fine-grained
// decommit. MI_MINIMAL_COMMIT_SIZE is the minimal amount committed in
// one go, which can be set higher than MI_COMMIT_SIZE for efficiency
// (while the decommit mask is still tracked per MI_COMMIT_SIZE chunk).
pub const MI_MINIMAL_COMMIT_SIZE: usize = 2 * 1024 * 1024;

/// One commit unit: 64KiB.
pub const MI_COMMIT_SIZE: usize = MI_SEGMENT_SLICE_SIZE;

pub const MI_COMMIT_MASK_BITS: usize = 1024;

pub const MI_COMMIT_MASK_FIELD_BITS: usize = 64;

pub const MI_COMMIT_MASK_FIELD_COUNT: usize = 16;

/// The per-commit-unit bitmask: bit `i` says whether the `i`-th
/// commit-unit of the segment is committed.
pub struct mi_commit_mask_s {
    pub mask: Vec<u64>,
}

pub type mi_commit_mask_t = mi_commit_mask_s;

impl mi_commit_mask_s {
    /// The mask has its fixed width.
    pub open spec fn wf(&self) -> bool {
        self.mask@.len() == MI_COMMIT_MASK_FIELD_COUNT
    }

    /// Whether bit `i` of the mask is set.
    pub open spec fn spec_bit(&self, i: int) -> bool {
        (self.mask@[i / 64] >> (i % 64) as u64) & 1u64 == 1u64
    }

    /// The all-clear mask.
    pub fn new() -> (r: Self)
        ensures
            r.wf(),
            forall|i: int| 0 <= i < MI_COMMIT_MASK_BITS ==> !r.spec_bit(i),
    {
        let mut mask: Vec<u64> = Vec::new();
        let mut i: usize = 0;
        while i < MI_COMMIT_MASK_FIELD_COUNT
            invariant
                i == mask@.len(),
                i <= MI_COMMIT_MASK_FIELD_COUNT,
                forall|j: int| 0 <= j < i ==> mask@[j] == 0u64,
            decreases MI_COMMIT_MASK_FIELD_COUNT - i,
        {
            mask.push(0);
            i += 1;
        }
        let r = Self { mask };
        proof {
            assert forall|i: int| 0 <= i < MI_COMMIT_MASK_BITS implies !r.spec_bit(i) by {
                let k = (i % 64) as u64;
                assert((0u64 >> k) & 1u64 == 0u64) by (bit_vector);
            }
        }
        r
    }

    /// Read bit `idx`.
    pub fn is_bit_set(&self, idx: usize) -> (r: bool)
        requires
            self.wf(),
            idx < MI_COMMIT_MASK_BITS,
        ensures
            r == self.spec_bit(idx as int),
    {
        (self.mask[idx / 64] >> ((idx % 64) as u64)) & 1 == 1
    }

    /// Set bit `idx`, leaving every other bit as it was.
    pub fn set_bit(&mut self, idx: usize)
        requires
            old(self).wf(),
            idx < MI_COMMIT_MASK_BITS,
        ensures
            final(self).wf(),
            final(self).spec_bit(idx as int),
            forall|j: int|
                0 <= j < MI_COMMIT_MASK_BITS && j != idx ==> final(self).spec_bit(j) == old(
                    self,
                ).spec_bit(j),
    {
        let w: usize = idx / 64;
        let k: u64 = (idx % 64) as u64;
        let v: u64 = self.mask[w] | (1u64 << k);
        self.mask.set(w, v);
        proof {
            let m0 = old(self).mask@[w as int];
            assert(k < 64 ==> ((m0 | (1u64 << k)) >> k) & 1u64 == 1u64) by (bit_vector);
            assert forall|j: int|
                0 <= j < MI_COMMIT_MASK_BITS && j != idx implies final(self).spec_bit(j) == old(
                self,
            ).spec_bit(j) by {
                if j / 64 == w as int {
                    let kj = (j % 64) as u64;
                    assert(kj != k) by {
                        vstd::arithmetic::div_mod::lemma_fundamental_div_mod(j, 64);
                        vstd::arithmetic::div_mod::lemma_fundamental_div_mod(idx as int, 64);
                    }
                    assert(k < 64 && kj < 64 && kj != k ==> ((m0 | (1u64 << k)) >> kj) & 1u64 == (
                    m0 >> kj) & 1u64) by (bit_vector);
                }
            }
        }
    }

    /// Clear bit `idx`, leaving every other bit as it was.
    pub fn clear_bit(&mut self, idx: usize)
        requires
            old(self).wf(),
            idx < MI_COMMIT_MASK_BITS,
        ensures
            final(self).wf(),
            !final(self).spec_bit(idx as int),
            forall|j: int|
                0 <= j < MI_COMMIT_MASK_BITS && j != idx ==> final(self).spec_bit(j) == old(
                    self,
                ).spec_bit(j),
    {
        let w: usize = idx / 64;
        let k: u64 = (idx % 64) as u64;
        let v: u64 = self.mask[w] & !(1u64 << k);
        self.mask.set(w, v);
        proof {
            let m0 = old(self).mask@[w as int];
            assert(k < 64 ==> ((m0 & !(1u64 << k)) >> k) & 1u64 == 0u64) by (bit_vector);
            assert forall|j: int|
                0 <= j < MI_COMMIT_MASK_BITS && j != idx implies final(self).spec_bit(j) == old(
                self,
            ).spec_bit(j) by {
                if j / 64 == w as int {
                    let kj = (j % 64) as u64;
                    assert(kj != k) by {
                        vstd::arithmetic::div_mod::lemma_fundamental_div_mod(j, 64);
                        vstd::arithmetic::div_mod::lemma_fundamental_div_mod(idx as int, 64);
                    }
                    assert(k < 64 && kj < 64 && kj != k ==> ((m0 & !(1u64 << k)) >> kj) & 1u64 == (
                    m0 >> kj) & 1u64) by (bit_vector);
                }
            }
        }
    }
}

/// Segments are large allocated memory blocks from the OS. Inside
/// segments we allocate fixed-size pages that contain blocks.
pub struct mi_segment_s {
    /// Memory id for arena allocation.
    pub memid: usize,
    /// True if we cannot decommit/reset/protect in this memory (when
    /// allocated using large OS pages).
    pub mem_is_pinned: bool,
    /// In large/huge OS pages?
    pub mem_is_large: bool,
    /// True if the whole segment is eagerly committed.
    pub mem_is_committed: bool,
    pub allow_decommit: bool,
    pub decommit_expire: i64,
    pub decommit_mask: mi_commit_mask_t,
    pub commit_mask: mi_commit_mask_t,
    /// Link in the abandoned-segment list.
    pub abandoned_next: Option<usize>,
    /// The list of freed segments in the cache.
    pub next: Option<usize>,
    /// Abandoned pages (the original owning thread stopped);
    /// `abandoned <= used`.
    pub abandoned: usize,
    /// How often this segment was visited in the abandoned list (to
    /// force a reclaim if it is visited too long).
    pub abandoned_visits: usize,
    /// Count of pages in use.
    pub used: usize,
    /// Verifies addresses in a checked build.
    pub cookie: usize,
    /// For huge segments this may differ from `MI_SLICES_PER_SEGMENT`.
    pub segment_slices: usize,
    /// Initial slices used for the segment info and possible guard pages.
    pub segment_info_slices: usize,
    pub kind: mi_segment_kind_t,
    /// Id of the thread owning this segment; `None` once relinquished.
    pub thread_id: Option<usize>,
    /// Entries in the `slices` table, at most `MI_SLICES_PER_SEGMENT`.
    pub slice_entries: usize,
    /// The slice table; the entry at a page's first slice carries that
    /// page.
    pub slices: Vec<mi_slice_t>,
    /// Start address of the OS region backing this segment.
    pub base: usize,
}

pub type mi_segment_t = mi_segment_s;

impl mi_segment_s {
    /// Counters and tables are in range: a segment never has more
    /// abandoned pages than pages in use, and its slice count is bounded.
    pub open spec fn wf(&self) -> bool {
        &&& self.abandoned <= self.used
        &&& self.segment_slices <= MI_SLICES_PER_SEGMENT
        &&& self.slice_entries <= MI_SLICES_PER_SEGMENT
        &&& self.commit_mask.wf()
        &&& self.decommit_mask.wf()
    }

    /// Size of a segment in bytes.
    #[inline(always)]
    pub fn mi_segment_size(segment: &mi_segment_t) -> (r: usize)
        requires
            segment.wf(),
        ensures
            r == segment.segment_slices * MI_SEGMENT_SLICE_SIZE,
    {
        proof {
            assert(segment.segment_slices * MI_SEGMENT_SLICE_SIZE <= 1024 * 65536)
                by (nonlinear_arith)
                requires
                    segment.segment_slices <= 1024,
            ;
        }
        segment.segment_slices * MI_SEGMENT_SLICE_SIZE
    }

    /// One past the last address of the segment's backing region.
    #[inline(always)]
    pub fn mi_segment_end(segment: &mi_segment_t) -> (r: usize)
        requires
            segment.wf(),
            segment.base + segment.segment_slices * MI_SEGMENT_SLICE_SIZE <= usize::MAX,
        ensures
            r == segment.base + segment.segment_slices * MI_SEGMENT_SLICE_SIZE,
    {
        segment.base + Self::mi_segment_size(segment)
    }

    /// Resolve a pointer to the base address of the segment it lies in:
    /// segments are aligned to their own size.
    pub fn mi_segment_base_of(p: usize) -> (r: usize)
        ensures
            r == crate::internal::spec_align_down(p as int, MI_SEGMENT_SIZE as int),
            r <= p,
    {
        proof {
            crate::internal::lemma_align_down_bounds(p as int, MI_SEGMENT_SIZE as int);
        }
        crate::internal::_mi_align_down(p, MI_SEGMENT_SIZE)
    }

    /// Resolve a pointer to the index of the slice it falls into within
    /// its segment.
    pub fn mi_slice_index_of(p: usize) -> (r: usize)
        ensures
            r == ((p as int) % (MI_SEGMENT_SIZE as int)) / (MI_SEGMENT_SLICE_SIZE as int),
            r < MI_SLICES_PER_SEGMENT,
    {
        proof {
            vstd::arithmetic::div_mod::lemma_mod_bound(p as int, MI_SEGMENT_SIZE as int);
            vstd::arithmetic::div_mod::lemma_multiply_divide_lt(
                (p as int) % (MI_SEGMENT_SIZE as int),
                MI_SEGMENT_SLICE_SIZE as int,
                MI_SLICES_PER_SEGMENT as int,
            );
            vstd::arithmetic::div_mod::lemma_div_pos_is_pos(
                (p as int) % (MI_SEGMENT_SIZE as int),
                MI_SEGMENT_SLICE_SIZE as int,
            );
        }
        (p % MI_SEGMENT_SIZE) / MI_SEGMENT_SLICE_SIZE
    }

    /// A page of this segment is abandoned by its exiting owner: it
    /// stays in use, pending reclaim by any thread.
    pub fn mark_page_abandoned(&mut self)
        requires
            old(self).wf(),
            old(self).abandoned < old(self).used,
        ensures
            final(self).wf(),
            *final(self) == (mi_segment_s { abandoned: (old(self).abandoned + 1) as usize, ..*old(self) }),
    {
        self.abandoned = self.abandoned + 1;
    }

    /// A previously abandoned page of this segment is reclaimed by a
    /// thread.
    pub fn mark_page_reclaimed(&mut self)
        requires
            old(self).wf(),
            old(self).abandoned >= 1,
        ensures
            final(self).wf(),
            *final(self) == (mi_segment_s { abandoned: (old(self).abandoned - 1) as usize, ..*old(self) }),
    {
        self.abandoned = self.abandoned - 1;
    }

    /// All live pages of this segment are abandoned: the segment itself
    /// can go onto the abandoned-segment list for opportunistic reclaim.
    pub fn is_all_abandoned(&self) -> (r: bool)
        ensures
            r == (self.abandoned == self.used),
    {
        self.abandoned == self.used
    }
}

} // verus!
