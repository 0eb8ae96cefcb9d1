//! Page queues: per-bin doubly linked lists of a heap's pages sharing one
//! size class, here held as ordered lists of page ids.
use vstd::prelude::*;

verus! {

use crate::bin::{MI_BIN_FULL, spec_bin};
use crate::page::{mi_page_s, MI_MEDIUM_OBJ_SIZE_MAX};

/// Pages of a certain block size are held in a queue, owned by exactly
/// one heap. The ids appear in recency order, most recently used first.
pub struct mi_page_queue_s {
    pub pages: Vec<usize>,
    pub block_size: usize,
}

pub type mi_page_queue_t = mi_page_queue_s;

impl mi_page_queue_s {
    pub fn new(block_size: usize) -> (r: Self)
        ensures
            r.pages@.len() == 0,
            r.block_size == block_size,
    {
        Self { pages: Vec::new(), block_size }
    }

    /// Link a page at the head of the queue.
    pub fn push_front(&mut self, page_id: usize)
        ensures
            final(self).pages@ == seq![page_id] + old(self).pages@,
            final(self).block_size == old(self).block_size,
    {
        self.pages.insert(0, page_id);
        proof {
            assert(self.pages@ =~= seq![page_id] + old(self).pages@);
        }
    }

    /// Unlink a page wherever it stands in the queue; leaves the queue
    /// unchanged when the page is not in it. A queue holds each page at
    /// most once, so afterwards the page is gone.
    pub fn remove_page(&mut self, page_id: usize) -> (found: bool)
        requires
            old(self).pages@.no_duplicates(),
        ensures
            final(self).block_size == old(self).block_size,
            final(self).pages@.no_duplicates(),
            found == old(self).pages@.contains(page_id),
            !final(self).pages@.contains(page_id),
            !found ==> final(self).pages@ == old(self).pages@,
            found ==> final(self).pages@.len() == old(self).pages@.len() - 1,
            forall|x: usize|
                x != page_id ==> (final(self).pages@.contains(x) == old(self).pages@.contains(x)),
    {
        let mut i: usize = 0;
        while i < self.pages.len()
            invariant
                i <= self.pages@.len(),
                self.pages@ == old(self).pages@,
                old(self).pages@.no_duplicates(),
                self.block_size == old(self).block_size,
                forall|j: int| 0 <= j < i ==> self.pages@[j] != page_id,
            decreases self.pages@.len() - i,
        {
            if self.pages[i] == page_id {
                self.pages.remove(i);
                proof {
                    lemma_remove_at(old(self).pages@, i as int, page_id);
                }
                return true;
            }

            i += 1;
        }
        proof {
            assert(!old(self).pages@.contains(page_id));
        }
        false
    }
}

/// Removing the one occurrence of an element of a duplicate-free
/// sequence removes it for good and keeps every other element's
/// membership.
proof fn lemma_remove_at(s: Seq<usize>, i: int, v: usize)
    requires
        0 <= i < s.len(),
        s[i] == v,
        s.no_duplicates(),
    ensures
        s.contains(v),
        s.remove(i).len() == s.len() - 1,
        s.remove(i).no_duplicates(),
        !s.remove(i).contains(v),
        forall|x: usize| x != v ==> (#[trigger] s.remove(i).contains(x) == s.contains(x)),
{
    let t = s.remove(i);
    assert forall|j: int, k: int|
        0 <= j < t.len() && 0 <= k < t.len() && j != k implies t[j] != t[k] by {
        let j2 = if j < i { j } else { j + 1 };
        let k2 = if k < i { k } else { k + 1 };
        assert(t[j] == s[j2] && t[k] == s[k2]);
    }
    assert forall|j: int| 0 <= j < t.len() implies t[j] != v by {
        if j < i {
            assert(t[j] == s[j]);
        } else {
            assert(t[j] == s[j + 1]);
        }
    }
    assert forall|x: usize| x != v implies (#[trigger] t.contains(x) == s.contains(x)) by {
        if t.contains(x) {
            let j = choose|j: int| 0 <= j < t.len() && t[j] == x;
            if j < i {
                assert(s[j] == x);
            } else {
                assert(s[j + 1] == x);
            }
        }
        if s.contains(x) {
            let j = choose|j: int| 0 <= j < s.len() && s[j] == x;
            if j < i {
                assert(t[j] == x);
            } else {
                assert(j > i);
                assert(t[j - 1] == x);
            }
        }
    }
}

/// Does this queue hold the pages whose free lists ran empty?
#[inline(always)]
pub fn mi_page_queue_is_huge(pq: &mi_page_queue_s) -> (r: bool)
    ensures
        r == (pq.block_size == MI_MEDIUM_OBJ_SIZE_MAX + 8),
{
    pq.block_size == MI_MEDIUM_OBJ_SIZE_MAX + 8
}

#[inline(always)]
pub fn mi_page_queue_is_full(pq: &mi_page_queue_s) -> (r: bool)
    ensures
        r == (pq.block_size == MI_MEDIUM_OBJ_SIZE_MAX + 2 * 8),
{
    pq.block_size == MI_MEDIUM_OBJ_SIZE_MAX + 2 * 8
}

#[inline(always)]
pub fn mi_page_queue_is_special(pq: &mi_page_queue_s) -> (r: bool)
    ensures
        r == (pq.block_size > MI_MEDIUM_OBJ_SIZE_MAX),
{
    pq.block_size > MI_MEDIUM_OBJ_SIZE_MAX
}

/// Is the page linked into this queue?
pub fn mi_page_queue_contains(queue: &mi_page_queue_s, page: usize) -> (r: bool)
    ensures
        r == queue.pages@.contains(page),
{
    let mut i: usize = 0;
    while i < queue.pages.len()
        invariant
            i <= queue.pages@.len(),
            forall|j: int| 0 <= j < i ==> queue.pages@[j] != page,
        decreases queue.pages@.len() - i,
    {
        if queue.pages[i] == page {
            return true;
        }
        i += 1;
    }
    false
}

/// The bin index of the queue an owned page belongs to in its heap's
/// queue table: the full queue for pages marked full, else the bin of
/// the page's block size.
pub fn mi_page_queue_of(page: &mi_page_s) -> (bin: usize)
    requires
        page.xheap is Some,
        page.xblock_size as int <= MI_MEDIUM_OBJ_SIZE_MAX as int + 16,
    ensures
        page.flags.x.in_full ==> bin == MI_BIN_FULL,
        !page.flags.x.in_full ==> bin == spec_bin(page.xblock_size as int),
{
    if mi_page_s::is_in_full(page) {
        MI_BIN_FULL
    } else {
        crate::bin::mi_bin(page.xblock_size as usize) as usize
    }
}

} // verus!
