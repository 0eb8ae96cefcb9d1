//! Blocks and free lists.
//!
//! A block is the minimal free-list node: one machine word linking to the
//! next free block in the same list. Blocks carry no identity beyond their
//! position; within a page they are addressed by their index, so a free
//! list is held as a stack of block indices (most recently freed last).
use vstd::prelude::*;

verus! {

/// The free lists use encoded next fields.
/// (Only actually encodes when the free list is configured encoded.)
pub type mi_encoded_t = usize;

/// Used as a special value to encode block sizes in 32 bits: 2GiB.
pub const MI_HUGE_BLOCK_SIZE: u32 = 2147483648;

/// Free lists contain blocks.
#[derive(Debug, Copy, Clone)]
pub struct mi_block_s {
    pub next: mi_encoded_t,
}

impl mi_block_s {
    pub fn new() -> (r: Self)
        ensures
            r.next == 0,
    {
        Self { next: 0 }
    }
}

pub type mi_block_t = mi_block_s;

/// A list of free blocks of one page, viewed as the sequence of their
/// block indices in push order. Push and pop are O(1) at the tail;
/// splicing moves a whole list in one step.
pub struct FreeList {
    blocks: Vec<usize>,
}

impl View for FreeList {
    type V = Seq<usize>;

    closed spec fn view(&self) -> Seq<usize> {
        self.blocks@
    }
}

impl FreeList {
    pub fn new() -> (r: Self)
        ensures
            r@ =~= Seq::<usize>::empty(),
    {
        FreeList { blocks: Vec::new() }
    }

    pub fn len(&self) -> (n: usize)
        ensures
            n == self@.len(),
    {
        self.blocks.len()
    }

    pub fn is_empty(&self) -> (r: bool)
        ensures
            r == (self@.len() == 0),
    {
        self.blocks.len() == 0
    }

    /// Push a freed block onto the list.
    pub fn push(&mut self, block: usize)
        ensures
            final(self)@ == old(self)@.push(block),
    {
        self.blocks.push(block);
    }

    /// Pop the most recently pushed block, if any.
    pub fn pop(&mut self) -> (r: Option<usize>)
        ensures
            old(self)@.len() == 0 ==> r is None && final(self)@ == old(self)@,
            old(self)@.len() > 0 ==> r == Some(old(self)@.last()) && final(self)@ == old(
                self,
            )@.drop_last(),
    {
        self.blocks.pop()
    }

    /// Splice another list's blocks onto this one, draining it: an O(1)
    /// pointer splice in the linked representation.
    pub fn splice_from(&mut self, other: &mut FreeList)
        ensures
            final(self)@ == old(self)@ + old(other)@,
            final(other)@ =~= Seq::<usize>::empty(),
    {
        self.blocks.append(&mut other.blocks);
    }

    /// The block at a position, counting from the list head.
    pub fn get(&self, i: usize) -> (r: usize)
        requires
            i < self@.len(),
        ensures
            r == self@[i as int],
    {
        self.blocks[i]
    }
}

} // verus!
