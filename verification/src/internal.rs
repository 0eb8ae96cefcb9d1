//! Bit-scan and alignment helpers used throughout the allocator, together
//! with the base-2 logarithm spec they are specified against.
use vstd::prelude::*;

verus! {

use vstd::arithmetic::power2::{pow2, lemma_pow2_adds, lemma_pow2_pos, lemma2_to64,
    lemma2_to64_rest, lemma_pow2_strictly_increases};
use vstd::arithmetic::div_mod::lemma_fundamental_div_mod;
use vstd::bits::low_bits_mask;
use vstd::std_specs::bits::{u64_leading_zeros, u64_trailing_zeros};
use crate::constants::MI_INTPTR_BITS;

/// Floor of the base-2 logarithm; 0 for inputs 0 and 1.
pub open spec fn lg(n: nat) -> nat
    decreases n,
{
    if n <= 1 {
        0
    } else {
        1 + lg(n / 2)
    }
}

/// `lg` really is the floor of the base-2 logarithm:
/// `pow2(lg(n)) <= n < pow2(lg(n) + 1)` for positive `n`.
pub proof fn lemma_lg_pow2(n: nat)
    requires
        n >= 1,
    ensures
        pow2(lg(n)) <= n < pow2(lg(n) + 1),
    decreases n,
{
    if n <= 1 {
        lemma2_to64();
    } else {
        lemma_lg_pow2(n / 2);
        lemma_fundamental_div_mod(n as int, 2);
        lemma_pow2_adds(lg(n / 2), 1);
        lemma_pow2_adds(lg(n / 2) + 1, 1);
        lemma2_to64();
    }
}

/// `lg` is monotone.
pub proof fn lemma_lg_ordered(a: nat, b: nat)
    requires
        1 <= a <= b,
    ensures
        lg(a) <= lg(b),
    decreases b,
{
    if a <= 1 {
    } else {
        lemma_fundamental_div_mod(a as int, 2);
        lemma_fundamental_div_mod(b as int, 2);
        lemma_lg_ordered(a / 2, b / 2);
    }
}

/// `lg(n)` is the unique `k` with `pow2(k) <= n < pow2(k + 1)`.
pub proof fn lemma_lg_unique(n: nat, k: nat)
    requires
        pow2(k) <= n < pow2(k + 1),
    ensures
        lg(n) == k,
{
    lemma_pow2_pos(k);
    lemma_lg_pow2(n);
    if lg(n) < k {
        lemma_pow2_strictly_increases(lg(n) + 1, k + 1);
        if lg(n) + 1 < k {
            lemma_pow2_strictly_increases(lg(n) + 1, k);
        }
        assert(pow2(lg(n) + 1) <= pow2(k));
        assert(false);
    }
    if lg(n) > k {
        if k + 1 < lg(n) {
            lemma_pow2_strictly_increases(k + 1, lg(n));
        }
        assert(pow2(k + 1) <= pow2(lg(n)));
        assert(false);
    }
}

/// The count of leading zeros of a positive 64-bit value determines `lg`.
proof fn lemma_leading_zeros_lg(i: u64)
    requires
        i > 0,
    ensures
        u64_leading_zeros(i) == 63 - lg(i as nat),
    decreases i,
{
    reveal_with_fuel(u64_leading_zeros, 2);
    if i == 1 {
    } else {
        lemma_leading_zeros_lg(i / 2);
    }
}

/// A positive word whose low bits vanish under `value & (value - 1)` is a
/// power of two, namely `pow2(lg(value))`, and that exponent is a valid
/// shift amount.
pub proof fn lemma_mask_test_is_pow2(a: usize)
    requires
        a >= 1,
        a & ((a - 1) as usize) == 0,
    ensures
        a == pow2(lg(a as nat)),
        lg(a as nat) < usize::BITS,
    decreases a,
{
    if a == 1 {
        lemma2_to64();
    } else {
        assert(a % 2 == 0 && a / 2 >= 1 && (a / 2) & ((a / 2 - 1) as usize) == 0) by (bit_vector)
            requires
                a >= 2,
                a & ((a - 1) as usize) == 0,
        ;
        lemma_mask_test_is_pow2(a / 2);
        lemma_pow2_adds(lg((a / 2) as nat), 1);
        lemma2_to64();
        assert(a == 2 * (a / 2));
        assert(lg(a as nat) == 1 + lg((a / 2) as nat));
        if lg(a as nat) >= usize::BITS {
            lemma2_to64_rest();
            if lg(a as nat) > usize::BITS {
                lemma_pow2_strictly_increases(usize::BITS as nat, lg(a as nat));
            }
            assert(pow2(usize::BITS as nat) <= pow2(lg(a as nat)));
            assert(false);
        }
    }
}

/// Count of leading zero bits of a machine word; the full word width for 0.
pub fn mi_clz(x: usize) -> (r: usize)
    ensures
        x == 0 ==> r == MI_INTPTR_BITS,
        x != 0 ==> r == 63 - lg(x as nat),
{
    if x == 0 {
        return MI_INTPTR_BITS;
    }
    proof {
        lemma_leading_zeros_lg(x as u64);
    }
    (x as u64).leading_zeros() as usize
}

/// Count of trailing zero bits of a machine word; the full word width for 0.
pub fn mi_ctz(x: usize) -> (r: usize)
    ensures
        r == u64_trailing_zeros(x as u64),
{
    if x == 0 {
        proof {
            vstd::std_specs::bits::axiom_u64_trailing_zeros(x as u64);
        }
        return MI_INTPTR_BITS;
    }
    (x as u64).trailing_zeros() as usize
}

/// Index of the highest set bit ("bit scan reverse"); the word width for 0.
pub fn mi_bsr(x: usize) -> (r: usize)
    ensures
        x == 0 ==> r == MI_INTPTR_BITS,
        x != 0 ==> r == lg(x as nat),
{
    if x == 0 {
        MI_INTPTR_BITS
    } else {
        proof {
            lemma_leading_zeros_lg(x as u64);
        }
        MI_INTPTR_BITS - 1 - mi_clz(x)
    }
}

/// `sz` rounded up to the nearest multiple of `alignment`.
pub open spec fn spec_align_up(sz: int, alignment: int) -> int {
    ((sz + alignment - 1) / alignment) * alignment
}

/// `sz` rounded down to the nearest multiple of `alignment`.
pub open spec fn spec_align_down(sz: int, alignment: int) -> int {
    (sz / alignment) * alignment
}

/// Rounding up to a positive alignment lands on a multiple of it, at or
/// above the start value and less than one alignment further.
pub proof fn lemma_align_up_bounds(sz: int, alignment: int)
    requires
        sz >= 0,
        alignment >= 1,
    ensures
        sz <= spec_align_up(sz, alignment) < sz + alignment,
        spec_align_up(sz, alignment) % alignment == 0,
{
    let t = sz + alignment - 1;
    lemma_fundamental_div_mod(t, alignment);
    vstd::arithmetic::mul::lemma_mul_is_commutative(t / alignment, alignment);
    assert(spec_align_up(sz, alignment) == t - t % alignment);
    vstd::arithmetic::div_mod::lemma_mod_division_less_than_divisor(t, alignment);
    vstd::arithmetic::div_mod::lemma_mod_multiples_basic(t / alignment, alignment);
}

/// Rounding down to a positive alignment lands on a multiple of it, at
/// or below the start value and less than one alignment back.
pub proof fn lemma_align_down_bounds(sz: int, alignment: int)
    requires
        sz >= 0,
        alignment >= 1,
    ensures
        sz - alignment < spec_align_down(sz, alignment) <= sz,
        spec_align_down(sz, alignment) >= 0,
        spec_align_down(sz, alignment) % alignment == 0,
{
    lemma_fundamental_div_mod(sz, alignment);
    vstd::arithmetic::mul::lemma_mul_is_commutative(sz / alignment, alignment);
    vstd::arithmetic::div_mod::lemma_mod_division_less_than_divisor(sz, alignment);
    vstd::arithmetic::div_mod::lemma_mod_multiples_basic(sz / alignment, alignment);
}

/// Rounding up a value that is already a multiple of the alignment
/// leaves it unchanged; hence rounding up is idempotent.
pub proof fn lemma_align_up_idempotent(sz: int, alignment: int)
    requires
        sz >= 0,
        alignment >= 1,
        sz % alignment == 0,
    ensures
        spec_align_up(sz, alignment) == sz,
{
    lemma_fundamental_div_mod(sz, alignment);
    vstd::arithmetic::div_mod::lemma_div_multiples_vanish_fancy(
        sz / alignment,
        alignment - 1,
        alignment,
    );
    vstd::arithmetic::mul::lemma_mul_is_commutative(sz / alignment, alignment);
}

/// Align upwards.
pub fn _mi_align_up(sz: usize, alignment: usize) -> (r: usize)
    requires
        alignment >= 1,
        sz + alignment - 1 <= usize::MAX,
    ensures
        r == spec_align_up(sz as int, alignment as int),
{
    let mask: usize = alignment - 1;
    let t: usize = sz + mask;
    if (alignment & mask) == 0 {
        // power of two?
        proof {
            lemma_mask_test_is_pow2(alignment);
            let k = lg(alignment as nat);
            assert(mask == low_bits_mask(k) as usize);
            vstd::bits::lemma_usize_low_bits_mask_is_mod(t, k);
            assert((t & !mask) + (t & mask) == t) by (bit_vector);
            lemma_fundamental_div_mod(t as int, alignment as int);
            vstd::arithmetic::mul::lemma_mul_is_commutative(
                t as int / alignment as int,
                alignment as int,
            );
        }
        t & !mask
    } else {
        proof {
            lemma_fundamental_div_mod(t as int, alignment as int);
            vstd::arithmetic::div_mod::lemma_mod_division_less_than_divisor(
                t as int,
                alignment as int,
            );
            vstd::arithmetic::mul::lemma_mul_is_commutative(
                t as int / alignment as int,
                alignment as int,
            );
        }
        (t / alignment) * alignment
    }
}

/// Align downwards.
pub fn _mi_align_down(sz: usize, alignment: usize) -> (r: usize)
    requires
        alignment >= 1,
    ensures
        r == spec_align_down(sz as int, alignment as int),
{
    let mask: usize = alignment - 1;
    if (alignment & mask) == 0 {
        // power of two?
        proof {
            lemma_mask_test_is_pow2(alignment);
            let k = lg(alignment as nat);
            assert(mask == low_bits_mask(k) as usize);
            vstd::bits::lemma_usize_low_bits_mask_is_mod(sz, k);
            assert((sz & !mask) + (sz & mask) == sz) by (bit_vector);
            lemma_fundamental_div_mod(sz as int, alignment as int);
            vstd::arithmetic::mul::lemma_mul_is_commutative(
                sz as int / alignment as int,
                alignment as int,
            );
        }
        sz & !mask
    } else {
        proof {
            lemma_fundamental_div_mod(sz as int, alignment as int);
            vstd::arithmetic::div_mod::lemma_mod_division_less_than_divisor(
                sz as int,
                alignment as int,
            );
            vstd::arithmetic::mul::lemma_mul_is_commutative(
                sz as int / alignment as int,
                alignment as int,
            );
        }
        (sz / alignment) * alignment
    }
}

/// Divide upwards: `size <= _mi_divide_up(size, divider) * divider < size + divider`.
pub fn _mi_divide_up(size: usize, divider: usize) -> (r: usize)
    requires
        divider >= 1,
        size + divider <= usize::MAX,
    ensures
        r == (size + divider - 1) / (divider as int),
        size <= r * divider < size + divider,
{
    proof {
        let t = size + divider - 1;
        lemma_fundamental_div_mod(t as int, divider as int);
        vstd::arithmetic::div_mod::lemma_mod_division_less_than_divisor(
            t as int,
            divider as int,
        );
        vstd::arithmetic::mul::lemma_mul_is_commutative(
            t as int / divider as int,
            divider as int,
        );
    }
    if divider == 0 {
        size
    } else {
        (size + divider - 1) / divider
    }
}

/// Is the memory range zero initialized?
pub fn mi_mem_is_zero(p: &[u8]) -> (r: bool)
    ensures
        r <==> (forall|i: int| 0 <= i < p@.len() ==> p@[i] == 0),
{
    let mut i: usize = 0;
    while i < p.len()
        invariant
            0 <= i <= p@.len(),
            forall|j: int| 0 <= j < i ==> p@[j] == 0,
        decreases p@.len() - i,
    {
        if p[i] != 0 {
            return false;
        }
        i += 1;
    }
    true
}

/// Thread free access: the list of blocks of a page freed by other
/// threads (the tagged word without its flag bits).
#[inline(always)]
pub fn mi_page_thread_free(page: &crate::page::mi_page_t) -> (r: &crate::block::FreeList)
    ensures
        r@ == page.xthread_free.list@,
{
    crate::page::mi_page_s::thread_free(page)
}

/// The delayed-free flag carried in the tag bits of a page's
/// thread-free word.
#[inline(always)]
pub fn mi_page_thread_free_flag(page: &crate::page::mi_page_t) -> (r: crate::thread::mi_delayed_t)
    ensures
        r == page.xthread_free.flag,
{
    crate::page::mi_page_s::thread_free_flag(page)
}

/// Heap access: the owning heap of a page.
#[inline(always)]
pub fn mi_page_heap(page: &crate::page::mi_page_t) -> (r: Option<usize>)
    ensures
        r == page.xheap,
{
    crate::page::mi_page_s::heap(page)
}

/// Change a page's owning heap; not during a delayed-free registration.
#[inline(always)]
pub fn mi_page_set_heap(page: &mut crate::page::mi_page_t, heap: Option<usize>)
    requires
        old(page).xthread_free.flag != crate::thread::mi_delayed_e::MI_DELAYED_FREEING,
    ensures
        *final(page) == (crate::page::mi_page_s { xheap: heap, ..*old(page) }),
{
    crate::page::mi_page_s::set_heap(page, heap)
}

/// Align a byte size to a size in machine words, i.e.
/// byte size == `wsize * MI_INTPTR_SIZE`.
pub fn _mi_wsize_from_size(size: usize) -> (r: usize)
    requires
        size <= usize::MAX - 8,
    ensures
        r == (size + 7) / 8,
{
    (size + crate::constants::MI_INTPTR_SIZE - 1) / crate::constants::MI_INTPTR_SIZE
}

} // verus!
