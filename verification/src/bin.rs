//! Size classing: the map from a requested byte size to a bin (size class)
//! index, its inverse giving each bin's representative block size, and the
//! `good_size` rounding function, together with the laws they obey:
//! totality and bounds, fit (a bin's block size covers every size mapped to
//! it), monotonicity, and idempotence of `good_size`.
use vstd::prelude::*;

verus! {

use vstd::arithmetic::power2::{pow2, lemma_pow2_adds, lemma_pow2_pos, lemma2_to64};
use vstd::arithmetic::div_mod::{lemma_fundamental_div_mod, lemma_fundamental_div_mod_converse,
    lemma_div_is_ordered, lemma_div_multiples_vanish, lemma_multiply_divide_lt};
use vstd::bits::{lemma_usize_shl_is_mul, lemma_usize_shr_is_div,
    lemma_usize_low_bits_mask_is_mod, lemma_low_bits_mask_values, low_bits_mask};
use crate::constants::{MI_ALIGN2W, MI_ALIGN4W, MI_ALIGNMENT};
use crate::internal::{_mi_wsize_from_size, mi_bsr, lg, lemma_lg_pow2, lemma_lg_ordered,
    lemma_lg_unique, spec_align_up, lemma_align_up_bounds, lemma_align_up_idempotent,
    _mi_align_up};
use crate::os::{_mi_os_page_size, os_page_size};
use crate::page::{MI_MEDIUM_OBJ_SIZE_MAX, MI_MEDIUM_OBJ_WSIZE_MAX};

/// Maximum number of size classes (spaced exponentially in 12.5% increments).
pub const MI_BIN_HUGE: usize = 73;

/// The pseudo-bin holding pages whose free lists ran empty.
pub const MI_BIN_FULL: usize = MI_BIN_HUGE + 1;

/// A byte size in machine words, rounded up.
pub open spec fn spec_wsize(size: int) -> int {
    (size + 7) / 8
}

/// The position of the highest set bit of `w - 1`, for word counts binned
/// by the exponential formula.
pub open spec fn medium_bin_exp(w: int) -> int {
    lg((w - 1) as nat) as int
}

/// `2^(medium_bin_exp(w) - 2)`: the weight of the two bits right below the
/// highest set bit of `w - 1`.
pub open spec fn medium_bin_scale(w: int) -> int {
    pow2((medium_bin_exp(w) - 2) as nat) as int
}

/// `w - 1` scaled down so that its top three bits remain.
pub open spec fn medium_bin_top(w: int) -> int {
    (w - 1) / medium_bin_scale(w)
}

/// The bin (size class) for a given word count: word counts up to 8 get
/// exact bins rounded to double-word multiples, larger ones are binned by
/// the top three bits of `w - 1` (~12.5% worst-case internal
/// fragmentation), and word counts above the medium-object maximum share
/// the huge bin.
pub open spec fn spec_bin_of_wsize(w: int) -> int {
    if w <= 1 {
        1
    } else if w <= 8 {
        ((w + 1) / 2) * 2
    } else if w > MI_MEDIUM_OBJ_WSIZE_MAX as int {
        MI_BIN_HUGE as int
    } else {
        4 * medium_bin_exp(w) + medium_bin_top(w) % 4 - 3
    }
}

/// The bin (size class) for a requested byte size.
pub open spec fn spec_bin(size: int) -> int {
    spec_bin_of_wsize(spec_wsize(size))
}

/// The representative (maximum) word count served by a bin. Bins 1 to 8
/// serve exactly their own word count; the exponential bins serve
/// `(5 + (bin+3) % 4) * 2^((bin+3)/4 - 2)` words; the huge and full
/// pseudo-bins carry sentinel sizes just above the medium-object maximum.
pub open spec fn spec_bin_wsize(bin: int) -> int {
    if bin <= 0 {
        1
    } else if bin <= 8 {
        bin
    } else if bin <= 72 {
        ((bin + 3) % 4 + 5) * pow2(((bin + 3) / 4 - 2) as nat) as int
    } else if bin == MI_BIN_HUGE as int {
        MI_MEDIUM_OBJ_WSIZE_MAX as int + 1
    } else {
        MI_MEDIUM_OBJ_WSIZE_MAX as int + 2
    }
}

/// The representative (maximum) byte size served by a bin.
pub open spec fn spec_bin_size(bin: int) -> int {
    8 * spec_bin_wsize(bin)
}

/// The usable size actually handed out for a request: the bin's block size
/// for sizes the size classes serve, the size rounded up to the OS page
/// size beyond them.
pub open spec fn spec_good_size(size: int) -> int {
    if size <= MI_MEDIUM_OBJ_SIZE_MAX as int {
        spec_bin_size(spec_bin(size))
    } else {
        spec_align_up(size, os_page_size as int)
    }
}

/// Characterization of the exponential-formula range: the bit-scan
/// exponent, the scaled top bits and the resulting bin are all bounded,
/// and the word count lies within the half-open interval the bin covers.
proof fn lemma_medium_bin_parts(w: int)
    requires
        9 <= w <= MI_MEDIUM_OBJ_WSIZE_MAX as int,
    ensures
        3 <= medium_bin_exp(w) <= 13,
        medium_bin_scale(w) >= 2,
        4 <= medium_bin_top(w) <= 7,
        medium_bin_top(w) % 4 == medium_bin_top(w) - 4,
        spec_bin_of_wsize(w) == 4 * medium_bin_exp(w) + medium_bin_top(w) - 7,
        9 <= spec_bin_of_wsize(w) <= 52,
        medium_bin_top(w) * medium_bin_scale(w) < w,
        w <= (medium_bin_top(w) + 1) * medium_bin_scale(w),
{
    let u = w - 1;
    let b = medium_bin_exp(w);
    reveal_with_fuel(lg, 16);
    assert(lg(8nat) == 3);
    assert(lg(16383nat) == 13);
    lemma_lg_ordered(8, u as nat);
    lemma_lg_ordered(u as nat, 16383);
    lemma_lg_pow2(u as nat);
    let p = medium_bin_scale(w);
    lemma_pow2_adds((b - 2) as nat, 2);
    lemma_pow2_adds((b - 2) as nat, 3);
    lemma2_to64();
    assert(pow2(b as nat) == p * 4);
    assert(pow2((b + 1) as nat) == p * 8);
    lemma_pow2_pos((b - 2) as nat);
    let v = medium_bin_top(w);
    lemma_div_is_ordered(p * 4, u, p);
    lemma_div_multiples_vanish(4, p);
    assert(v >= 4);
    lemma_multiply_divide_lt(u, p, 8);
    assert(v <= 7);
    lemma_fundamental_div_mod(u, p);
    assert(u == p * v + u % p);
    vstd::arithmetic::div_mod::lemma_mod_division_less_than_divisor(u, p);
    assert(v * p < w) by (nonlinear_arith)
        requires
            u == p * v + u % p,
            u % p >= 0,
            w == u + 1,
    ;
    assert(w <= (v + 1) * p) by (nonlinear_arith)
        requires
            u == p * v + u % p,
            u % p < p,
            w == u + 1,
    ;
}

/// Every non-negative word count maps into a valid bin index.
proof fn lemma_bin_of_wsize_range(w: int)
    requires
        w >= 0,
    ensures
        1 <= spec_bin_of_wsize(w) <= MI_BIN_HUGE as int,
        w <= 8 ==> spec_bin_of_wsize(w) <= 8,
{
    if w <= 1 {
    } else if w <= 8 {
        lemma_fundamental_div_mod(w + 1, 2);
    } else if w > MI_MEDIUM_OBJ_WSIZE_MAX as int {
    } else {
        lemma_medium_bin_parts(w);
    }
}

/// A bin serves at least the word counts that map to it: for every word
/// count in the size-classed range, the representative word count of its
/// bin is at least the word count itself.
proof fn lemma_bin_wsize_covers(w: int)
    requires
        0 <= w <= MI_MEDIUM_OBJ_WSIZE_MAX as int,
    ensures
        spec_bin_wsize(spec_bin_of_wsize(w)) >= w,
{
    if w <= 1 {
    } else if w <= 8 {
        lemma_fundamental_div_mod(w + 1, 2);
    } else {
        lemma_medium_bin_parts(w);
        let b = medium_bin_exp(w);
        let v = medium_bin_top(w);
        let p = medium_bin_scale(w);
        let bin = spec_bin_of_wsize(w);
        lemma_fundamental_div_mod_converse(bin + 3, 4, b, v - 4);
        assert((bin + 3) / 4 == b && (bin + 3) % 4 == v - 4);
        assert(spec_bin_wsize(bin) == (v + 1) * p);
    }
}

/// The wsize-level binning function is monotone.
proof fn lemma_bin_of_wsize_monotonic(w1: int, w2: int)
    requires
        0 <= w1 <= w2,
    ensures
        spec_bin_of_wsize(w1) <= spec_bin_of_wsize(w2),
{
    lemma_bin_of_wsize_range(w1);
    lemma_bin_of_wsize_range(w2);
    if w2 <= 8 {
        if w1 > 1 {
            lemma_div_is_ordered(w1 + 1, w2 + 1, 2);
        }
    } else if w1 <= 8 {
        if 9 <= w2 <= MI_MEDIUM_OBJ_WSIZE_MAX as int {
            lemma_medium_bin_parts(w2);
        }
    } else if w2 > MI_MEDIUM_OBJ_WSIZE_MAX as int {
        if 9 <= w1 <= MI_MEDIUM_OBJ_WSIZE_MAX as int {
            lemma_medium_bin_parts(w1);
        }
    } else {
        lemma_medium_bin_parts(w1);
        lemma_medium_bin_parts(w2);
        let b1 = medium_bin_exp(w1);
        let b2 = medium_bin_exp(w2);
        lemma_lg_ordered((w1 - 1) as nat, (w2 - 1) as nat);
        assert(b1 <= b2);
        if b1 == b2 {
            lemma_div_is_ordered(w1 - 1, w2 - 1, medium_bin_scale(w1));
        }
    }
}

/// Bins are total and bounded: every size maps to a bin between 1 and
/// the huge bin. (Determinism holds because `spec_bin` is a function and
/// `mi_bin` returns exactly its value.)
pub proof fn lemma_bin_range(size: int)
    requires
        size >= 0,
    ensures
        1 <= spec_bin(size) <= MI_BIN_HUGE as int,
{
    vstd::arithmetic::div_mod::lemma_div_pos_is_pos(size + 7, 8);
    lemma_bin_of_wsize_range(spec_wsize(size));
}

/// A request fits into its bin: for every size up to the medium-object
/// maximum, the block size of `bin(size)` is at least `size`.
pub proof fn lemma_bin_size_fits(size: int)
    requires
        0 <= size <= MI_MEDIUM_OBJ_SIZE_MAX as int,
    ensures
        spec_bin_size(spec_bin(size)) >= size,
        spec_wsize(size) <= MI_MEDIUM_OBJ_WSIZE_MAX as int,
        1 <= spec_bin(size) <= 52,
        8 <= spec_bin_size(spec_bin(size)) <= MI_MEDIUM_OBJ_SIZE_MAX as int,
{
    lemma_bin_size_fits_inner(size);
}

proof fn lemma_bin_size_fits_inner(size: int)
    requires
        0 <= size <= MI_MEDIUM_OBJ_SIZE_MAX as int,
    ensures
        spec_bin_size(spec_bin(size)) >= size,
        spec_wsize(size) <= MI_MEDIUM_OBJ_WSIZE_MAX as int,
        1 <= spec_bin(size) <= 52,
        8 <= spec_bin_size(spec_bin(size)) <= MI_MEDIUM_OBJ_SIZE_MAX as int,
{
    let w = spec_wsize(size);
    vstd::arithmetic::div_mod::lemma_div_pos_is_pos(size + 7, 8);
    lemma_fundamental_div_mod(size + 7, 8);
    assert(8 * w >= size);
    lemma_div_is_ordered(size + 7, MI_MEDIUM_OBJ_SIZE_MAX as int + 7, 8);
    assert((MI_MEDIUM_OBJ_SIZE_MAX as int + 7) / 8 == MI_MEDIUM_OBJ_WSIZE_MAX as int) by {
        lemma_fundamental_div_mod_converse(
            MI_MEDIUM_OBJ_SIZE_MAX as int + 7,
            8,
            MI_MEDIUM_OBJ_WSIZE_MAX as int,
            7,
        );
    }
    lemma_bin_wsize_covers(w);
    lemma_bin_of_wsize_range(w);
    if w > 8 {
        lemma_medium_bin_parts(w);
    }
    lemma_bin_wsize_bounded(spec_bin(size));
}

/// Binning is monotone in the requested size.
pub proof fn lemma_bin_monotonic(s1: int, s2: int)
    requires
        0 <= s1 <= s2,
    ensures
        spec_bin(s1) <= spec_bin(s2),
{
    lemma_div_is_ordered(s1 + 7, s2 + 7, 8);
    vstd::arithmetic::div_mod::lemma_div_pos_is_pos(s1 + 7, 8);
    lemma_bin_of_wsize_monotonic(spec_wsize(s1), spec_wsize(s2));
}

/// Return the bin for a given field size.
/// Returns `MI_BIN_HUGE` if the size is too large.
/// We use `wsize` for the size in machine word sizes,
/// i.e. byte size == `wsize * MI_INTPTR_SIZE`.
#[inline(always)]
pub fn mi_bin(size: usize) -> (bin: u8)
    requires
        size <= usize::MAX - 8,
    ensures
        bin == spec_bin(size as int),
        1 <= bin <= MI_BIN_HUGE,
{
    let mut wsize: usize = _mi_wsize_from_size(size);
    let bin: u8;
    if wsize <= 1 {
        bin = 1;
    } else if MI_ALIGNMENT == MI_ALIGN4W && wsize <= 4 {
        bin = ((wsize + 1) & !1) as u8;  // round to double word sizes
    } else if MI_ALIGNMENT == MI_ALIGN2W && wsize <= 8 {
        proof {
            assert(((wsize + 1) as usize) & !1usize == ((wsize + 1) / 2) * 2 && (((wsize + 1)
                as usize) & !1usize) <= 8) by (bit_vector)
                requires
                    2 <= wsize <= 8,
            ;
        }
        bin = ((wsize + 1) & !1) as u8;  // round to double word sizes
    } else if wsize <= 8 {
        bin = wsize as u8;
    } else if wsize > MI_MEDIUM_OBJ_WSIZE_MAX {
        bin = MI_BIN_HUGE as u8;
    } else {
        if wsize <= 16 && MI_ALIGNMENT == MI_ALIGN4W {
            wsize = (wsize + 3) & !3;  // round to 4x word sizes
        }
        let ghost w = wsize as int;
        wsize -= 1;
        // find the highest bit
        let b = mi_bsr(wsize);  // note: wsize != 0
        proof {
            lemma_medium_bin_parts(w);
            assert(b == medium_bin_exp(w));
            lemma2_to64();
            lemma_usize_shl_is_mul(b, 2);
            lemma_usize_shr_is_div(wsize, (b - 2) as usize);
            assert(wsize >> (b - 2) as usize == medium_bin_top(w));
            lemma_low_bits_mask_values();
            lemma_usize_low_bits_mask_is_mod((wsize >> (b - 2) as usize), 2);
            assert((wsize >> (b - 2) as usize) & 3 == medium_bin_top(w) % 4);
        }
        // and use the top 3 bits to determine the bin (~12.5% worst internal
        // fragmentation).
        // - adjust with 3 because we do not round the first 8 sizes
        //   which each get an exact bin
        bin = ((b << 2) + ((wsize >> (b - 2)) & 0x03) - 3) as u8;
    }
    bin
}

pub fn _mi_bin(size: usize) -> (bin: u8)
    requires
        size <= usize::MAX - 8,
    ensures
        bin == spec_bin(size as int),
        1 <= bin <= MI_BIN_HUGE,
{
    mi_bin(size)
}

/// The representative (maximum) block size in bytes served by a bin; the
/// size used to initialize the page queue of that bin.
pub fn _mi_bin_size(bin: u8) -> (r: usize)
    requires
        bin as int <= MI_BIN_FULL as int,
    ensures
        r == spec_bin_size(bin as int),
{
    if bin == 0 {
        8
    } else if bin <= 8 {
        8 * (bin as usize)
    } else if bin <= 72 {
        let m: usize = bin as usize + 3;
        let sh: usize = m / 4 - 2;
        proof {
            lemma2_to64();
            lemma_pow2_pos(sh as nat);
            assert(pow2(sh as nat) <= pow2(16)) by {
                if sh < 16 {
                    vstd::arithmetic::power2::lemma_pow2_strictly_increases(sh as nat, 16);
                }
            }
            lemma_usize_shl_is_mul(8, sh);
            assert((m % 4 + 5) * (8 * pow2(sh as nat) as int) == 8 * ((m % 4 + 5) * pow2(
                sh as nat,
            ) as int) <= 8 * (8 * 65536)) by (nonlinear_arith)
                requires
                    0 < pow2(sh as nat) <= 65536,
                    0 <= m % 4 < 4,
            ;
        }
        (m % 4 + 5) * (8 << sh)
    } else if bin == 73 {
        MI_MEDIUM_OBJ_SIZE_MAX + 8
    } else {
        MI_MEDIUM_OBJ_SIZE_MAX + 2 * 8
    }
}

/// Good size for allocation: the size a request will actually receive.
pub fn mi_good_size(size: usize) -> (r: usize)
    requires
        size + 4095 <= usize::MAX,
    ensures
        r == spec_good_size(size as int),
{
    if size <= MI_MEDIUM_OBJ_SIZE_MAX {
        _mi_bin_size(mi_bin(size))
    } else {
        _mi_align_up(size, _mi_os_page_size())
    }
}

/// A bin's representative word count stays within the size-classed range.
proof fn lemma_bin_wsize_bounded(bin: int)
    requires
        1 <= bin <= 52,
    ensures
        1 <= spec_bin_wsize(bin) <= MI_MEDIUM_OBJ_WSIZE_MAX as int,
{
    if bin > 8 {
        let q = (bin + 3) / 4;
        let r = (bin + 3) % 4;
        lemma_fundamental_div_mod(bin + 3, 4);
        vstd::arithmetic::div_mod::lemma_mod_division_less_than_divisor(bin + 3, 4);
        vstd::arithmetic::div_mod::lemma_mod_pos_bound(bin + 3, 4);
        assert(3 <= q <= 13);
        lemma_pow2_pos((q - 2) as nat);
        assert(pow2((q - 2) as nat) <= pow2(11)) by {
            if q < 13 {
                vstd::arithmetic::power2::lemma_pow2_strictly_increases((q - 2) as nat, 11);
            }
        }
        lemma2_to64();
        assert((r + 5) * pow2((q - 2) as nat) as int <= 8 * 2048) by (nonlinear_arith)
            requires
                r + 5 <= 8,
                0 < pow2((q - 2) as nat) <= 2048,
        ;
        assert((r + 5) * pow2((q - 2) as nat) as int >= 1) by (nonlinear_arith)
            requires
                r + 5 >= 5,
                pow2((q - 2) as nat) >= 1,
        ;
    }
}

/// Binning a bin's own representative word count gives that bin back,
/// for every bin the binning function can produce.
proof fn lemma_bin_of_bin_wsize(bin: int)
    requires
        bin == 1 || (2 <= bin <= 8 && bin % 2 == 0) || 9 <= bin <= 52,
    ensures
        spec_bin_of_wsize(spec_bin_wsize(bin)) == bin,
{
    let wb = spec_bin_wsize(bin);
    if bin == 1 {
    } else if bin <= 8 {
        lemma_fundamental_div_mod_converse(bin + 1, 2, bin / 2, 1);
        lemma_fundamental_div_mod_converse(bin, 2, bin / 2, 0);
    } else {
        let q = (bin + 3) / 4;
        let r = (bin + 3) % 4;
        lemma_fundamental_div_mod(bin + 3, 4);
        vstd::arithmetic::div_mod::lemma_mod_division_less_than_divisor(bin + 3, 4);
        vstd::arithmetic::div_mod::lemma_mod_pos_bound(bin + 3, 4);
        assert(3 <= q <= 13);
        let p = pow2((q - 2) as nat) as int;
        lemma_pow2_pos((q - 2) as nat);
        lemma2_to64();
        assert(p >= 2) by {
            vstd::arithmetic::power2::lemma_pow2_strictly_increases(0, (q - 2) as nat);
        }
        assert(wb == (r + 5) * p);
        // The word count lies strictly between pow2(q) and pow2(q + 1),
        // so its bit scan recovers q.
        lemma_pow2_adds((q - 2) as nat, 2);
        lemma_pow2_adds((q - 2) as nat, 3);
        assert(pow2(q as nat) == p * 4);
        assert(pow2((q + 1) as nat) == p * 8);
        assert((r + 5) * p - 1 >= 4 * p && (r + 5) * p - 1 < 8 * p && (r + 5) * p - 1 == (r + 4)
            * p + (p - 1) && 8 < (r + 5) * p <= 16384) by (nonlinear_arith)
            requires
                0 <= r <= 3,
                2 <= p <= 2048,
        ;
        lemma_lg_unique((wb - 1) as nat, q as nat);
        assert(medium_bin_exp(wb) == q);
        lemma_fundamental_div_mod_converse(wb - 1, p, r + 4, p - 1);
        assert(medium_bin_top(wb) == r + 4);
        lemma_fundamental_div_mod_converse(r + 4, 4, 1, r);
        assert(spec_bin_of_wsize(wb) == 4 * q + r - 3);
    }
}

/// `good_size` never shrinks a request.
pub proof fn lemma_good_size_ge(size: int)
    requires
        size >= 0,
    ensures
        spec_good_size(size) >= size,
{
    if size <= MI_MEDIUM_OBJ_SIZE_MAX as int {
        lemma_bin_size_fits(size);
    } else {
        lemma_align_up_bounds(size, os_page_size as int);
    }
}

/// `good_size` is idempotent: the size actually handed out is itself a
/// good size.
pub proof fn lemma_good_size_idempotent(size: int)
    requires
        size >= 0,
    ensures
        spec_good_size(spec_good_size(size)) == spec_good_size(size),
{
    let g = spec_good_size(size);
    if size <= MI_MEDIUM_OBJ_SIZE_MAX as int {
        let w = spec_wsize(size);
        let bin = spec_bin(size);
        lemma_bin_size_fits(size);
        vstd::arithmetic::div_mod::lemma_div_pos_is_pos(size + 7, 8);
        lemma_bin_of_wsize_range(w);
        if w <= 8 {
            if w > 1 {
                lemma_fundamental_div_mod(w + 1, 2);
            }
        } else {
            lemma_medium_bin_parts(w);
            lemma_fundamental_div_mod_converse(
                bin + 3,
                4,
                medium_bin_exp(w),
                medium_bin_top(w) - 4,
            );
        }
        assert(bin == 1 || (2 <= bin <= 8 && bin % 2 == 0) || 9 <= bin <= 52);
        lemma_bin_wsize_bounded(bin);
        let wb = spec_bin_wsize(bin);
        assert(g == 8 * wb);
        assert(g <= MI_MEDIUM_OBJ_SIZE_MAX as int);
        lemma_fundamental_div_mod_converse(8 * wb + 7, 8, wb, 7);
        assert(spec_wsize(g) == wb);
        lemma_bin_of_bin_wsize(bin);
        assert(spec_bin(g) == bin);
    } else {
        lemma_align_up_bounds(size, os_page_size as int);
        lemma_align_up_idempotent(g, os_page_size as int);
    }
}

} // verus!
