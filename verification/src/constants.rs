//! Platform tuning constants for a 64-bit target with 16-byte maximal
//! alignment and an 8-byte machine word.
use vstd::prelude::*;

verus! {

/// Minimal alignment necessary. On most platforms 16 bytes are needed
/// due to SSE registers for example. This must be at least the size of a
/// machine word.
pub const MI_MAX_ALIGN_SIZE: usize = 16;

pub const MI_INTPTR_SHIFT: usize = 3;

pub type mi_ssize_t = i64;

pub const MI_SIZE_SHIFT: usize = 3;

/// Size of a machine word (pointer) in bytes.
pub const MI_INTPTR_SIZE: usize = 8;

pub const MI_INTPTR_BITS: usize = 64;

pub const MI_SIZE_SIZE: usize = 8;

pub const MI_SIZE_BITS: usize = 64;

pub const MI_KiB: usize = 1024;

pub const MI_MiB: usize = 1024 * 1024;

pub const MI_GiB: usize = 1024 * 1024 * 1024;

/// Maximum supported allocation alignment: 1MiB.
pub const MI_ALIGNMENT_MAX: usize = 1024 * 1024;

/// Blocks up to this size are always allocated aligned.
pub const MI_MAX_ALIGN_GUARANTEE: usize = 8 * MI_MAX_ALIGN_SIZE;

/// Word alignment policies: round small requests to four-word, two-word or
/// single-word multiples.
pub const MI_ALIGN4W: usize = 4;

pub const MI_ALIGN2W: usize = 2;

pub const MI_ALIGN1W: usize = 1;

/// The alignment policy in force: with a 16-byte maximal alignment on an
/// 8-byte word, requests round to two-word multiples.
pub const MI_ALIGNMENT: usize = MI_ALIGN2W;

} // verus!
