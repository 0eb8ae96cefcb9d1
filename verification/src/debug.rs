//! Fill patterns for checked builds: freshly handed-out, freed and
//! padding memory are filled with distinct bytes so that use of
//! uninitialized or freed memory and buffer overflows can be detected
//! and reported as invariant violations.
use vstd::prelude::*;

verus! {

/// Fill byte for memory handed out but not yet written.
pub const MI_DEBUG_UNINIT: usize = 0xD0;

/// Fill byte for freed memory.
pub const MI_DEBUG_FREED: usize = 0xDF;

/// Fill byte for the padding canary area behind each block.
pub const MI_DEBUG_PADDING: usize = 0xDE;

} // verus!
