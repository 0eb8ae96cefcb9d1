//! The narrow view of the raw virtual-memory provider that the sizing
//! logic needs: the OS page size and the overcommit policy. Both are
//! fixed configuration values here; `os_init` would refresh them on a
//! platform where they differ.
use vstd::prelude::*;

verus! {

/// OS (small) page size.
pub const os_page_size: usize = 4096;

/// Minimal allocation granularity.
pub const os_alloc_granularity: usize = 4096;

/// If non-zero, use large page allocation.
pub const large_os_page_size: usize = 0;

/// Is memory overcommit allowed? (If true, reservation uses a
/// no-reserve mapping.)
pub const os_overcommit: bool = true;

pub fn _mi_os_has_overcommit() -> (r: bool)
    ensures
        r == os_overcommit,
{
    os_overcommit
}

/// OS (small) page size.
pub fn _mi_os_page_size() -> (r: usize)
    ensures
        r == os_page_size,
{
    os_page_size
}

} // verus!
