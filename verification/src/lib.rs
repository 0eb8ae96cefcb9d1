//! Core of a segmented, size-classed memory allocator.
//!
//! The crate models the allocator's sizing and structural design:
//! the size-class binning function, the per-page free-block lists with
//! their accounting invariant, the cross-thread delayed-free protocol,
//! and the heap / segment / thread-local bookkeeping around them.
#![allow(non_camel_case_types)]
#![allow(non_upper_case_globals)]
#![allow(non_snake_case)]

pub mod bin;
pub mod block;
pub mod constants;
pub mod debug;
pub mod heap;
pub mod internal;
pub mod os;
pub mod page;
pub mod page_queue;
pub mod segment;
pub mod span_queue;
pub mod stats;
pub mod thread;
