//! A bootstrap bump allocator over one fixed address range.
//!
//! Byte allocations grow forward from the start of the range, page
//! allocations grow backward from its end, and the two cursors never cross.
//! Every operation is stated against a mathematical model of the range, and
//! the properties that hold over whole call sequences are proved on that
//! model.

pub mod align;
pub mod arena;
pub mod early;
pub mod error;
pub mod trace;

pub use crate::early::EarlyAllocator;
pub use crate::error::AllocError;
