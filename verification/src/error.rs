//! Ways in which an allocation request can be turned down.

use vstd::prelude::*;

verus! {

/// Why an allocation request was turned down.
#[derive(Clone, Copy, Debug, PartialEq, Eq, Structural)]
pub enum AllocError {
    /// The request is malformed: the alignment is not a power of two, or the
    /// address that would be handed out is zero.
    InvalidParam,
    /// The request does not fit between the two cursors.
    NoMemory,
}

} // verus!
