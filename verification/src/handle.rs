//! Handles: a slot position together with a generation stamp.

use vstd::prelude::*;

verus! {

/// A reference to a slot of a [`crate::DenseStorage`].
///
/// A handle is a plain value. It is valid for a storage as long as the storage
/// records `generation` as the current generation of slot `index`.
#[derive(Debug, Clone, Copy, PartialEq, Eq, Structural)]
pub struct Index {
    /// Position of the slot in the backing buffer.
    pub index: u32,
    /// Generation of the slot for which this handle was issued.
    pub generation: u32,
}

/// The generation that a slot receives when it is reused.
///
/// Generations count upwards by one and stop at `u32::MAX`: a slot that has
/// reached the last generation keeps it.
pub open spec fn bumped(generation: u32) -> u32 {
    if generation < u32::MAX {
        (generation + 1) as u32
    } else {
        generation
    }
}

/// Computes [`bumped`].
pub fn bump(generation: u32) -> (next: u32)
    ensures
        next == bumped(generation),
{
    if generation < u32::MAX {
        generation + 1
    } else {
        generation
    }
}

} // verus!
