//! The failures the engine reports to its callers.

use vstd::prelude::*;

verus! {

/// Why an operation on a board was refused.
#[derive(Clone, Copy, Debug, PartialEq, Eq, Hash, Structural)]
pub enum MoveError {
    /// A relocation was requested from a square with no occupant.
    EmptyOrigin,
    /// A capture found nothing to remove from an occupied destination.
    CaptureInconsistent,
    /// The piece and side named by the caller are not what stands on the
    /// origin square.
    OriginMismatch,
}

} // verus!
