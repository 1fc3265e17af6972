//! The failures that the map reports to its caller.

use vstd::prelude::*;

verus! {

/// Why a call was refused. A refused call leaves the map as it was.
#[derive(Debug, Clone, Copy, PartialEq, Eq, Structural)]
pub enum SomError {
    /// A vector or matrix does not have the length that the map's shape asks for.
    DimensionMismatch,
    /// A grid dimension is zero or too large, or a distribution's parameters
    /// are out of order.
    InvalidParameter,
    /// The shape fields of a snapshot disagree with the sizes of its arrays.
    Deserialization,
    /// A cell position lies outside the grid.
    IndexOutOfRange,
}

} // verus!
