//! The one failure that the engine reports to its caller.

use vstd::prelude::*;

verus! {

/// A position that was named in a call and does not lie on the grid: its row
/// is not below the grid's height, or its column not below the grid's width.
#[derive(Clone, Copy, Debug, PartialEq, Eq, Structural)]
pub struct OutOfBounds {
    /// The row that was asked for.
    pub row: u32,
    /// The column that was asked for.
    pub column: u32,
}

} // verus!
