//! The scalar field being searched, grid positions, and the configuration
//! errors raised when a search cannot be constructed.

use vstd::prelude::*;

verus! {

/// A grid coordinate pair `(row, col)`, 0-indexed.  Equality is structural.
pub type Position = (usize, usize);

/// A position lies on the grid when both coordinates are in `[0, size)`.
pub open spec fn valid_pos(p: Position, size: usize) -> bool {
    p.0 < size && p.1 < size
}

/// An immutable `size x size` table of non-negative integer costs.
/// A lower value marks a more desirable cell.
pub struct Problem {
    pub size: usize,
    pub values: Vec<Vec<u32>>,
}

impl Problem {
    /// The table is fully populated: `size` rows of `size` values each.
    pub open spec fn wf(self) -> bool {
        &&& self.values@.len() == self.size
        &&& forall|i: int|
            0 <= i < self.size ==> (#[trigger] self.values@[i])@.len() == self.size
    }

    /// The cost stored at a position.
    pub open spec fn value_at(self, p: Position) -> u32 {
        self.values@[p.0 as int]@[p.1 as int]
    }

    /// Reads the cost at a position on the grid.
    pub fn value(&self, p: Position) -> (v: u32)
        requires
            self.wf(),
            valid_pos(p, self.size),
        ensures
            v == self.value_at(p),
    {
        self.values[p.0][p.1]
    }
}

/// Why a search could not be constructed.  Construction fails fast so that
/// no degenerate state (one that a step could never leave correctly) exists.
#[derive(Clone, Copy, Debug, PartialEq, Eq)]
pub enum ConfigurationError {
    /// The field has no cells at all.
    ZeroSize,
    /// A radius of zero would yield an empty neighbourhood and a round
    /// that completes with nothing evaluated.
    ZeroRadius,
    /// The initial position lies outside `[0, size)` in some axis.
    PositionOutOfBounds,
}

} // verus!
