//! The state of a single cell.

use vstd::prelude::*;

verus! {

/// A cell is either dead or alive.
#[derive(Clone, Copy, Debug, PartialEq, Eq, Structural)]
pub enum Cell {
    Dead,
    Alive,
}

impl Cell {
    /// The number a cell counts for among its neighbours: 0 when dead, 1 when alive.
    pub open spec fn value(self) -> nat {
        match self {
            Cell::Dead => 0,
            Cell::Alive => 1,
        }
    }

    /// The cell's numeric value, 0 for `Dead` and 1 for `Alive`.
    pub fn to_u8(self) -> (v: u8)
        ensures
            v == self.value(),
    {
        match self {
            Cell::Dead => 0,
            Cell::Alive => 1,
        }
    }
}

} // verus!
