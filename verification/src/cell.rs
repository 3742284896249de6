//! The state of a single cell.

use vstd::prelude::*;

verus! {

/// Information about one cell: either `Dead` or `Alive`.
#[derive(Clone, Copy, Debug, PartialEq, Eq, Structural)]
pub enum Cell {
    Dead,
    Alive,
}

impl Cell {
    /// The opposite state.
    pub open spec fn toggled(self) -> Cell {
        match self {
            Cell::Dead => Cell::Alive,
            Cell::Alive => Cell::Dead,
        }
    }

    /// What the cell adds to a count of live cells: 1 if `Alive`, else 0.
    pub open spec fn population(self) -> nat {
        match self {
            Cell::Dead => 0,
            Cell::Alive => 1,
        }
    }

    /// The cell that a coin flip stands for: `Alive` on `true`.
    pub open spec fn of_flip(flip: bool) -> Cell {
        if flip {
            Cell::Alive
        } else {
            Cell::Dead
        }
    }

    /// Flips the cell in place: Dead becomes Alive and Alive becomes Dead.
    pub fn toggle(&mut self)
        ensures
            *final(self) == old(self).toggled(),
    {
        *self = match *self {
            Cell::Dead => Cell::Alive,
            Cell::Alive => Cell::Dead,
        }
    }

    /// Turns the outcome of a coin flip into a cell.
    pub fn from_flip(flip: bool) -> (cell: Cell)
        ensures
            cell == Cell::of_flip(flip),
    {
        if flip {
            Cell::Alive
        } else {
            Cell::Dead
        }
    }
}

} // verus!
