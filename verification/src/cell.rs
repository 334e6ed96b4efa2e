//! The state of a single cell and the rule that decides its next state.

use vstd::prelude::*;

verus! {

/// A cell of the grid: either dead or alive.
#[derive(Clone, Copy, PartialEq, Eq, PartialOrd, Debug, Structural)]
pub enum Cell {
    Dead,
    Alive,
}

impl Cell {
    /// The numeric code of a cell: 0 for a dead cell, 1 for a live one.
    ///
    /// This is also the amount a cell contributes to the neighbour count of
    /// each cell adjacent to it.
    pub open spec fn spec_code(self) -> int {
        match self {
            Cell::Dead => 0,
            Cell::Alive => 1,
        }
    }

    /// The state that follows `self` when `live_neighbours` of the adjacent
    /// cells are alive: a cell is alive in the next generation exactly when
    /// it has three live neighbours, or is alive now and has two.
    pub open spec fn successor(self, live_neighbours: int) -> Cell {
        if live_neighbours == 3 || (self is Alive && live_neighbours == 2) {
            Cell::Alive
        } else {
            Cell::Dead
        }
    }

    /// Returns the one-byte code of the cell, 0 or 1.
    pub fn code(self) -> (byte: u8)
        ensures
            byte == self.spec_code(),
            byte == 0 || byte == 1,
    {
        match self {
            Cell::Dead => 0,
            Cell::Alive => 1,
        }
    }

    /// Applies the generation rule to one cell.
    pub fn next(self, live_neighbours: u8) -> (next: Cell)
        ensures
            next == self.successor(live_neighbours as int),
    {
        match self {
            Cell::Alive => {
                if live_neighbours < 2 {
                    Cell::Dead
                } else if live_neighbours <= 3 {
                    Cell::Alive
                } else {
                    Cell::Dead
                }
            },
            Cell::Dead => {
                if live_neighbours == 3 {
                    Cell::Alive
                } else {
                    Cell::Dead
                }
            },
        }
    }
}

/// The generation rule, row by row: a live cell with fewer than two live
/// neighbours dies, one with two or three survives, one with more than three
/// dies; a dead cell with exactly three live neighbours comes alive; every
/// other cell keeps its state.
pub proof fn lemma_rule_table(cell: Cell, live_neighbours: int)
    ensures
        cell is Alive && live_neighbours < 2 ==> cell.successor(live_neighbours) is Dead,
        cell is Alive && live_neighbours == 2 ==> cell.successor(live_neighbours) is Alive,
        cell is Alive && live_neighbours == 3 ==> cell.successor(live_neighbours) is Alive,
        cell is Alive && live_neighbours > 3 ==> cell.successor(live_neighbours) is Dead,
        cell is Dead && live_neighbours == 3 ==> cell.successor(live_neighbours) is Alive,
        cell is Dead && live_neighbours != 3 ==> cell.successor(live_neighbours) == cell,
{
}

} // verus!
