//! The executable universe: a grid of fixed dimensions that is advanced one
//! generation at a time.

use vstd::prelude::*;
use crate::cell::Cell;
use crate::grid::Grid;

verus! {

/// The number of columns of the customary universe.
pub const WIDTH: i32 = 50;

/// The number of rows of the customary universe.
pub const HEIGHT: i32 = 50;

/// Why a universe could not be made.
#[derive(Clone, Copy, PartialEq, Eq, Debug, Structural)]
pub enum UniverseError {
    /// The width or the height is below 1.
    EmptyDimension,
    /// The number of cells handed over is not `width * height`.
    WrongLength,
}

/// A toroidal grid of cells. Its dimensions are fixed when it is made, and
/// its buffer always holds exactly one cell per position, in row-major
/// order.
pub struct Universe {
    width: i32,
    height: i32,
    cells: Vec<Cell>,
}

impl View for Universe {
    type V = Grid;

    closed spec fn view(&self) -> Grid {
        Grid { width: self.width as int, height: self.height as int, cells: self.cells@ }
    }
}

impl Universe {
    #[verifier::type_invariant]
    spec fn well_formed(&self) -> bool {
        self@.wf()
    }

    /// Makes a universe of `height` rows and `width` columns whose first
    /// generation is `cells`, given in row-major order.
    ///
    /// Fails if a dimension is below 1, or else if `cells` does not hold
    /// exactly one cell per position.
    pub fn new(
        width: i32,
        height: i32,
        cells: Vec<Cell>,
    ) -> (made: Result<Universe, UniverseError>)
        ensures
            match made {
                Ok(universe) => {
                    &&& width >= 1
                    &&& height >= 1
                    &&& cells@.len() == width * height
                    &&& universe@.width == width
                    &&& universe@.height == height
                    &&& universe@.cells == cells@
                    &&& universe@.wf()
                },
                Err(UniverseError::EmptyDimension) => width < 1 || height < 1,
                Err(UniverseError::WrongLength) => {
                    &&& width >= 1
                    &&& height >= 1
                    &&& cells@.len() != width * height
                },
            },
    {
        if width < 1 || height < 1 {
            return Err(UniverseError::EmptyDimension);
        }
        assert(0 < width * height <= 0x7fff_ffff * 0x7fff_ffff) by (nonlinear_arith)
            requires
                1 <= width <= 0x7fff_ffff,
                1 <= height <= 0x7fff_ffff,
        ;
        let area: u64 = (width as u64) * (height as u64);
        if cells.len() as u64 != area {
            return Err(UniverseError::WrongLength);
        }
        Ok(Universe { width, height, cells })
    }

    /// The number of columns.
    pub fn width(&self) -> (width: i32)
        ensures
            width == self@.width,
            width >= 1,
    {
        proof {
            use_type_invariant(self);
        }
        self.width
    }

    /// The number of rows.
    pub fn height(&self) -> (height: i32)
        ensures
            height == self@.height,
            height >= 1,
    {
        proof {
            use_type_invariant(self);
        }
        self.height
    }

    /// The cells of the current generation, in row-major order: one per
    /// position of the grid.
    pub fn cells(&self) -> (cells: &[Cell])
        ensures
            cells@ == self@.cells,
            cells@.len() == self@.width * self@.height,
            self@.wf(),
    {
        proof {
            use_type_invariant(self);
        }
        self.cells.as_slice()
    }

    /// A copy of the current generation as bytes, in row-major order: 1 for
    /// a live cell and 0 for a dead one.
    pub fn snapshot(&self) -> (bytes: Vec<u8>)
        ensures
            bytes@.len() == self@.width * self@.height,
            bytes@.len() == self@.cells.len(),
            forall|i: int| 0 <= i < bytes@.len() ==> bytes@[i] == self@.cells[i].spec_code(),
            forall|i: int| 0 <= i < bytes@.len() ==> bytes@[i] == 0 || bytes@[i] == 1,
    {
        proof {
            use_type_invariant(self);
        }
        let mut bytes: Vec<u8> = Vec::with_capacity(self.cells.len());
        let mut i: usize = 0;
        while i < self.cells.len()
            invariant
                i <= self.cells.len(),
                bytes@.len() == i,
                forall|k: int| 0 <= k < i ==> bytes@[k] == self.cells@[k].spec_code(),
            decreases self.cells.len() - i,
        {
            bytes.push(self.cells[i].code());
            i += 1;
        }
        bytes
    }

    /// The position in the buffer of the cell at `(row, column)`.
    pub fn get_index(&self, row: i32, column: i32) -> (index: usize)
        requires
            self@.contains(row as int, column as int),
        ensures
            index == self@.index(row as int, column as int),
            index < self@.cells.len(),
    {
        proof {
            use_type_invariant(self);
            self@.lemma_index(row as int, column as int);
            assert(row * self.width + column < self.cells.len());
        }
        (row as usize) * (self.width as usize) + (column as usize)
    }

    /// What the cell at `(row, column)` counts at the given offset: nothing
    /// at the offset `(0, 0)`, and elsewhere 1 if the cell that the offset
    /// leads to is alive, and 0 if it is dead.
    fn seen(&self, row: i32, column: i32, row_offset: i32, column_offset: i32) -> (live: u8)
        requires
            self@.contains(row as int, column as int),
            0 <= row_offset <= self@.height,
            0 <= column_offset <= self@.width,
        ensures
            live == self@.seen(
                row as int,
                column as int,
                row_offset as int,
                column_offset as int,
            ),
            live <= 1,
    {
        proof {
            use_type_invariant(self);
        }
        if row_offset == 0 && column_offset == 0 {
            return 0;
        }
        let there_row: i32 = wrapped(row, row_offset, self.height);
        let there_column: i32 = wrapped(column, column_offset, self.width);
        let index: usize = self.get_index(there_row, there_column);
        self.cells[index].code()
    }

    /// What the cell at `(row, column)` counts at the three offsets with
    /// the given row offset.
    fn seen_along(&self, row: i32, column: i32, row_offset: i32) -> (live: u8)
        requires
            self@.contains(row as int, column as int),
            0 <= row_offset <= self@.height,
        ensures
            live == self@.seen_along(row as int, column as int, row_offset as int),
            live <= 3,
    {
        proof {
            use_type_invariant(self);
        }
        let before: u8 = self.seen(row, column, row_offset, self.width - 1);
        let here: u8 = self.seen(row, column, row_offset, 0);
        let after: u8 = self.seen(row, column, row_offset, 1);
        before + here + after
    }

    /// The number of live neighbours of the cell at `(row, column)`, where
    /// the grid wraps round at its edges.
    pub fn get_neighbour_count(&self, row: i32, column: i32) -> (count: u8)
        requires
            self@.contains(row as int, column as int),
        ensures
            count == self@.neighbour_count(row as int, column as int),
            count <= 8,
    {
        proof {
            use_type_invariant(self);
        }
        let above: u8 = self.seen_along(row, column, self.height - 1);
        let level: u8 = self.seen_along(row, column, 0);
        let below: u8 = self.seen_along(row, column, 1);
        above + level + below
    }

    /// Advances the universe by one generation. Every cell of the new
    /// generation is computed from the cells of the old one; the dimensions
    /// stay as they are.
    pub fn tick(&mut self)
        ensures
            final(self)@ == old(self)@.next_generation(),
            final(self)@.wf(),
            final(self)@.width == old(self)@.width,
            final(self)@.height == old(self)@.height,
    {
        proof {
            use_type_invariant(&*self);
        }
        let ghost before: Grid = self@;
        let mut next: Vec<Cell> = self.cells.clone();
        let mut row: i32 = 0;
        while row < self.height
            invariant
                self@ == before,
                before.wf(),
                0 <= row <= self.height,
                next@.len() == before.cells.len(),
                forall|i: int|
                    0 <= i < row * before.width ==> next@[i] == before.next_cell(
                        i / before.width,
                        i % before.width,
                    ),
            decreases self.height - row,
        {
            let mut column: i32 = 0;
            while column < self.width
                invariant
                    self@ == before,
                    before.wf(),
                    0 <= row < self.height,
                    0 <= column <= self.width,
                    next@.len() == before.cells.len(),
                    forall|i: int|
                        0 <= i < row * before.width + column ==> next@[i] == before.next_cell(
                            i / before.width,
                            i % before.width,
                        ),
                decreases self.width - column,
            {
                let index: usize = self.get_index(row, column);
                let cell = self.cells[index];
                let live_neighbours: u8 = self.get_neighbour_count(row, column);
                proof {
                    before.lemma_index(row as int, column as int);
                }
                next[index] = cell.next(live_neighbours);
                column += 1;
            }
            proof {
                assert((row + 1) * before.width == row * before.width + before.width)
                    by (nonlinear_arith);
            }
            row += 1;
        }
        proof {
            assert(next@ =~= before.next_generation().cells);
            before.lemma_next_generation();
        }
        self.cells = next;
    }
}

/// The position `offset` steps after `position` on a ring of `length`
/// positions.
fn wrapped(position: i32, offset: i32, length: i32) -> (there: i32)
    requires
        0 <= position < length,
        0 <= offset <= length,
    ensures
        there == (position + offset) % (length as int),
        0 <= there < length,
{
    let sum: u32 = position as u32 + offset as u32;
    let there: u32 = sum % (length as u32);
    there as i32
}

} // verus!
