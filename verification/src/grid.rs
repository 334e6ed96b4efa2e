//! The mathematical model of the universe: a torus of cells stored in
//! row-major order, with the neighbour count and the generation step defined
//! on it.

use vstd::prelude::*;
use vstd::arithmetic::div_mod::{
    lemma_fundamental_div_mod,
    lemma_fundamental_div_mod_converse,
    lemma_mod_add_multiples_vanish,
    lemma_mod_bound,
    lemma_mod_self_0,
    lemma_small_mod,
};
use crate::cell::Cell;

verus! {

/// A grid of `height` rows and `width` columns. The cell at `(row, col)` is
/// stored at position `row * width + col` of `cells`.
pub struct Grid {
    pub width: int,
    pub height: int,
    pub cells: Seq<Cell>,
}

impl Grid {
    /// Both dimensions are positive and the buffer holds one cell per
    /// position.
    pub open spec fn wf(self) -> bool {
        &&& self.width >= 1
        &&& self.height >= 1
        &&& self.cells.len() == self.width * self.height
    }

    /// `(row, col)` names a position of the grid.
    pub open spec fn contains(self, row: int, col: int) -> bool {
        0 <= row < self.height && 0 <= col < self.width
    }

    /// The position of `(row, col)` in the buffer.
    pub open spec fn index(self, row: int, col: int) -> int {
        row * self.width + col
    }

    /// The cell at `(row, col)`.
    pub open spec fn cell(self, row: int, col: int) -> Cell {
        self.cells[self.index(row, col)]
    }

    /// 1 if the cell at `(row, col)` is alive, 0 if it is dead.
    pub open spec fn live(self, row: int, col: int) -> int {
        self.cell(row, col).spec_code()
    }

    /// The row above `row`; the row above the first one is the last one.
    pub open spec fn up(self, row: int) -> int {
        (row + (self.height - 1)) % self.height
    }

    /// The row below `row`; the row below the last one is the first one.
    pub open spec fn down(self, row: int) -> int {
        (row + 1) % self.height
    }

    /// The column left of `col`; left of the first one is the last one.
    pub open spec fn left(self, col: int) -> int {
        (col + (self.width - 1)) % self.width
    }

    /// The column right of `col`; right of the last one is the first one.
    pub open spec fn right(self, col: int) -> int {
        (col + 1) % self.width
    }

    /// What the cell at `(row, col)` counts at the offset
    /// `(row_offset, col_offset)`: nothing at the offset `(0, 0)`, which is
    /// the cell itself, and elsewhere the cell that the offset leads to,
    /// where each coordinate wraps round at the edge of the grid.
    pub open spec fn seen(self, row: int, col: int, row_offset: int, col_offset: int) -> int {
        if row_offset == 0 && col_offset == 0 {
            0
        } else {
            self.live((row + row_offset) % self.height, (col + col_offset) % self.width)
        }
    }

    /// What the cell at `(row, col)` counts at the three offsets with the
    /// row offset `row_offset` and a column offset out of `width - 1`, 0, 1.
    pub open spec fn seen_along(self, row: int, col: int, row_offset: int) -> int {
        self.seen(row, col, row_offset, self.width - 1) + self.seen(row, col, row_offset, 0)
            + self.seen(row, col, row_offset, 1)
    }

    /// The number of live neighbours of the cell at `(row, col)`: the sum of
    /// what it counts at the nine offsets made of a row offset out of
    /// `height - 1`, 0, 1 and a column offset out of `width - 1`, 0, 1.
    ///
    /// On a grid with a single row the row offset `height - 1` is 0, so the
    /// offset `(height - 1, 0)` counts nothing either, and likewise for a
    /// single column. On a grid with fewer than three rows or columns
    /// several offsets lead to the same cell, which is then counted once for
    /// each of them.
    pub open spec fn neighbour_count(self, row: int, col: int) -> int {
        self.seen_along(row, col, self.height - 1) + self.seen_along(row, col, 0)
            + self.seen_along(row, col, 1)
    }

    /// The sum of the eight cells around `(row, col)` on the torus.
    pub open spec fn ring(self, row: int, col: int) -> int {
        let (up, down) = (self.up(row), self.down(row));
        let (left, right) = (self.left(col), self.right(col));
        self.live(up, left) + self.live(up, col) + self.live(up, right) + self.live(row, left)
            + self.live(row, right) + self.live(down, left) + self.live(down, col) + self.live(
            down,
            right,
        )
    }

    /// The state of the cell at `(row, col)` in the next generation.
    pub open spec fn next_cell(self, row: int, col: int) -> Cell {
        self.cell(row, col).successor(self.neighbour_count(row, col))
    }

    /// The next generation: every cell replaced by its successor, each
    /// computed from the cells of this generation.
    pub open spec fn next_generation(self) -> Grid {
        Grid {
            width: self.width,
            height: self.height,
            cells: Seq::new(
                self.cells.len(),
                |i: int| self.next_cell(i / self.width, i % self.width),
            ),
        }
    }

    /// The grid after `n` generations.
    pub open spec fn generations(self, n: nat) -> Grid
        decreases n,
    {
        if n == 0 {
            self
        } else {
            self.next_generation().generations((n - 1) as nat)
        }
    }

    /// Row-major indexing is a bijection between the positions of the grid
    /// and the positions of the buffer: the index of a position lies within
    /// the buffer, and the row and column are recovered from it by division.
    pub proof fn lemma_index(self, row: int, col: int)
        requires
            self.wf(),
            self.contains(row, col),
        ensures
            0 <= self.index(row, col) < self.cells.len(),
            self.index(row, col) / self.width == row,
            self.index(row, col) % self.width == col,
    {
        let w = self.width;
        let h = self.height;
        assert(row * w + w <= h * w) by (nonlinear_arith)
            requires
                0 <= row < h,
                w >= 1,
        ;
        assert(0 <= row * w) by (nonlinear_arith)
            requires
                0 <= row,
                w >= 1,
        ;
        assert(w * h == h * w) by (nonlinear_arith);
        lemma_fundamental_div_mod_converse(self.index(row, col), w, row, col);
    }

    /// Every position of the buffer is the index of a position of the grid.
    pub proof fn lemma_position(self, i: int)
        requires
            self.wf(),
            0 <= i < self.cells.len(),
        ensures
            self.contains(i / self.width, i % self.width),
            self.index(i / self.width, i % self.width) == i,
    {
        let w = self.width;
        let h = self.height;
        let q = i / w;
        let r = i % w;
        assert(i == w * q + r && 0 <= r < w) by {
            lemma_fundamental_div_mod(i, w);
            lemma_mod_bound(i, w);
        }
        assert(0 <= q < h) by (nonlinear_arith)
            requires
                i == w * q + r,
                0 <= r < w,
                0 <= i < w * h,
                w >= 1,
        ;
        assert(w * q == q * w) by (nonlinear_arith);
    }

    /// Stepping off an edge of the torus arrives at the opposite edge, and
    /// the rows and columns next to a position of the grid are positions of
    /// the grid again.
    pub proof fn lemma_wrap(self, row: int, col: int)
        requires
            self.wf(),
            self.contains(row, col),
        ensures
            self.up(row) == (if row == 0 { self.height - 1 } else { row - 1 }),
            self.down(row) == (if row == self.height - 1 { 0 } else { row + 1 }),
            self.left(col) == (if col == 0 { self.width - 1 } else { col - 1 }),
            self.right(col) == (if col == self.width - 1 { 0 } else { col + 1 }),
            self.up(row) == (row - 1) % self.height,
            self.left(col) == (col - 1) % self.width,
            self.contains(self.up(row), self.left(col)),
            self.contains(self.down(row), self.right(col)),
    {
        lemma_mod_add_multiples_vanish(row - 1, self.height);
        lemma_mod_add_multiples_vanish(col - 1, self.width);
        lemma_step_back(row, self.height);
        lemma_step_forward(row, self.height);
        lemma_step_back(col, self.width);
        lemma_step_forward(col, self.width);
    }

    /// On a grid of at least two rows and two columns no offset but the
    /// middle one is `(0, 0)`, and the neighbour count of a cell is the sum
    /// of the eight cells around it.
    pub proof fn lemma_neighbours(self, row: int, col: int)
        requires
            self.wf(),
            self.contains(row, col),
            self.width >= 2,
            self.height >= 2,
        ensures
            self.neighbour_count(row, col) == self.ring(row, col),
    {
        lemma_small_mod(row as nat, self.height as nat);
        lemma_small_mod(col as nat, self.width as nat);
    }

    /// On a grid with a single row and at least two columns, a cell counts
    /// itself once and each of the cells to its left and right three times.
    pub proof fn lemma_neighbours_single_row(self, col: int)
        requires
            self.wf(),
            self.contains(0, col),
            self.height == 1,
            self.width >= 2,
        ensures
            self.neighbour_count(0, col) == self.live(0, col) + 3 * self.live(0, self.left(col))
                + 3 * self.live(0, self.right(col)),
    {
        lemma_small_mod(col as nat, self.width as nat);
    }

    /// On a grid with a single column and at least two rows, a cell counts
    /// itself once and each of the cells above and below it three times.
    pub proof fn lemma_neighbours_single_column(self, row: int)
        requires
            self.wf(),
            self.contains(row, 0),
            self.width == 1,
            self.height >= 2,
        ensures
            self.neighbour_count(row, 0) == self.live(row, 0) + 3 * self.live(self.up(row), 0)
                + 3 * self.live(self.down(row), 0),
    {
        lemma_small_mod(row as nat, self.height as nat);
    }

    /// On the grid of a single cell, the cell counts itself five times.
    pub proof fn lemma_neighbours_single_cell(self)
        requires
            self.wf(),
            self.width == 1,
            self.height == 1,
        ensures
            self.neighbour_count(0, 0) == 5 * self.live(0, 0),
    {
    }

    /// The neighbours of the cell in the upper left corner lie on the
    /// opposite edges: the row above it is the last row and the column left
    /// of it is the last column, so that the cell in the lower right corner
    /// is among its neighbours.
    pub proof fn lemma_corner_neighbours(self)
        requires
            self.wf(),
            self.width >= 2,
            self.height >= 2,
        ensures
            self.up(0) == self.height - 1,
            self.left(0) == self.width - 1,
            self.neighbour_count(0, 0) == self.ring(0, 0),
            self.neighbour_count(0, 0) >= self.live(self.height - 1, self.width - 1),
            self.neighbour_count(0, 0) >= self.live(self.height - 1, 0),
            self.neighbour_count(0, 0) >= self.live(0, self.width - 1),
    {
        self.lemma_wrap(0, 0);
        self.lemma_neighbours(0, 0);
    }

    /// A neighbour count is at least 0 and at most 8.
    pub proof fn lemma_neighbour_count_range(self, row: int, col: int)
        ensures
            0 <= self.neighbour_count(row, col) <= 8,
    {
    }

    /// The next generation has the dimensions of this one, is well formed
    /// if this one is, and holds at each position the successor of the cell
    /// that this generation has there.
    pub proof fn lemma_next_generation(self)
        requires
            self.wf(),
        ensures
            self.next_generation().wf(),
            self.next_generation().width == self.width,
            self.next_generation().height == self.height,
            forall|row: int, col: int|
                self.contains(row, col) ==> #[trigger] self.next_generation().cell(row, col)
                    == self.next_cell(row, col),
    {
        let next = self.next_generation();
        assert forall|row: int, col: int| self.contains(row, col) implies #[trigger] next.cell(
            row,
            col,
        ) == self.next_cell(row, col) by {
            self.lemma_index(row, col);
        }
    }

    /// However many generations pass, the grid keeps its dimensions and
    /// stays well formed: the buffer holds `width * height` cells.
    pub proof fn lemma_generations(self, n: nat)
        requires
            self.wf(),
        ensures
            self.generations(n).wf(),
            self.generations(n).width == self.width,
            self.generations(n).height == self.height,
            self.generations(n).cells.len() == self.width * self.height,
        decreases n,
    {
        if n > 0 {
            self.lemma_next_generation();
            self.next_generation().lemma_generations((n - 1) as nat);
        }
    }

    /// The generations that follow a grid are determined by its dimensions
    /// and its cells: two grids that agree on these agree on every later
    /// generation.
    pub proof fn lemma_determined(self, other: Grid, n: nat)
        requires
            self.width == other.width,
            self.height == other.height,
            self.cells == other.cells,
        ensures
            self.next_generation() == other.next_generation(),
            self.generations(n) == other.generations(n),
    {
    }
}

/// On a ring of `n` positions, adding `n - 1` to a position steps back by
/// one, from the first position to the last.
pub proof fn lemma_step_back(i: int, n: int)
    requires
        0 <= i < n,
    ensures
        (i + (n - 1)) % n == (if i == 0 { n - 1 } else { i - 1 }),
{
    if i == 0 {
        lemma_small_mod((n - 1) as nat, n as nat);
    } else {
        lemma_mod_add_multiples_vanish(i - 1, n);
        lemma_small_mod((i - 1) as nat, n as nat);
    }
}

/// On a ring of `n` positions, adding 1 to a position steps forward by one,
/// from the last position to the first.
pub proof fn lemma_step_forward(i: int, n: int)
    requires
        0 <= i < n,
    ensures
        (i + 1) % n == (if i == n - 1 { 0 } else { i + 1 }),
{
    if i == n - 1 {
        lemma_mod_self_0(n);
    } else {
        lemma_small_mod((i + 1) as nat, n as nat);
    }
}

} // verus!
