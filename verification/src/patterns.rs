//! Two classic patterns and what the generation rule does to them: the
//! block, which never changes, and the blinker, which turns by a quarter
//! with every generation.

use vstd::prelude::*;
use crate::grid::Grid;

verus! {

/// `(r, c)` is one of the four cells of the two-by-two block whose upper
/// left corner is `(row, col)`. The block may lie across an edge of the
/// torus.
pub open spec fn in_block(grid: Grid, row: int, col: int, r: int, c: int) -> bool {
    (r == row || r == grid.down(row)) && (c == col || c == grid.right(col))
}

/// `(r, c)` is one of the three cells of row `row` that are centred on
/// `(row, col)`.
pub open spec fn in_row_blinker(grid: Grid, row: int, col: int, r: int, c: int) -> bool {
    r == row && (c == grid.left(col) || c == col || c == grid.right(col))
}

/// `(r, c)` is one of the three cells of column `col` that are centred on
/// `(row, col)`.
pub open spec fn in_column_blinker(grid: Grid, row: int, col: int, r: int, c: int) -> bool {
    c == col && (r == grid.up(row) || r == row || r == grid.down(row))
}

/// The live cells of `grid` are exactly the four cells of the block at
/// `(row, col)`; every other cell is dead.
pub open spec fn is_block(grid: Grid, row: int, col: int) -> bool {
    &&& grid.wf()
    &&& grid.contains(row, col)
    &&& forall|r: int, c: int|
        grid.contains(r, c) ==> (#[trigger] grid.cell(r, c) is Alive <==> in_block(
            grid,
            row,
            col,
            r,
            c,
        ))
}

/// The live cells of `grid` are exactly the three cells of the blinker that
/// lies in a row with its centre at `(row, col)`; every other cell is dead.
pub open spec fn is_row_blinker(grid: Grid, row: int, col: int) -> bool {
    &&& grid.wf()
    &&& grid.contains(row, col)
    &&& forall|r: int, c: int|
        grid.contains(r, c) ==> (#[trigger] grid.cell(r, c) is Alive <==> in_row_blinker(
            grid,
            row,
            col,
            r,
            c,
        ))
}

/// The live cells of `grid` are exactly the three cells of the blinker that
/// stands in a column with its centre at `(row, col)`; every other cell is
/// dead.
pub open spec fn is_column_blinker(grid: Grid, row: int, col: int) -> bool {
    &&& grid.wf()
    &&& grid.contains(row, col)
    &&& forall|r: int, c: int|
        grid.contains(r, c) ==> (#[trigger] grid.cell(r, c) is Alive <==> in_column_blinker(
            grid,
            row,
            col,
            r,
            c,
        ))
}

/// A grid whose every cell is its own successor is its own next generation.
pub proof fn lemma_fixed_cells_fixed_grid(grid: Grid)
    requires
        grid.wf(),
        forall|r: int, c: int|
            grid.contains(r, c) ==> #[trigger] grid.next_cell(r, c) == grid.cell(r, c),
    ensures
        grid.next_generation() == grid,
{
    let next = grid.next_generation();
    assert forall|i: int| 0 <= i < grid.cells.len() implies next.cells[i] == grid.cells[i] by {
        grid.lemma_position(i);
        assert(grid.next_cell(i / grid.width, i % grid.width) == grid.cell(
            i / grid.width,
            i % grid.width,
        ));
    }
    assert(next.cells =~= grid.cells);
}

/// A block on a grid of at least three rows and three columns, with every
/// other cell dead, is a still life: the next generation is the same grid.
pub proof fn lemma_block_is_still(grid: Grid, row: int, col: int)
    requires
        is_block(grid, row, col),
        grid.width >= 3,
        grid.height >= 3,
    ensures
        grid.next_generation() == grid,
{
    grid.lemma_wrap(row, col);
    assert forall|r: int, c: int| grid.contains(r, c) implies #[trigger] grid.next_cell(r, c)
        == grid.cell(r, c) by {
        grid.lemma_wrap(r, c);
        grid.lemma_neighbours(r, c);
    }
    lemma_fixed_cells_fixed_grid(grid);
}

/// A block stays as it is for any number of generations.
pub proof fn lemma_block_stays(grid: Grid, row: int, col: int, n: nat)
    requires
        is_block(grid, row, col),
        grid.width >= 3,
        grid.height >= 3,
    ensures
        grid.generations(n) == grid,
    decreases n,
{
    if n > 0 {
        lemma_block_is_still(grid, row, col);
        lemma_block_stays(grid, row, col, (n - 1) as nat);
    }
}

/// A blinker that lies in a row, on a grid of at least four columns and
/// three rows, stands in the column through its centre one generation
/// later.
pub proof fn lemma_row_blinker_turns(grid: Grid, row: int, col: int)
    requires
        is_row_blinker(grid, row, col),
        grid.width >= 4,
        grid.height >= 3,
    ensures
        is_column_blinker(grid.next_generation(), row, col),
{
    let next = grid.next_generation();
    grid.lemma_next_generation();
    grid.lemma_wrap(row, col);
    assert forall|r: int, c: int| next.contains(r, c) implies (#[trigger] next.cell(r, c) is Alive
        <==> in_column_blinker(next, row, col, r, c)) by {
        grid.lemma_wrap(r, c);
        grid.lemma_neighbours(r, c);
        assert(next.cell(r, c) == grid.next_cell(r, c));
    }
}

/// A blinker that stands in a column, on a grid of at least four rows and
/// three columns, lies in the row through its centre one generation later.
pub proof fn lemma_column_blinker_turns(grid: Grid, row: int, col: int)
    requires
        is_column_blinker(grid, row, col),
        grid.width >= 3,
        grid.height >= 4,
    ensures
        is_row_blinker(grid.next_generation(), row, col),
{
    let next = grid.next_generation();
    grid.lemma_next_generation();
    grid.lemma_wrap(row, col);
    assert forall|r: int, c: int| next.contains(r, c) implies (#[trigger] next.cell(r, c) is Alive
        <==> in_row_blinker(next, row, col, r, c)) by {
        grid.lemma_wrap(r, c);
        grid.lemma_neighbours(r, c);
        assert(next.cell(r, c) == grid.next_cell(r, c));
    }
}

/// Two grids of the same dimensions that agree on which cells are alive
/// are the same grid.
pub proof fn lemma_same_cells_same_grid(a: Grid, b: Grid)
    requires
        a.wf(),
        b.wf(),
        a.width == b.width,
        a.height == b.height,
        forall|r: int, c: int| a.contains(r, c) ==> #[trigger] a.cell(r, c) == b.cell(r, c),
    ensures
        a == b,
{
    assert forall|i: int| 0 <= i < a.cells.len() implies a.cells[i] == b.cells[i] by {
        a.lemma_position(i);
        assert(a.cell(i / a.width, i % a.width) == b.cell(i / a.width, i % a.width));
    }
    assert(a.cells =~= b.cells);
}

/// A blinker on a grid of at least four rows and four columns oscillates
/// with period two: after one generation it has turned from its row into
/// the column through its centre, which is a different grid, and after two
/// generations it is the grid it was.
pub proof fn lemma_blinker_oscillates(grid: Grid, row: int, col: int)
    requires
        is_row_blinker(grid, row, col),
        grid.width >= 4,
        grid.height >= 4,
    ensures
        is_column_blinker(grid.generations(1), row, col),
        grid.generations(1) != grid,
        grid.generations(2) == grid,
{
    let once = grid.next_generation();
    let twice = once.next_generation();
    assert(grid.generations(1) == once && grid.generations(2) == twice) by {
        reveal_with_fuel(Grid::generations, 3);
    }
    grid.lemma_next_generation();
    once.lemma_next_generation();
    lemma_row_blinker_turns(grid, row, col);
    lemma_column_blinker_turns(once, row, col);
    grid.lemma_wrap(row, col);
    assert(once != grid) by {
        let beside = grid.right(col);
        assert(grid.cell(row, beside) is Alive);
        assert(once.cell(row, beside) is Dead);
    }
    assert forall|r: int, c: int| twice.contains(r, c) implies #[trigger] twice.cell(r, c)
        == grid.cell(r, c) by {
        assert(twice.cell(r, c) is Alive <==> grid.cell(r, c) is Alive);
    }
    lemma_same_cells_same_grid(twice, grid);
}

} // verus!
