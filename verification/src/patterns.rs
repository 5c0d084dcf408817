//! Two classic patterns and what the rule does to them, wherever on the torus
//! they lie: the block, which never changes, and the blinker, which turns a
//! quarter turn with every generation.

use vstd::prelude::*;
use crate::cell::Cell;
use crate::grid::Grid;

verus! {

/// Whether `(row, column)` is one of the four positions of the 2 by 2 block
/// whose upper left corner is `(top, left)`. A block on the last row or
/// column continues on the first.
pub open spec fn in_block(grid: Grid, top: int, left: int, row: int, column: int) -> bool {
    (row == top || row == grid.wrap_row(top + 1)) && (column == left || column
        == grid.wrap_column(left + 1))
}

/// Whether the live cells of `grid` are exactly a 2 by 2 block with its upper
/// left corner at `(top, left)`.
pub open spec fn is_block(grid: Grid, top: int, left: int) -> bool {
    &&& grid.wf()
    &&& grid.contains(top, left)
    &&& forall|row: int, column: int|
        grid.contains(row, column) ==> (#[trigger] grid.cell(row, column) == Cell::Alive
            <==> in_block(grid, top, left, row, column))
}

/// A block alone on a grid at least three cells wide and tall is a still
/// life: the next generation is the same grid.
pub proof fn lemma_block_is_still(grid: Grid, top: int, left: int)
    requires
        grid.width >= 3,
        grid.height >= 3,
        is_block(grid, top, left),
    ensures
        grid.step() == grid,
{
    let next = grid.step();
    grid.lemma_neighbors(top, left);
    assert forall|row: int, column: int| grid.contains(row, column) implies #[trigger] next.cell(
        row,
        column,
    ) == grid.cell(row, column) by {
        grid.lemma_step_cell(row, column);
        grid.lemma_neighbors(row, column);
    }
    grid.lemma_step_cell(top, left);
    next.lemma_equal_by_cells(grid);
}

/// A block alone on a grid at least three cells wide and tall stays as it
/// is for any number of generations.
pub proof fn lemma_block_stays(grid: Grid, top: int, left: int, n: nat)
    requires
        grid.width >= 3,
        grid.height >= 3,
        is_block(grid, top, left),
    ensures
        grid.generation(n) == grid,
    decreases n,
{
    if n > 0 {
        lemma_block_stays(grid, top, left, (n - 1) as nat);
        lemma_block_is_still(grid, top, left);
    }
}

/// Whether `(row, column)` is one of the three positions of the horizontal
/// line whose middle is `(middle_row, middle_column)`.
pub open spec fn in_row_of_three(
    grid: Grid,
    middle_row: int,
    middle_column: int,
    row: int,
    column: int,
) -> bool {
    row == middle_row && (column == grid.wrap_column(middle_column - 1) || column == middle_column
        || column == grid.wrap_column(middle_column + 1))
}

/// Whether `(row, column)` is one of the three positions of the vertical
/// line whose middle is `(middle_row, middle_column)`.
pub open spec fn in_column_of_three(
    grid: Grid,
    middle_row: int,
    middle_column: int,
    row: int,
    column: int,
) -> bool {
    column == middle_column && (row == grid.wrap_row(middle_row - 1) || row == middle_row || row
        == grid.wrap_row(middle_row + 1))
}

/// Whether the live cells of `grid` are exactly three in a horizontal line
/// with `(row, column)` in the middle.
pub open spec fn is_horizontal_blinker(grid: Grid, row: int, column: int) -> bool {
    &&& grid.wf()
    &&& grid.contains(row, column)
    &&& forall|r: int, c: int|
        grid.contains(r, c) ==> (#[trigger] grid.cell(r, c) == Cell::Alive <==> in_row_of_three(
            grid,
            row,
            column,
            r,
            c,
        ))
}

/// Whether the live cells of `grid` are exactly three in a vertical line with
/// `(row, column)` in the middle.
pub open spec fn is_vertical_blinker(grid: Grid, row: int, column: int) -> bool {
    &&& grid.wf()
    &&& grid.contains(row, column)
    &&& forall|r: int, c: int|
        grid.contains(r, c) ==> (#[trigger] grid.cell(r, c) == Cell::Alive <==> in_column_of_three(
            grid,
            row,
            column,
            r,
            c,
        ))
}

/// One generation turns a horizontal blinker into the vertical blinker with
/// the same middle.
pub proof fn lemma_blinker_stands_up(grid: Grid, row: int, column: int)
    requires
        grid.width >= 4,
        grid.height >= 3,
        is_horizontal_blinker(grid, row, column),
    ensures
        is_vertical_blinker(grid.step(), row, column),
{
    let next = grid.step();
    grid.lemma_neighbors(row, column);
    grid.lemma_step_cell(row, column);
    assert forall|r: int, c: int| next.contains(r, c) implies (#[trigger] next.cell(r, c)
        == Cell::Alive <==> in_column_of_three(next, row, column, r, c)) by {
        grid.lemma_step_cell(r, c);
        grid.lemma_neighbors(r, c);
    }
}

/// One generation turns a vertical blinker into the horizontal blinker with
/// the same middle.
pub proof fn lemma_blinker_lies_down(grid: Grid, row: int, column: int)
    requires
        grid.width >= 3,
        grid.height >= 4,
        is_vertical_blinker(grid, row, column),
    ensures
        is_horizontal_blinker(grid.step(), row, column),
{
    let next = grid.step();
    grid.lemma_neighbors(row, column);
    grid.lemma_step_cell(row, column);
    assert forall|r: int, c: int| next.contains(r, c) implies (#[trigger] next.cell(r, c)
        == Cell::Alive <==> in_row_of_three(next, row, column, r, c)) by {
        grid.lemma_step_cell(r, c);
        grid.lemma_neighbors(r, c);
    }
}

/// A horizontal blinker has period two: after one generation it is the
/// vertical blinker with the same middle, and after two it is the grid it
/// was.
pub proof fn lemma_blinker_period_two(grid: Grid, row: int, column: int)
    requires
        grid.width >= 4,
        grid.height >= 4,
        is_horizontal_blinker(grid, row, column),
    ensures
        is_vertical_blinker(grid.generation(1), row, column),
        grid.generation(2) == grid,
{
    let first = grid.step();
    let second = first.step();
    lemma_blinker_stands_up(grid, row, column);
    lemma_blinker_lies_down(first, row, column);
    assert forall|r: int, c: int| second.contains(r, c) implies #[trigger] second.cell(r, c)
        == grid.cell(r, c) by {
        assert(in_row_of_three(second, row, column, r, c) == in_row_of_three(
            grid,
            row,
            column,
            r,
            c,
        ));
    }
    second.lemma_equal_by_cells(grid);
    assert(grid.generation(1) == first) by {
        reveal_with_fuel(Grid::generation, 2);
    }
    assert(grid.generation(2) == second) by {
        reveal_with_fuel(Grid::generation, 3);
    }
}

} // verus!
