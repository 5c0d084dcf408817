//! The mathematical model of the automaton: a grid as a value, and what one
//! generation does to it.
//!
//! Nothing here runs. The executable [`crate::Universe`] is described by the
//! [`Grid`] it stands for, and its operations by the functions of this
//! module.

use vstd::prelude::*;
use vstd::arithmetic::div_mod::{
    lemma_fundamental_div_mod,
    lemma_fundamental_div_mod_converse,
    lemma_mod_bound,
    lemma_multiply_divide_lt,
};
use crate::cell::Cell;

verus! {

/// A rectangular grid of cells, stored row by row.
///
/// The cell at `(row, column)` is `cells[row * width + column]`.
#[verifier::ext_equal]
pub struct Grid {
    pub width: nat,
    pub height: nat,
    pub cells: Seq<Cell>,
}

impl Grid {
    /// The buffer holds exactly one cell per position.
    pub open spec fn wf(self) -> bool {
        self.cells.len() == self.width * self.height
    }

    /// Whether `(row, column)` is a position of this grid.
    pub open spec fn contains(self, row: int, column: int) -> bool {
        0 <= row < self.height && 0 <= column < self.width
    }

    /// Where the cell at `(row, column)` stands in the buffer.
    pub open spec fn index_of(self, row: int, column: int) -> int {
        row * self.width + column
    }

    /// The cell at `(row, column)`.
    pub open spec fn cell(self, row: int, column: int) -> Cell {
        self.cells[self.index_of(row, column)]
    }

    /// The row that `row` names once the top and bottom edges are joined.
    pub open spec fn wrap_row(self, row: int) -> int {
        row % (self.height as int)
    }

    /// The column that `column` names once the left and right edges are joined.
    pub open spec fn wrap_column(self, column: int) -> int {
        column % (self.width as int)
    }

    /// 1 if the cell found at `(row, column)` on the torus is alive, else 0.
    pub open spec fn alive_at(self, row: int, column: int) -> int {
        if self.cell(self.wrap_row(row), self.wrap_column(column)) == Cell::Alive {
            1
        } else {
            0
        }
    }

    /// How many of the eight neighbours of `(row, column)` are alive, the
    /// neighbours of an edge cell being taken from the opposite edge.
    pub open spec fn live_neighbors(self, row: int, column: int) -> int {
        self.alive_at(row - 1, column - 1) + self.alive_at(row - 1, column) + self.alive_at(
            row - 1,
            column + 1,
        ) + self.alive_at(row, column - 1) + self.alive_at(row, column + 1) + self.alive_at(
            row + 1,
            column - 1,
        ) + self.alive_at(row + 1, column) + self.alive_at(row + 1, column + 1)
    }

    /// The state of `(row, column)` in the next generation.
    pub open spec fn next_cell(self, row: int, column: int) -> Cell {
        self.cell(row, column).next_state(self.live_neighbors(row, column))
    }

    /// The next generation: every cell is replaced at once, each by the rule
    /// applied to this generation.
    pub open spec fn step(self) -> Grid {
        Grid {
            width: self.width,
            height: self.height,
            cells: Seq::new(
                self.width * self.height,
                |i: int| self.next_cell(i / (self.width as int), i % (self.width as int)),
            ),
        }
    }

    /// The grid after `n` generations.
    pub open spec fn generation(self, n: nat) -> Grid
        decreases n,
    {
        if n == 0 {
            self
        } else {
            self.generation((n - 1) as nat).step()
        }
    }

    /// A grid of the given shape with every cell dead.
    pub open spec fn blank(width: nat, height: nat) -> Grid {
        Grid { width, height, cells: Seq::new(width * height, |i: int| Cell::Dead) }
    }

    /// The grid with the cell at `(row, column)` flipped and every other
    /// cell kept.
    pub open spec fn toggled(self, row: int, column: int) -> Grid {
        Grid {
            width: self.width,
            height: self.height,
            cells: self.cells.update(
                self.index_of(row, column),
                self.cell(row, column).flipped(),
            ),
        }
    }

    /// Whether every pair of `coords` is a position of this grid.
    pub open spec fn contains_all(self, coords: Seq<(u32, u32)>) -> bool {
        forall|k: int|
            0 <= k < coords.len() ==> self.contains(
                (#[trigger] coords[k]).0 as int,
                coords[k].1 as int,
            )
    }

    /// Whether one of the pairs of `coords` names the buffer position `index`.
    pub open spec fn names(self, coords: Seq<(u32, u32)>, index: int) -> bool {
        exists|k: int|
            0 <= k < coords.len() && self.index_of(
                (#[trigger] coords[k]).0 as int,
                coords[k].1 as int,
            ) == index
    }

    /// Whether `k` is the place of the first pair of `coords` that is not a
    /// position of this grid.
    pub open spec fn first_outside(self, coords: Seq<(u32, u32)>, k: int) -> bool {
        &&& 0 <= k < coords.len()
        &&& !self.contains(coords[k].0 as int, coords[k].1 as int)
        &&& forall|j: int|
            0 <= j < k ==> self.contains((#[trigger] coords[j]).0 as int, coords[j].1 as int)
    }

    /// The grid with every cell that `coords` names alive, and every other
    /// cell kept.
    pub open spec fn with_alive(self, coords: Seq<(u32, u32)>) -> Grid {
        Grid {
            width: self.width,
            height: self.height,
            cells: Seq::new(
                self.cells.len(),
                |i: int|
                    if self.names(coords, i) {
                        Cell::Alive
                    } else {
                        self.cells[i]
                    },
            ),
        }
    }

    /// The textual dump of the grid: one line per row, top row first, each
    /// line holding the glyph of every cell of the row, left to right, and
    /// ending in a line feed.
    pub open spec fn rendered(self) -> Seq<char> {
        let line = self.width as int + 1;
        Seq::new(
            self.height * (self.width + 1),
            |p: int|
                if p % line == line - 1 {
                    '\n'
                } else {
                    self.cell(p / line, p % line).glyph()
                },
        )
    }

    /// A position of the grid has its own place in the buffer.
    pub proof fn lemma_index_in_range(self, row: int, column: int)
        requires
            self.wf(),
            self.contains(row, column),
        ensures
            0 <= self.index_of(row, column) < self.cells.len(),
            self.index_of(row, column) / (self.width as int) == row,
            self.index_of(row, column) % (self.width as int) == column,
    {
        let w = self.width as int;
        let h = self.height as int;
        assert(0 <= row * w && row * w + w <= h * w) by (nonlinear_arith)
            requires
                0 <= row < h,
                0 < w,
        ;
        assert(h * w == self.width * self.height) by (nonlinear_arith)
            requires
                w == self.width,
                h == self.height,
        ;
        lemma_fundamental_div_mod_converse(row * w + column, w, row, column);
    }

    /// Every place in the buffer belongs to exactly one position of the grid.
    pub proof fn lemma_index_split(self, index: int)
        requires
            self.wf(),
            0 <= index < self.cells.len(),
        ensures
            self.contains(index / (self.width as int), index % (self.width as int)),
            self.index_of(index / (self.width as int), index % (self.width as int)) == index,
    {
        let w = self.width as int;
        let h = self.height as int;
        assert(w > 0) by (nonlinear_arith)
            requires
                0 <= w,
                0 <= h,
                0 <= index < w * h,
        ;
        lemma_fundamental_div_mod(index, w);
        lemma_mod_bound(index, w);
        lemma_multiply_divide_lt(index, w, h);
        assert(0 <= index / w) by (nonlinear_arith)
            requires
                0 < w,
                0 <= index,
                index == w * (index / w) + (index % w),
                0 <= index % w < w,
        ;
        assert(w * (index / w) == (index / w) * w) by (nonlinear_arith);
    }

    /// Joining the edges takes a coordinate less than one grid length off the
    /// grid back onto it, by that length, and leaves a coordinate of the grid
    /// where it is.
    pub proof fn lemma_wrap(size: int, coordinate: int)
        requires
            0 < size,
            -size <= coordinate < 2 * size,
        ensures
            coordinate % size == if coordinate < 0 {
                coordinate + size
            } else if coordinate < size {
                coordinate
            } else {
                coordinate - size
            },
    {
        if coordinate < 0 {
            lemma_fundamental_div_mod_converse(coordinate, size, -1, coordinate + size);
        } else if coordinate < size {
            lemma_fundamental_div_mod_converse(coordinate, size, 0, coordinate);
        } else {
            lemma_fundamental_div_mod_converse(coordinate, size, 1, coordinate - size);
        }
    }

    /// Where the neighbours of a position of the grid are: one row up or down
    /// and one column left or right, each taken to the opposite edge where it
    /// leaves the grid.
    pub proof fn lemma_neighbors(self, row: int, column: int)
        requires
            self.contains(row, column),
        ensures
            self.wrap_row(row) == row,
            self.wrap_row(row - 1) == if row == 0 {
                self.height - 1
            } else {
                row - 1
            },
            self.wrap_row(row + 1) == if row == self.height - 1 {
                0
            } else {
                row + 1
            },
            self.wrap_column(column) == column,
            self.wrap_column(column - 1) == if column == 0 {
                self.width - 1
            } else {
                column - 1
            },
            self.wrap_column(column + 1) == if column == self.width - 1 {
                0
            } else {
                column + 1
            },
    {
        Self::lemma_wrap(self.height as int, row - 1);
        Self::lemma_wrap(self.height as int, row);
        Self::lemma_wrap(self.height as int, row + 1);
        Self::lemma_wrap(self.width as int, column - 1);
        Self::lemma_wrap(self.width as int, column);
        Self::lemma_wrap(self.width as int, column + 1);
    }

    /// The next generation holds, at each position, the next state of that
    /// position.
    pub proof fn lemma_step_cell(self, row: int, column: int)
        requires
            self.wf(),
            self.contains(row, column),
        ensures
            self.step().wf(),
            self.step().cell(row, column) == self.next_cell(row, column),
    {
        self.lemma_index_in_range(row, column);
    }

    /// Two grids of one shape that agree at every position are the same grid.
    pub proof fn lemma_equal_by_cells(self, other: Grid)
        requires
            self.wf(),
            other.wf(),
            self.width == other.width,
            self.height == other.height,
            forall|row: int, column: int|
                self.contains(row, column) ==> #[trigger] self.cell(row, column) == other.cell(
                    row,
                    column,
                ),
        ensures
            self == other,
    {
        assert forall|i: int| 0 <= i < self.cells.len() implies self.cells[i] == other.cells[i] by {
            self.lemma_index_split(i);
            let row = i / (self.width as int);
            let column = i % (self.width as int);
            assert(self.cell(row, column) == other.cell(row, column));
        }
        assert(self.cells =~= other.cells);
    }

    /// One more pair names one more place, and no other.
    pub proof fn lemma_names_extend(self, coords: Seq<(u32, u32)>, k: int, index: int)
        requires
            0 <= k < coords.len(),
        ensures
            self.names(coords.take(k + 1), index) <==> self.names(coords.take(k), index)
                || self.index_of(coords[k].0 as int, coords[k].1 as int) == index,
    {
        let shorter = coords.take(k);
        let longer = coords.take(k + 1);
        if self.names(shorter, index) {
            let j = choose|j: int|
                0 <= j < shorter.len() && self.index_of(
                    (#[trigger] shorter[j]).0 as int,
                    shorter[j].1 as int,
                ) == index;
            assert(longer[j] == shorter[j]);
        }
        if self.index_of(coords[k].0 as int, coords[k].1 as int) == index {
            assert(longer[k] == coords[k]);
        }
        if self.names(longer, index) {
            let j = choose|j: int|
                0 <= j < longer.len() && self.index_of(
                    (#[trigger] longer[j]).0 as int,
                    longer[j].1 as int,
                ) == index;
            if j < k {
                assert(shorter[j] == longer[j]);
            } else {
                assert(longer[j] == coords[k]);
            }
        }
    }

    /// Every generation has the shape of the first, and a full buffer.
    pub proof fn lemma_generation_shape(self, n: nat)
        ensures
            self.generation(n).width == self.width,
            self.generation(n).height == self.height,
            self.wf() ==> self.generation(n).wf(),
        decreases n,
    {
        if n > 0 {
            self.lemma_generation_shape((n - 1) as nat);
        }
    }

    /// A grid without cells has itself as its next generation.
    pub proof fn lemma_step_of_empty(self)
        requires
            self.wf(),
            self.width == 0 || self.height == 0,
        ensures
            self.step() == self,
    {
        assert(self.width * self.height == 0) by (nonlinear_arith)
            requires
                self.width == 0 || self.height == 0,
        ;
        assert(self.step().cells =~= self.cells);
    }
}

} // verus!
