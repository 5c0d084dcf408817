//! The executable grid: construction, shape, read access, mutation and the
//! simulation step.

use vstd::prelude::*;
use vstd::arithmetic::div_mod::lemma_fundamental_div_mod_converse;
use vstd::string::StringExecFns;
use crate::cell::Cell;
use crate::error::OutOfBounds;
use crate::grid::Grid;

verus! {

/// The width of a universe made by [`Universe::new`].
pub const DEFAULT_WIDTH: u32 = 64;

/// The height of a universe made by [`Universe::new`].
pub const DEFAULT_HEIGHT: u32 = 64;

/// The state in which [`Universe::new`] leaves the cell at buffer position
/// `index`: alive where `index` is a multiple of 2 or of 7.
pub open spec fn seed_cell(index: int) -> Cell {
    if index % 2 == 0 || index % 7 == 0 {
        Cell::Alive
    } else {
        Cell::Dead
    }
}

/// The grid that [`Universe::new`] makes.
pub open spec fn seed_grid() -> Grid {
    Grid {
        width: DEFAULT_WIDTH as nat,
        height: DEFAULT_HEIGHT as nat,
        cells: Seq::new(
            (DEFAULT_WIDTH * DEFAULT_HEIGHT) as nat,
            |index: int| seed_cell(index),
        ),
    }
}

/// A grid of cells and its dimensions: the whole state of the automaton.
///
/// The buffer always holds `width * height` cells, row by row.
pub struct Universe {
    width: u32,
    height: u32,
    cells: Vec<Cell>,
}

impl View for Universe {
    type V = Grid;

    closed spec fn view(&self) -> Grid {
        Grid { width: self.width as nat, height: self.height as nat, cells: self.cells@ }
    }
}

/// A buffer of `width * height` dead cells.
fn dead_cells(width: u32, height: u32) -> (cells: Vec<Cell>)
    requires
        width * height <= isize::MAX,
    ensures
        cells@ == Grid::blank(width as nat, height as nat).cells,
{
    let total: usize = (width as usize) * (height as usize);
    let mut cells: Vec<Cell> = Vec::with_capacity(total);
    let mut filled: usize = 0;
    while filled < total
        invariant
            filled <= total,
            cells@.len() == filled,
            forall|i: int| 0 <= i < filled ==> cells@[i] == Cell::Dead,
        decreases total - filled,
    {
        cells.push(Cell::Dead);
        filled += 1;
    }
    assert(cells@ =~= Grid::blank(width as nat, height as nat).cells);
    cells
}

/// The character at `offset` of line `row` of a text whose lines are `line`
/// characters long stands at `row * line + offset`, and nowhere else.
proof fn lemma_line_position(lines: int, line: int, row: int, offset: int)
    requires
        0 <= row < lines,
        0 <= offset < line,
    ensures
        0 <= row * line + offset < lines * line,
        (row * line + offset) / line == row,
        (row * line + offset) % line == offset,
{
    assert(0 <= row * line && row * line + line <= lines * line) by (nonlinear_arith)
        requires
            0 <= row < lines,
            0 < line,
    ;
    lemma_fundamental_div_mod_converse(row * line + offset, line, row, offset);
}

impl Universe {
    #[verifier::type_invariant]
    spec fn well_formed(&self) -> bool {
        self@.wf()
    }

    /// Makes the default universe: 64 by 64, seeded with a fixed pattern, so
    /// that every new universe starts the same.
    pub fn new() -> (universe: Universe)
        ensures
            universe@ == seed_grid(),
            universe@.wf(),
    {
        let total: usize = (DEFAULT_WIDTH as usize) * (DEFAULT_HEIGHT as usize);
        let mut cells: Vec<Cell> = Vec::with_capacity(total);
        let mut index: usize = 0;
        while index < total
            invariant
                total == DEFAULT_WIDTH * DEFAULT_HEIGHT,
                index <= total,
                cells@.len() == index,
                forall|i: int| 0 <= i < index ==> cells@[i] == seed_cell(i),
            decreases total - index,
        {
            let cell = if index % 2 == 0 || index % 7 == 0 {
                Cell::Alive
            } else {
                Cell::Dead
            };
            cells.push(cell);
            index += 1;
        }
        assert(cells@ =~= seed_grid().cells);
        Universe { width: DEFAULT_WIDTH, height: DEFAULT_HEIGHT, cells }
    }

    /// The number of columns.
    pub fn width(&self) -> (width: u32)
        ensures
            width == self@.width,
            self@.wf(),
    {
        proof {
            use_type_invariant(self);
        }
        self.width
    }

    /// The number of rows.
    pub fn height(&self) -> (height: u32)
        ensures
            height == self@.height,
            self@.wf(),
    {
        proof {
            use_type_invariant(self);
        }
        self.height
    }

    /// Sets the number of columns and resets every cell to dead.
    ///
    /// Nothing of the old contents is kept. The new grid must be one that the
    /// machine can hold: no buffer has more than `isize::MAX` cells.
    pub fn set_width(&mut self, width: u32)
        requires
            width * old(self)@.height <= isize::MAX,
        ensures
            final(self)@ == Grid::blank(width as nat, old(self)@.height),
            final(self)@.wf(),
    {
        let height = self.height;
        let cells = dead_cells(width, height);
        *self = Universe { width, height, cells };
    }

    /// Sets the number of rows and resets every cell to dead.
    ///
    /// Nothing of the old contents is kept. The new grid must be one that the
    /// machine can hold: no buffer has more than `isize::MAX` cells.
    pub fn set_height(&mut self, height: u32)
        requires
            old(self)@.width * height <= isize::MAX,
        ensures
            final(self)@ == Grid::blank(old(self)@.width, height as nat),
            final(self)@.wf(),
    {
        let width = self.width;
        let cells = dead_cells(width, height);
        *self = Universe { width, height, cells };
    }

    /// The cells, row by row, without copying them.
    pub fn get_cells(&self) -> (cells: &[Cell])
        ensures
            cells@ == self@.cells,
            self@.wf(),
    {
        proof {
            use_type_invariant(self);
        }
        self.cells.as_slice()
    }

    /// The cells as bytes, row by row: 0 for a dead cell, 1 for a live one,
    /// and no other value.
    pub fn to_bytes(&self) -> (bytes: Vec<u8>)
        ensures
            self@.wf(),
            bytes@.len() == self@.cells.len(),
            forall|i: int| 0 <= i < bytes@.len() ==> #[trigger] bytes@[i] == self@.cells[i].code(),
            forall|i: int| 0 <= i < bytes@.len() ==> #[trigger] bytes@[i] <= 1,
    {
        proof {
            use_type_invariant(self);
        }
        let mut bytes: Vec<u8> = Vec::with_capacity(self.cells.len());
        let mut index: usize = 0;
        while index < self.cells.len()
            invariant
                index <= self.cells@.len(),
                bytes@.len() == index,
                forall|i: int| 0 <= i < index ==> #[trigger] bytes@[i] == self.cells@[i].code(),
            decreases self.cells.len() - index,
        {
            bytes.push(self.cells[index].to_byte());
            index += 1;
        }
        bytes
    }

    /// Where the cell at `(row, column)` stands in the buffer.
    fn index(&self, row: u32, column: u32) -> (index: usize)
        requires
            self@.contains(row as int, column as int),
        ensures
            index == self@.index_of(row as int, column as int),
            index < self@.cells.len(),
    {
        proof {
            use_type_invariant(self);
            self@.lemma_index_in_range(row as int, column as int);
            assert(self.cells@.len() == self.cells.len());
            assert(0 <= row * self.width) by (nonlinear_arith)
                requires
                    0 <= row,
                    0 <= self.width,
            ;
        }
        (row as usize) * (self.width as usize) + (column as usize)
    }

    /// 1 if the cell at `(row, column)` is alive, else 0.
    fn alive(&self, row: u32, column: u32) -> (count: u8)
        requires
            self@.contains(row as int, column as int),
        ensures
            count == self@.alive_at(row as int, column as int),
            count <= 1,
    {
        proof {
            self@.lemma_neighbors(row as int, column as int);
        }
        let index = self.index(row, column);
        match self.cells[index] {
            Cell::Alive => 1,
            Cell::Dead => 0,
        }
    }

    /// Counts the live neighbours of a position of the grid.
    fn count_live_neighbors(&self, row: u32, column: u32) -> (count: u8)
        requires
            self@.contains(row as int, column as int),
        ensures
            count == self@.live_neighbors(row as int, column as int),
            count <= 8,
    {
        let north = if row == 0 {
            self.height - 1
        } else {
            row - 1
        };
        let south = if row == self.height - 1 {
            0
        } else {
            row + 1
        };
        let west = if column == 0 {
            self.width - 1
        } else {
            column - 1
        };
        let east = if column == self.width - 1 {
            0
        } else {
            column + 1
        };
        proof {
            let grid = self@;
            let (r, c) = (row as int, column as int);
            grid.lemma_neighbors(r, c);
            grid.lemma_neighbors(north as int, west as int);
            grid.lemma_neighbors(south as int, east as int);
            assert(grid.alive_at(r - 1, c - 1) == grid.alive_at(north as int, west as int));
            assert(grid.alive_at(r - 1, c) == grid.alive_at(north as int, c));
            assert(grid.alive_at(r - 1, c + 1) == grid.alive_at(north as int, east as int));
            assert(grid.alive_at(r, c - 1) == grid.alive_at(r, west as int));
            assert(grid.alive_at(r, c + 1) == grid.alive_at(r, east as int));
            assert(grid.alive_at(r + 1, c - 1) == grid.alive_at(south as int, west as int));
            assert(grid.alive_at(r + 1, c) == grid.alive_at(south as int, c));
            assert(grid.alive_at(r + 1, c + 1) == grid.alive_at(south as int, east as int));
        }
        let above = self.alive(north, west) + self.alive(north, column) + self.alive(north, east);
        let beside = self.alive(row, west) + self.alive(row, east);
        let below = self.alive(south, west) + self.alive(south, column) + self.alive(south, east);
        above + beside + below
    }

    /// How many of the eight neighbours of `(row, column)` are alive, the grid's
    /// edges being joined to their opposites.
    ///
    /// Fails if `(row, column)` is not a position of the grid.
    pub fn live_neighbor_count(&self, row: u32, column: u32) -> (result: Result<u8, OutOfBounds>)
        ensures
            self@.wf(),
            result is Ok <==> self@.contains(row as int, column as int),
            result matches Ok(count) ==> count == self@.live_neighbors(row as int, column as int),
            result matches Err(e) ==> e == (OutOfBounds { row, column }),
    {
        proof {
            use_type_invariant(self);
        }
        if row < self.height && column < self.width {
            Ok(self.count_live_neighbors(row, column))
        } else {
            Err(OutOfBounds { row, column })
        }
    }

    /// Flips the cell at `(row, column)` and leaves every other cell as it is.
    ///
    /// Fails, changing nothing, if `(row, column)` is not a position of the
    /// grid.
    pub fn toggle_cell(&mut self, row: u32, column: u32) -> (result: Result<(), OutOfBounds>)
        ensures
            final(self)@.wf(),
            result is Ok <==> old(self)@.contains(row as int, column as int),
            result is Ok ==> final(self)@ == old(self)@.toggled(row as int, column as int),
            result matches Err(e) ==> e == (OutOfBounds { row, column }) && final(self)@ == old(
                self,
            )@,
    {
        proof {
            use_type_invariant(&*self);
        }
        if row < self.height && column < self.width {
            let index = self.index(row, column);
            let cell = self.cells[index].toggled();
            self.cells[index] = cell;
            Ok(())
        } else {
            Err(OutOfBounds { row, column })
        }
    }

    /// Advances the universe by one generation.
    ///
    /// Every cell is replaced at once: each new state is computed from the
    /// generation before the call, never from a cell already replaced.
    pub fn tick(&mut self)
        ensures
            final(self)@ == old(self)@.step(),
            final(self)@.wf(),
    {
        proof {
            use_type_invariant(&*self);
        }
        let ghost before = self@;
        let mut next: Vec<Cell> = Vec::with_capacity(self.cells.len());
        let mut row: u32 = 0;
        while row < self.height
            invariant
                self@ == before,
                before.wf(),
                row <= self.height,
                next@.len() == row * self.width,
                forall|i: int| 0 <= i < next@.len() ==> next@[i] == before.step().cells[i],
            decreases self.height - row,
        {
            let mut column: u32 = 0;
            while column < self.width
                invariant
                    self@ == before,
                    before.wf(),
                    row < self.height,
                    column <= self.width,
                    next@.len() == row * self.width + column,
                    forall|i: int| 0 <= i < next@.len() ==> next@[i] == before.step().cells[i],
                decreases self.width - column,
            {
                proof {
                    before.lemma_index_in_range(row as int, column as int);
                }
                let index = self.index(row, column);
                let live_neighbors = self.count_live_neighbors(row, column);
                next.push(self.cells[index].evolve(live_neighbors));
                column += 1;
            }
            row += 1;
            assert(row * self.width == (row - 1) * self.width + self.width) by (nonlinear_arith);
        }
        assert(next@ =~= before.step().cells) by {
            assert(self.height * self.width == self.width * self.height) by (nonlinear_arith);
        }
        self.cells = next;
    }

    /// Makes every cell that `cells` names, by row and column, alive, and
    /// leaves every other cell as it is.
    ///
    /// Fails, changing nothing, if one of the pairs is not a position of the
    /// grid; the error holds the first such pair.
    pub fn set_cells(&mut self, cells: &[(u32, u32)]) -> (result: Result<(), OutOfBounds>)
        ensures
            final(self)@.wf(),
            result is Ok <==> old(self)@.contains_all(cells@),
            result is Ok ==> final(self)@ == old(self)@.with_alive(cells@),
            result matches Err(e) ==> final(self)@ == old(self)@ && exists|k: int|
                old(self)@.first_outside(cells@, k) && e == (OutOfBounds {
                    row: cells@[k].0,
                    column: cells@[k].1,
                }),
    {
        proof {
            use_type_invariant(&*self);
        }
        let ghost before = self@;
        let mut seen: usize = 0;
        while seen < cells.len()
            invariant
                self@ == before,
                before.wf(),
                seen <= cells@.len(),
                forall|j: int|
                    0 <= j < seen ==> before.contains(
                        (#[trigger] cells@[j]).0 as int,
                        cells@[j].1 as int,
                    ),
            decreases cells.len() - seen,
        {
            let (row, column) = cells[seen];
            if row >= self.height || column >= self.width {
                assert(before.first_outside(cells@, seen as int));
                return Err(OutOfBounds { row, column });
            }
            seen += 1;
        }
        let mut done: usize = 0;
        while done < cells.len()
            invariant
                before.wf(),
                before.contains_all(cells@),
                done <= cells@.len(),
                self@.width == before.width,
                self@.height == before.height,
                self@.cells.len() == before.cells.len(),
                forall|i: int|
                    0 <= i < before.cells.len() ==> #[trigger] self@.cells[i] == if before.names(
                        cells@.take(done as int),
                        i,
                    ) {
                        Cell::Alive
                    } else {
                        before.cells[i]
                    },
            decreases cells.len() - done,
        {
            let (row, column) = cells[done];
            let index = self.index(row, column);
            let ghost earlier = self@;
            self.cells[index] = Cell::Alive;
            proof {
                assert forall|i: int| 0 <= i < before.cells.len() implies #[trigger] self@.cells[i]
                    == if before.names(cells@.take(done + 1), i) {
                    Cell::Alive
                } else {
                    before.cells[i]
                } by {
                    before.lemma_names_extend(cells@, done as int, i);
                    assert(earlier.cells[i] == if before.names(cells@.take(done as int), i) {
                        Cell::Alive
                    } else {
                        before.cells[i]
                    });
                }
            }
            done += 1;
        }
        proof {
            assert(cells@.take(cells@.len() as int) =~= cells@);
            assert(self@.cells =~= before.with_alive(cells@).cells);
        }
        Ok(())
    }

    /// Writes the grid out as text: one line per row, one glyph per cell, a
    /// line feed after each row.
    pub fn render(&self) -> (text: String)
        ensures
            text@ == self@.rendered(),
            self@.wf(),
    {
        proof {
            use_type_invariant(self);
        }
        let ghost grid = self@;
        let ghost line: int = grid.width as int + 1;
        let mut text = String::new();
        let mut row: u32 = 0;
        while row < self.height
            invariant
                self@ == grid,
                grid.wf(),
                line == grid.width + 1,
                row <= self.height,
                text@.len() == row * line,
                forall|p: int| 0 <= p < text@.len() ==> text@[p] == grid.rendered()[p],
            decreases self.height - row,
        {
            let mut column: u32 = 0;
            while column < self.width
                invariant
                    self@ == grid,
                    grid.wf(),
                    line == grid.width + 1,
                    row < self.height,
                    column <= self.width,
                    text@.len() == row * line + column,
                    forall|p: int| 0 <= p < text@.len() ==> text@[p] == grid.rendered()[p],
                decreases self.width - column,
            {
                proof {
                    lemma_line_position(grid.height as int, line, row as int, column as int);
                }
                let index = self.index(row, column);
                text.append(self.cells[index].glyph_str());
                column += 1;
            }
            proof {
                lemma_line_position(grid.height as int, line, row as int, column as int);
                reveal_strlit("\n");
                assert("\n"@ =~= seq!['\n']);
            }
            text.append("\n");
            row += 1;
            assert(row * line == (row - 1) * line + line) by (nonlinear_arith);
        }
        assert(text@ =~= grid.rendered()) by {
            assert(self.height * line == grid.height * (grid.width + 1)) by (nonlinear_arith)
                requires
                    self.height == grid.height,
                    line == grid.width + 1,
            ;
        }
        text
    }
}

/// The generations of a universe are a function of its state: two universes
/// of the same shape that hold the same cells pass through the same
/// generations, however many times each is ticked, and each generation is
/// what one tick makes of the one before.
pub proof fn lemma_same_state_same_generations(first: Universe, second: Universe, n: nat)
    requires
        first@ == second@,
    ensures
        forall|k: nat| k <= n ==> first@.generation(k) == second@.generation(k),
        forall|k: nat|
            0 < k <= n ==> #[trigger] first@.generation(k) == first@.generation(
                (k - 1) as nat,
            ).step(),
{
}

} // verus!
