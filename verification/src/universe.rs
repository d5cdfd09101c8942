//! The universe: the executable grid and its operations.

use crate::cell::Cell;
use crate::grid::{delta, initial_cell, Grid};
use vstd::prelude::*;

verus! {

/// A torus of cells of fixed size that advances one generation at a time.
///
/// The universe owns its cells. They are stored row by row, so the cell at
/// `(row, column)` is found at position `row * width + column`.
pub struct Universe {
    width: u32,
    height: u32,
    cells: Vec<Cell>,
}

impl View for Universe {
    type V = Grid;

    closed spec fn view(&self) -> Grid {
        Grid { width: self.width as nat, height: self.height as nat, cells: self.cells@ }
    }
}

impl Universe {
    #[verifier::type_invariant]
    spec fn inv(self) -> bool {
        self@.wf()
    }

    /// Makes the universe of 64 rows and 64 columns in its initial pattern.
    pub fn new() -> (universe: Universe)
        ensures
            universe@ == Grid::initial(64, 64),
    {
        Universe::with_size(64, 64)
    }

    /// Makes a universe of the given size in its initial pattern: the cells
    /// whose position in the buffer is a multiple of 2 or of 7 are alive, the
    /// others dead.
    pub fn with_size(width: u32, height: u32) -> (universe: Universe)
        requires
            width > 0,
            height > 0,
            width * height <= usize::MAX,
        ensures
            universe@ == Grid::initial(width as nat, height as nat),
    {
        let count: usize = (width as usize) * (height as usize);
        let mut cells: Vec<Cell> = Vec::new();
        for i in 0..count
            invariant
                cells@.len() == i,
                forall|k: int| 0 <= k < i ==> cells@[k] == initial_cell(k),
        {
            let cell = if i % 2 == 0 || i % 7 == 0 {
                Cell::Alive
            } else {
                Cell::Dead
            };
            cells.push(cell);
        }
        assert(cells@ =~= Grid::initial(width as nat, height as nat).cells);
        Universe { width, height, cells }
    }

    /// Makes the universe of the given size that holds the given cells, row
    /// by row.
    pub fn from_cells(width: u32, height: u32, cells: Vec<Cell>) -> (universe: Universe)
        requires
            width > 0,
            height > 0,
            cells@.len() == width * height,
        ensures
            universe@ == (Grid { width: width as nat, height: height as nat, cells: cells@ }),
    {
        Universe { width, height, cells }
    }

    /// The number of columns.
    pub fn width(&self) -> (width: u32)
        ensures
            width == self@.width,
            self@.wf(),
    {
        proof {
            use_type_invariant(self);
        }
        self.width
    }

    /// The number of rows.
    pub fn height(&self) -> (height: u32)
        ensures
            height == self@.height,
            self@.wf(),
    {
        proof {
            use_type_invariant(self);
        }
        self.height
    }

    /// The cells of the current generation, row by row. The borrow ends before
    /// the universe can change again.
    pub fn cells(&self) -> (cells: &[Cell])
        ensures
            cells@ == self@.cells,
            self@.wf(),
    {
        proof {
            use_type_invariant(self);
        }
        self.cells.as_slice()
    }

    /// The position of the cell `(row, column)` in the cell buffer.
    pub fn get_index(&self, row: u32, column: u32) -> (index: usize)
        requires
            self@.contains(row as int, column as int),
        ensures
            index == self@.index(row as int, column as int),
            index < self@.cells.len(),
    {
        proof {
            use_type_invariant(self);
            self@.lemma_index_in_bounds(row as int, column as int);
            assert(self.cells@.len() == self.cells.len());
        }
        (row as usize) * (self.width as usize) + (column as usize)
    }

    /// The number of live cells among the neighbours of `(row, column)`.
    ///
    /// The neighbours are reached by adding `height - 1`, 0 or 1 to the row
    /// and `width - 1`, 0 or 1 to the column, and wrapping each sum around its
    /// axis; the pair of two zeros is left out.
    pub fn live_neighbor_count(&self, row: u32, column: u32) -> (count: u8)
        requires
            self@.contains(row as int, column as int),
        ensures
            count == self@.live_neighbors(row as int, column as int),
            count <= 8,
    {
        proof {
            use_type_invariant(self);
        }
        let delta_rows: [u32; 3] = [self.height - 1, 0, 1];
        let delta_columns: [u32; 3] = [self.width - 1, 0, 1];
        let mut count: u8 = 0;
        for i in 0..3usize
            invariant
                self@.wf(),
                self@.contains(row as int, column as int),
                forall|k: int| 0 <= k < 3 ==> delta_rows[k] == delta(self@.height, k),
                forall|k: int| 0 <= k < 3 ==> delta_columns[k] == delta(self@.width, k),
                count == counted(self@, row as int, column as int, 3 * i as nat),
                count <= 3 * i,
        {
            for j in 0..3usize
                invariant
                    i < 3,
                    self@.wf(),
                    self@.contains(row as int, column as int),
                    forall|k: int| 0 <= k < 3 ==> delta_rows[k] == delta(self@.height, k),
                    forall|k: int| 0 <= k < 3 ==> delta_columns[k] == delta(self@.width, k),
                    count == counted(self@, row as int, column as int, (3 * i + j) as nat),
                    count <= 3 * i + j,
            {
                let delta_row = delta_rows[i];
                let delta_column = delta_columns[j];
                if delta_row != 0 || delta_column != 0 {
                    let neighbor_row = ((row as u64 + delta_row as u64) % (
                    self.height as u64)) as u32;
                    let neighbor_column = ((column as u64 + delta_column as u64) % (
                    self.width as u64)) as u32;
                    let index = self.get_index(neighbor_row, neighbor_column);
                    count += self.cells[index].to_u8();
                }
            }
        }
        proof {
            reveal_with_fuel(counted, 10);
        }
        count
    }

    /// The text of one row: one glyph for each of its cells, without a line
    /// break.
    pub fn render_row(&self, row: u32) -> (line: String)
        requires
            row < self@.height,
        ensures
            line@ == self@.row_text(row as int),
    {
        let mut line = String::new();
        self.append_row(&mut line, row);
        line
    }

    /// The text of the universe: the text of each row, each followed by a
    /// line break.
    pub fn render(&self) -> (text: String)
        ensures
            text@ == self@.text(),
    {
        proof {
            use_type_invariant(self);
        }
        let mut text = String::new();
        for row in 0..self.height
            invariant
                self@.wf(),
                text@.len() == row * (self@.width + 1),
                forall|i: int| 0 <= i < text@.len() ==> text@[i] == #[trigger] self@.text()[i],
        {
            let ghost before = text@;
            self.append_row(&mut text, row);
            text.append("\n");
            proof {
                reveal_strlit("\n");
                assert(row * (self@.width + 1) + (self@.width + 1) == (row + 1) * (self@.width
                    + 1)) by (nonlinear_arith);
                assert forall|i: int| before.len() <= i < text@.len() implies text@[i]
                    == #[trigger] self@.text()[i] by {
                    self@.lemma_text_position(row as int, i - before.len());
                }
            }
        }
        assert(text@ =~= self@.text());
        text
    }

    /// Appends the text of one row to `text`.
    fn append_row(&self, text: &mut String, row: u32)
        requires
            row < self@.height,
        ensures
            final(text)@ == old(text)@ + self@.row_text(row as int),
    {
        proof {
            use_type_invariant(self);
        }
        for column in 0..self.width
            invariant
                self@.wf(),
                row < self@.height,
                text@.len() == old(text)@.len() + column,
                forall|i: int| 0 <= i < old(text)@.len() ==> text@[i] == old(text)@[i],
                forall|j: int|
                    0 <= j < column ==> text@[old(text)@.len() + j] == #[trigger] self@.row_text(
                        row as int,
                    )[j],
        {
            let index = self.get_index(row, column);
            let symbol = if self.cells[index] == Cell::Dead {
                "\u{25FB}"
            } else {
                "\u{25FC}"
            };
            proof {
                reveal_strlit("\u{25FB}");
                reveal_strlit("\u{25FC}");
            }
            text.append(symbol);
        }
        assert(text@ =~= old(text)@ + self@.row_text(row as int));
    }

    /// Advances the universe by one generation.
    ///
    /// The whole next generation is computed from the cells of the current
    /// one and then takes its place; the size stays as it is.
    pub fn tick(&mut self)
        ensures
            final(self)@ == old(self)@.step(),
            final(self)@.wf(),
            final(self)@.width == old(self)@.width,
            final(self)@.height == old(self)@.height,
    {
        proof {
            use_type_invariant(&*self);
        }
        let mut next = self.cells.clone();

        for row in 0..self.height
            invariant
                self@.wf(),
                *self == *old(self),
                next@.len() == self@.cells.len(),
                forall|i: int|
                    0 <= i < row * self@.width ==> next@[i] == #[trigger] self@.step().cells[i],
        {
            for col in 0..self.width
                invariant
                    row < self@.height,
                    self@.wf(),
                    *self == *old(self),
                    next@.len() == self@.cells.len(),
                    forall|i: int|
                        0 <= i < row * self@.width + col ==> next@[i]
                            == #[trigger] self@.step().cells[i],
            {
                let idx = self.get_index(row, col);
                let cell = self.cells[idx];
                let live_neighbors = self.live_neighbor_count(row, col);

                let next_cell = match (cell, live_neighbors) {
                    // A live cell with fewer than two live neighbours dies.
                    (Cell::Alive, x) if x < 2 => Cell::Dead,
                    // A live cell with two or three live neighbours lives on.
                    (Cell::Alive, 2) | (Cell::Alive, 3) => Cell::Alive,
                    // A live cell with more than three live neighbours dies.
                    (Cell::Alive, x) if x > 3 => Cell::Dead,
                    // A dead cell with exactly three live neighbours comes alive.
                    (Cell::Dead, 3) => Cell::Alive,
                    // Every other cell stays as it is.
                    (otherwise, _) => otherwise,
                };

                proof {
                    self@.lemma_index_row_column(row as int, col as int);
                }
                next.set(idx, next_cell);
            }
            assert(row * self@.width + self@.width == (row + 1) * self@.width)
                by (nonlinear_arith);
        }

        assert(next@ =~= self@.step().cells) by {
            assert(self@.height * self@.width == self@.width * self@.height) by (nonlinear_arith);
        }
        self.cells = next;
    }
}

/// The sum of what the first `n` pairs of deltas add to the neighbour count of
/// `(row, column)`, the pairs taken row delta by row delta.
spec fn counted(grid: Grid, row: int, column: int, n: nat) -> nat
    decreases n,
{
    if n == 0 {
        0
    } else {
        counted(grid, row, column, (n - 1) as nat) + grid.contribution(
            row,
            column,
            (n - 1) / 3,
            (n - 1) % 3,
        )
    }
}

} // verus!
