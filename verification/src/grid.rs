//! The mathematical model of a universe: a torus of cells and the rule that
//! takes it from one generation to the next.

use crate::cell::Cell;
use vstd::prelude::*;

verus! {

/// A rectangle of cells stored row by row, whose opposite edges are joined.
pub struct Grid {
    pub width: nat,
    pub height: nat,
    pub cells: Seq<Cell>,
}

/// What is added to a coordinate, on an axis of `size` positions, to reach the
/// position before it (`step` 0), the position itself (`step` 1) and the
/// position after it (`step` 2), once the sum is wrapped modulo `size`.
/// Going back by one is going ahead by `size - 1`, which keeps the sum a
/// natural number.
pub open spec fn delta(size: nat, step: int) -> int {
    if step == 0 {
        size - 1
    } else if step == 1 {
        0
    } else {
        1
    }
}

/// The state a cell takes in the next generation: a cell with exactly three
/// live neighbours is alive, a live cell with exactly two stays alive, and
/// every other cell is dead.
pub open spec fn next_state(cell: Cell, live_neighbors: int) -> Cell {
    if live_neighbors == 3 || (cell == Cell::Alive && live_neighbors == 2) {
        Cell::Alive
    } else {
        Cell::Dead
    }
}

/// The state of the cell at flat position `index` in a freshly made universe:
/// alive where the position is a multiple of 2 or of 7.
pub open spec fn initial_cell(index: int) -> Cell {
    if index % 2 == 0 || index % 7 == 0 {
        Cell::Alive
    } else {
        Cell::Dead
    }
}

/// The character that stands for a cell in the text form of a grid.
pub open spec fn glyph(cell: Cell) -> char {
    match cell {
        Cell::Dead => '\u{25FB}',
        Cell::Alive => '\u{25FC}',
    }
}

impl Grid {
    /// A grid has at least one row and one column, and exactly one cell for
    /// each pair of a row and a column.
    pub open spec fn wf(self) -> bool {
        &&& self.width > 0
        &&& self.height > 0
        &&& self.cells.len() == self.width * self.height
    }

    /// Whether `(row, column)` names a cell of the grid.
    pub open spec fn contains(self, row: int, column: int) -> bool {
        0 <= row < self.height && 0 <= column < self.width
    }

    /// The position of the cell `(row, column)` in the row-major sequence.
    pub open spec fn index(self, row: int, column: int) -> int {
        row * self.width + column
    }

    /// The cell at `(row, column)`.
    pub open spec fn cell(self, row: int, column: int) -> Cell {
        self.cells[self.index(row, column)]
    }

    /// The cell at `(row, column)` after both coordinates are wrapped around
    /// the torus, so that row `-1` is the last row and row `height` the first.
    pub open spec fn wrapped(self, row: int, column: int) -> Cell {
        self.cell(row % (self.height as int), column % (self.width as int))
    }

    /// What the cell reached from `(row, column)` by the `i`-th row delta and
    /// the `j`-th column delta adds to the neighbour count of `(row, column)`.
    ///
    /// A pair of deltas that are both zero reaches the cell itself and adds
    /// nothing. On an axis with a single position the delta that goes back is
    /// zero as well, so there more than one pair adds nothing.
    pub open spec fn contribution(self, row: int, column: int, i: int, j: int) -> nat {
        let delta_row = delta(self.height, i);
        let delta_column = delta(self.width, j);
        if delta_row == 0 && delta_column == 0 {
            0
        } else {
            self.wrapped(row + delta_row, column + delta_column).value()
        }
    }

    /// The number of live neighbours of `(row, column)`: the sum of the values
    /// of the cells reached by every pair of a row delta and a column delta.
    ///
    /// No pair is left out for reaching a cell that another pair reaches: on
    /// an axis with fewer than three positions the deltas wrap onto each
    /// other, and a cell met twice counts twice.
    pub open spec fn live_neighbors(self, row: int, column: int) -> nat {
        self.contribution(row, column, 0, 0) + self.contribution(row, column, 0, 1)
            + self.contribution(row, column, 0, 2) + self.contribution(row, column, 1, 0)
            + self.contribution(row, column, 1, 1) + self.contribution(row, column, 1, 2)
            + self.contribution(row, column, 2, 0) + self.contribution(row, column, 2, 1)
            + self.contribution(row, column, 2, 2)
    }

    /// The state of `(row, column)` one generation later.
    pub open spec fn next_cell(self, row: int, column: int) -> Cell {
        next_state(self.cell(row, column), self.live_neighbors(row, column) as int)
    }

    /// The next generation: every cell is replaced by its next state, each
    /// computed from the cells of this generation.
    pub open spec fn step(self) -> Grid {
        Grid {
            width: self.width,
            height: self.height,
            cells: Seq::new(
                self.cells.len(),
                |i: int| self.next_cell(i / (self.width as int), i % (self.width as int)),
            ),
        }
    }

    /// The grid `generations` steps later.
    pub open spec fn after(self, generations: nat) -> Grid
        decreases generations,
    {
        if generations == 0 {
            self
        } else {
            self.after((generations - 1) as nat).step()
        }
    }

    /// The grid of the given size that a freshly made universe holds.
    pub open spec fn initial(width: nat, height: nat) -> Grid {
        Grid { width, height, cells: Seq::new(width * height, |i: int| initial_cell(i)) }
    }

    /// Every cell of the grid has its place in the cell sequence.
    pub proof fn lemma_index_in_bounds(self, row: int, column: int)
        requires
            self.wf(),
            self.contains(row, column),
        ensures
            0 <= self.index(row, column) < self.cells.len(),
    {
        let w = self.width as int;
        let h = self.height as int;
        assert(0 <= row * w && row * w + w <= h * w) by (nonlinear_arith)
            requires
                0 <= row < h,
                0 < w,
        ;
        assert(h * w == w * h) by (nonlinear_arith);
    }

    /// A position in the cell sequence and the cell's row and column
    /// determine each other: the row is the quotient of the position by the
    /// width, the column the remainder.
    pub proof fn lemma_index_row_column(self, row: int, column: int)
        requires
            self.wf(),
            self.contains(row, column),
        ensures
            self.index(row, column) / (self.width as int) == row,
            self.index(row, column) % (self.width as int) == column,
    {
        vstd::arithmetic::div_mod::lemma_fundamental_div_mod_converse(
            self.index(row, column),
            self.width as int,
            row,
            column,
        );
    }

    /// Where the text of a row stands in the text of the grid: the character
    /// `column` places into row `row` is the glyph of that cell, and the one
    /// after the row's last glyph is a line break.
    pub proof fn lemma_text_position(self, row: int, column: int)
        requires
            self.wf(),
            0 <= row < self.height,
            0 <= column <= self.width,
        ensures
            0 <= row * (self.width + 1) + column < self.text().len(),
            self.text()[row * (self.width + 1) + column] == if column == self.width {
                '\n'
            } else {
                glyph(self.cell(row, column))
            },
    {
        let line = (self.width + 1) as int;
        let h = self.height as int;
        assert(0 <= row * line && row * line + line <= h * line) by (nonlinear_arith)
            requires
                0 <= row < h,
                0 < line,
        ;
        vstd::arithmetic::div_mod::lemma_fundamental_div_mod_converse(
            row * line + column,
            line,
            row,
            column,
        );
    }

    /// The text of one row: the glyph of each of its cells, in column order.
    pub open spec fn row_text(self, row: int) -> Seq<char> {
        Seq::new(self.width, |column: int| glyph(self.cell(row, column)))
    }

    /// The text of the whole grid: each row's text followed by a line break,
    /// in row order.
    pub open spec fn text(self) -> Seq<char> {
        Seq::new(
            self.height * (self.width + 1),
            |i: int|
                {
                    let line = (self.width + 1) as int;
                    let row = i / line;
                    let column = i % line;
                    if column == self.width {
                        '\n'
                    } else {
                        glyph(self.cell(row, column))
                    }
                },
        )
    }
}

} // verus!
