//! What holds of every grid and of every run of generations.

use crate::cell::Cell;
use crate::grid::{next_state, Grid};
use vstd::arithmetic::div_mod::lemma_mod_add_multiples_vanish;
use vstd::prelude::*;

verus! {

/// The rules of the game, one by one: a live cell with fewer than two live
/// neighbours dies, one with two or three lives on, one with more than three
/// dies; a dead cell with exactly three live neighbours comes alive, and any
/// other dead cell stays dead.
pub proof fn lemma_rules(cell: Cell, live_neighbors: int)
    ensures
        cell == Cell::Alive && live_neighbors < 2 ==> next_state(cell, live_neighbors)
            == Cell::Dead,
        cell == Cell::Alive && (live_neighbors == 2 || live_neighbors == 3) ==> next_state(
            cell,
            live_neighbors,
        ) == Cell::Alive,
        cell == Cell::Alive && live_neighbors > 3 ==> next_state(cell, live_neighbors)
            == Cell::Dead,
        cell == Cell::Dead && live_neighbors == 3 ==> next_state(cell, live_neighbors)
            == Cell::Alive,
        cell == Cell::Dead && live_neighbors != 3 ==> next_state(cell, live_neighbors)
            == Cell::Dead,
{
}

impl Grid {
    /// No cell has more than eight live neighbours.
    pub proof fn lemma_live_neighbors_at_most_eight(self, row: int, column: int)
        ensures
            self.live_neighbors(row, column) <= 8,
    {
    }

    /// On a grid with at least two rows and two columns, the live neighbours
    /// of a cell are the live cells among the eight around it on the torus:
    /// the rows above and below and the columns to the left and to the right
    /// wrap around the edges.
    pub proof fn lemma_live_neighbors_surround(self, row: int, column: int)
        requires
            self.height >= 2,
            self.width >= 2,
        ensures
            self.live_neighbors(row, column) == self.wrapped(row - 1, column - 1).value()
                + self.wrapped(row - 1, column).value() + self.wrapped(row - 1, column + 1).value()
                + self.wrapped(row, column - 1).value() + self.wrapped(row, column + 1).value()
                + self.wrapped(row + 1, column - 1).value() + self.wrapped(row + 1, column).value()
                + self.wrapped(row + 1, column + 1).value(),
    {
        let h = self.height as int;
        let w = self.width as int;
        lemma_mod_add_multiples_vanish(row - 1, h);
        lemma_mod_add_multiples_vanish(column - 1, w);
        assert(row + (h - 1) == h + (row - 1));
        assert(column + (w - 1) == w + (column - 1));
    }

    /// Every position in the cell sequence is that of a cell of the grid.
    pub proof fn lemma_position(self, i: int)
        requires
            self.wf(),
            0 <= i < self.cells.len(),
        ensures
            self.contains(i / (self.width as int), i % (self.width as int)),
            self.index(i / (self.width as int), i % (self.width as int)) == i,
    {
        let w = self.width as int;
        let h = self.height as int;
        vstd::arithmetic::div_mod::lemma_fundamental_div_mod(i, w);
        assert(w * (i / w) == (i / w) * w) by (nonlinear_arith);
        assert(0 <= i / w < h) by (nonlinear_arith)
            requires
                0 <= i < w * h,
                0 < w,
                i == (i / w) * w + i % w,
                0 <= i % w < w,
        ;
    }

    /// One generation later every cell of the grid is in its next state.
    pub proof fn lemma_step_cell(self, row: int, column: int)
        requires
            self.wf(),
            self.contains(row, column),
        ensures
            self.step().cell(row, column) == next_state(
                self.cell(row, column),
                self.live_neighbors(row, column) as int,
            ),
    {
        self.lemma_index_in_bounds(row, column);
        self.lemma_index_row_column(row, column);
    }

    /// A step keeps the size of the grid, and with it the number of cells.
    pub proof fn lemma_step_keeps_shape(self)
        requires
            self.wf(),
        ensures
            self.step().wf(),
            self.step().width == self.width,
            self.step().height == self.height,
            self.step().cells.len() == self.width * self.height,
    {
    }

    /// However many generations pass, the grid keeps its size and holds
    /// exactly one cell for each pair of a row and a column.
    pub proof fn lemma_after_keeps_shape(self, generations: nat)
        requires
            self.wf(),
        ensures
            self.after(generations).wf(),
            self.after(generations).width == self.width,
            self.after(generations).height == self.height,
            self.after(generations).cells.len() == self.width * self.height,
        decreases generations,
    {
        if generations > 0 {
            self.lemma_after_keeps_shape((generations - 1) as nat);
            self.after((generations - 1) as nat).lemma_step_keeps_shape();
        }
    }

    /// The next generation depends on nothing but the size and the cells: two
    /// grids of the same size that hold the same cells are the same grid one
    /// step later, and so after any number of steps.
    pub proof fn lemma_step_deterministic(self, other: Grid, generations: nat)
        requires
            self.width == other.width,
            self.height == other.height,
            self.cells =~= other.cells,
        ensures
            self.step() == other.step(),
            self.after(generations) == other.after(generations),
    {
    }

    /// Passing `m + n` generations is passing `m` and then `n`.
    pub proof fn lemma_after_add(self, m: nat, n: nat)
        ensures
            self.after(m + n) == self.after(m).after(n),
        decreases n,
    {
        if n > 0 {
            self.lemma_after_add(m, (n - 1) as nat);
            assert(self.after(m + n) == self.after((m + n - 1) as nat).step());
        }
    }

    /// The initial pattern of any size with a row and a column is a grid.
    pub proof fn lemma_initial_wf(width: nat, height: nat)
        requires
            width > 0,
            height > 0,
        ensures
            Grid::initial(width, height).wf(),
    {
    }

    /// The text of a grid is made of its rows' texts: the text of row `row`
    /// starts `row * (width + 1)` characters in and is followed by a line
    /// break, so the text has as many line breaks as the grid has rows.
    pub proof fn lemma_text_rows(self, row: int)
        requires
            self.wf(),
            0 <= row < self.height,
        ensures
            self.text().len() == self.height * (self.width + 1),
            row * (self.width + 1) + self.width < self.text().len(),
            self.text().subrange(row * (self.width + 1), row * (self.width + 1) + self.width)
                == self.row_text(row),
            self.text()[row * (self.width + 1) + self.width] == '\n',
    {
        let start = row * (self.width + 1);
        self.lemma_text_position(row, self.width as int);
        assert(0 <= start) by (nonlinear_arith)
            requires
                start == row * (self.width + 1),
                0 <= row,
        ;
        assert forall|column: int| 0 <= column < self.width implies self.text()[start + column]
            == self.row_text(row)[column] by {
            self.lemma_text_position(row, column);
        }
        assert(self.text().subrange(start, start + self.width) =~= self.row_text(row));
    }
}

} // verus!
