//! The universe in which the game plays: a grid with wraparound edges that
//! advances one generation at a time.

use vstd::prelude::*;
use vstd::arithmetic::div_mod::*;
use vstd::arithmetic::mul::*;
use crate::cell::Cell;
use crate::error::ShapeError;
use crate::grid::{lemma_index_in_range, lemma_row_major, lemma_wrap, Grid};
use crate::pattern::{loaded, Pattern};
use crate::render::{draw, drawn};

verus! {

/// The universe in which the game plays, held as a `Vec` of cells in
/// row-major order.
#[derive(Debug)]
pub struct Universe {
    width: u32,
    height: u32,
    cells: Vec<Cell>,
}

impl View for Universe {
    type V = Grid;

    closed spec fn view(&self) -> Grid {
        Grid { width: self.width as nat, height: self.height as nat, cells: self.cells@ }
    }
}

/// `res` is what placing `pattern` in the middle of a square of side `wh`
/// gives: the universe with the pattern centered in it, or `TooBig` if the
/// pattern is wider or higher than `wh`.
pub open spec fn is_placement(res: Result<Universe, ShapeError>, wh: nat, pattern: Grid) -> bool {
    match res {
        Ok(uni) => pattern.fits(wh) && uni.wf() && uni@ == pattern.centered(wh),
        Err(e) => !pattern.fits(wh) && e == ShapeError::TooBig,
    }
}

impl Universe {
    /// The universe holds exactly one cell for each coordinate.
    pub open spec fn wf(&self) -> bool {
        self@.wf()
    }

    /// Puts a universe together from its parts.
    pub(crate) fn assemble(width: u32, height: u32, cells: Vec<Cell>) -> (uni: Universe)
        requires
            cells@.len() == width * height,
        ensures
            uni.wf(),
            uni@ == (Grid { width: width as nat, height: height as nat, cells: cells@ }),
    {
        Universe { width, height, cells }
    }

    /// Creates a universe from its cells in row-major order, if there is
    /// exactly one cell for each coordinate.
    pub fn from_cells(width: u32, height: u32, cells: Vec<Cell>) -> (res: Option<Universe>)
        ensures
            match res {
                Some(uni) => cells@.len() == width * height && uni.wf() && uni@ == (Grid {
                    width: width as nat,
                    height: height as nat,
                    cells: cells@,
                }),
                None => cells@.len() != width * height,
            },
    {
        proof {
            lemma_mul_upper_bound(
                width as int,
                u32::MAX as int,
                height as int,
                u32::MAX as int,
            );
        }
        if cells.len() as u64 == (width as u64) * (height as u64) {
            Some(Universe::assemble(width, height, cells))
        } else {
            None
        }
    }

    /// The cells in row-major order.
    pub fn cells(&self) -> (cells: &Vec<Cell>)
        ensures
            cells@ == self@.cells,
    {
        &self.cells
    }

    /// Creates a square universe of side `wh` with the pattern in its
    /// middle, or fails with `TooBig` if the pattern is wider or higher than
    /// `wh`.
    pub fn from_pattern(wh: u32, pattern: &Pattern) -> (res: Result<Universe, ShapeError>)
        requires
            pattern@.fits(wh as nat) ==> pattern@.covered(),
        ensures
            is_placement(res, wh as nat, pattern@),
    {
        if (wh as usize) < pattern.height() || (wh as usize) < pattern.width() {
            return Err(ShapeError::TooBig);
        }
        let height = pattern.height() as u32;
        let width = pattern.width() as u32;
        let figur = pattern.cells();
        let ghost p = pattern@;
        let ghost side = wh as int;

        proof {
            lemma_mul_upper_bound(wh as int, u32::MAX as int, wh as int, u32::MAX as int);
        }
        let total = (wh as u64) * (wh as u64);
        let mut cells: Vec<Cell> = Vec::new();
        let mut n: u64 = 0;
        while n < total
            invariant
                n <= total,
                cells@.len() == n,
                forall|i: int| 0 <= i < n ==> cells@[i] == Cell::Dead,
            decreases total - n,
        {
            cells.push(Cell::Dead);
            n = n + 1;
        }

        let start_row = (wh - height) / 2;
        let start_col = (wh - width) / 2;

        let mut j: usize = 0;
        let mut row = start_row;
        while row < start_row + height
            invariant
                p == pattern@,
                figur@ == p.cells,
                p.covered(),
                side == wh,
                width == p.width,
                height == p.height,
                width <= wh,
                height <= wh,
                start_row == p.top(wh as nat),
                start_col == p.left(wh as nat),
                start_row <= row <= start_row + height,
                j == (row - start_row) * width,
                cells@.len() == wh * wh,
                forall|i: int|
                    0 <= i < cells@.len() ==> #[trigger] cells@[i] == (if i / side < row {
                        p.centered_cell(wh as nat, i / side, i % side)
                    } else {
                        Cell::Dead
                    }),
            decreases start_row + height - row,
        {
            proof {
                lemma_row_major(side, side, row as int, start_col as int);
                assert(cells.len() == cells@.len());
            }
            let idx = (row as usize) * (wh as usize) + (start_col as usize);
            let mut i: usize = 0;
            while i < width as usize
                invariant
                    p == pattern@,
                    figur@ == p.cells,
                    p.covered(),
                    side == wh,
                    width == p.width,
                    height == p.height,
                    width <= wh,
                    height <= wh,
                    start_row == p.top(wh as nat),
                    start_col == p.left(wh as nat),
                    start_row <= row < start_row + height,
                    idx == row * wh + start_col,
                    i <= width,
                    j == (row - start_row) * width + i,
                    cells@.len() == wh * wh,
                    forall|k: int|
                        0 <= k < cells@.len() ==> #[trigger] cells@[k] == (if k / side < row || (k
                            / side == row && k % side < start_col + i) {
                            p.centered_cell(wh as nat, k / side, k % side)
                        } else {
                            Cell::Dead
                        }),
                decreases width - i,
            {
                proof {
                    lemma_row_major(side, side, row as int, start_col + i);
                    lemma_row_major(width as int, height as int, row - start_row, i as int);
                    assert(cells.len() == cells@.len());
                }
                let ghost before = cells@;
                cells.set(idx + i, figur[j]);
                proof {
                    assert forall|k: int| 0 <= k < cells@.len() implies #[trigger] cells@[k]
                        == (if k / side < row || (k / side == row && k % side < start_col + i + 1) {
                        p.centered_cell(wh as nat, k / side, k % side)
                    } else {
                        Cell::Dead
                    }) by {
                        lemma_fundamental_div_mod(k, side);
                        lemma_mul_is_commutative(side, k / side);
                        assert(cells@[k] == if k == idx + i {
                            figur@[j as int]
                        } else {
                            before[k]
                        });
                    }
                }
                assert(j < figur.len());
                j = j + 1;
                i = i + 1;
            }
            proof {
                lemma_mul_is_distributive_add_other_way(width as int, row - start_row, 1);
                assert forall|k: int| 0 <= k < cells@.len() implies #[trigger] cells@[k] == (if k
                    / side < row + 1 {
                    p.centered_cell(wh as nat, k / side, k % side)
                } else {
                    Cell::Dead
                }) by {
                    lemma_mod_pos_bound(k, side);
                }
            }
            row = row + 1;
        }
        proof {
            assert forall|k: int| 0 <= k < cells@.len() implies #[trigger] cells@[k]
                == p.centered_cell(wh as nat, k / side, k % side) by {
                assert(side > 0) by (nonlinear_arith)
                    requires
                        0 <= side,
                        0 <= k < side * side,
                ;
                lemma_mod_pos_bound(k, side);
                lemma_div_pos_is_pos(k, side);
            }
            assert(cells@ =~= p.centered(wh as nat).cells);
        }
        Ok(Universe { width: wh, height: wh, cells })
    }

    /// Creates a square universe of side `wh` with the shape that the lines
    /// of `figur` draw in its middle, or fails with `TooBig` if the shape is
    /// wider or higher than `wh`.
    pub fn from_figur(wh: u32, figur: &[String]) -> (res: Result<Universe, ShapeError>)
        requires
            figur@.len() > 0,
            loaded(figur.deep_view()).fits(wh as nat) ==> loaded(figur.deep_view()).covered(),
        ensures
            is_placement(res, wh as nat, loaded(figur.deep_view())),
    {
        let pattern = Pattern::from_vec_str(figur);
        Universe::from_pattern(wh, &pattern)
    }

    /// Converts `(row, col)` to the index of that cell.
    pub fn get_index(&self, row: u32, col: u32) -> (idx: usize)
        requires
            self.wf(),
            self@.contains(row as int, col as int),
        ensures
            idx == self@.index_of(row as int, col as int),
            idx < self@.cells.len(),
    {
        proof {
            lemma_index_in_range(self@, row as int, col as int);
            assert(self.cells.len() == self.cells@.len());
        }
        (row as usize) * (self.width as usize) + (col as usize)
    }

    /// The width of the grid, in cells.
    pub fn width(&self) -> (w: u32)
        ensures
            w == self@.width,
    {
        self.width
    }

    /// The height of the grid, in cells.
    pub fn height(&self) -> (h: u32)
        ensures
            h == self@.height,
    {
        self.height
    }

    /// The cell at `(row, col)`.
    pub fn cell(&self, row: u32, col: u32) -> (cell: Cell)
        requires
            self.wf(),
            self@.contains(row as int, col as int),
        ensures
            cell == self@.at(row as int, col as int),
    {
        let idx = self.get_index(row, col);
        self.cells[idx]
    }

    /// Draws the universe as text, in a frame, one line for each row.
    pub fn to_text(&self) -> (text: String)
        requires
            self@.width > 0,
        ensures
            text@ == drawn(self@.width, self@.cells),
    {
        draw(self.width as usize, &self.cells)
    }

    /// Counts the live cells among the eight neighbours of `(row, col)`,
    /// where the rows and the columns wrap around the edges.
    pub fn live_neighbour_count(&self, row: u32, col: u32) -> (sum: u8)
        requires
            self.wf(),
            self@.contains(row as int, col as int),
        ensures
            sum == self@.live_neighbours(row as int, col as int),
            sum <= 8,
    {
        let up = wrap_prev(row, self.height);
        let down = wrap_next(row, self.height);
        let left = wrap_prev(col, self.width);
        let right = wrap_next(col, self.width);
        proof {
            lemma_wrap(row as int, self.height as int);
            lemma_wrap(col as int, self.width as int);
        }
        let mut sum: u8 = 0;
        sum = sum + self.population(up, left);
        sum = sum + self.population(up, col);
        sum = sum + self.population(up, right);
        sum = sum + self.population(row, left);
        sum = sum + self.population(row, right);
        sum = sum + self.population(down, left);
        sum = sum + self.population(down, col);
        sum = sum + self.population(down, right);
        sum
    }

    /// What the cell at `(row, col)` adds to a count of live cells.
    fn population(&self, row: u32, col: u32) -> (n: u8)
        requires
            self.wf(),
            self@.contains(row as int, col as int),
        ensures
            n == self@.at(row as int, col as int).population(),
            n <= 1,
    {
        match self.cell(row, col) {
            Cell::Dead => 0,
            Cell::Alive => 1,
        }
    }

    /// Advances the universe by one generation. Every cell of the new
    /// generation is computed from the old one, which is replaced only when
    /// the new one is complete.
    pub fn tick(&mut self)
        requires
            old(self).wf(),
        ensures
            final(self).wf(),
            final(self)@ == old(self)@.step(),
    {
        let mut next: Vec<Cell> = Vec::new();
        let mut row: u32 = 0;
        while row < self.height
            invariant
                self.wf(),
                row <= self.height,
                next@.len() == row * self.width,
                forall|i: int|
                    0 <= i < next@.len() ==> #[trigger] next@[i] == self@.next_cell(
                        i / (self.width as int),
                        i % (self.width as int),
                    ),
            decreases self.height - row,
        {
            let mut col: u32 = 0;
            while col < self.width
                invariant
                    self.wf(),
                    row < self.height,
                    col <= self.width,
                    next@.len() == row * self.width + col,
                    forall|i: int|
                        0 <= i < next@.len() ==> #[trigger] next@[i] == self@.next_cell(
                            i / (self.width as int),
                            i % (self.width as int),
                        ),
                decreases self.width - col,
            {
                let cell = self.cell(row, col);
                let live_neighbours = self.live_neighbour_count(row, col);
                let next_cell = match cell {
                    // A live cell with two or three live neighbours lives on;
                    // with fewer it dies of underpopulation, with more of
                    // overpopulation.
                    Cell::Alive => if live_neighbours == 2 || live_neighbours == 3 {
                        Cell::Alive
                    } else {
                        Cell::Dead
                    },
                    // A dead cell with exactly three live neighbours becomes
                    // a live cell; any other stays dead.
                    Cell::Dead => if live_neighbours == 3 {
                        Cell::Alive
                    } else {
                        Cell::Dead
                    },
                };
                proof {
                    lemma_index_in_range(self@, row as int, col as int);
                }
                next.push(next_cell);
                col = col + 1;
            }
            proof {
                lemma_mul_is_distributive_add_other_way(self.width as int, row as int, 1);
            }
            row = row + 1;
        }
        proof {
            lemma_mul_is_commutative(self.width as int, self.height as int);
        }
        assert(next@ =~= self@.step().cells);
        self.cells = next;
    }

    /// Toggles the cell at `(row, col)` and leaves every other cell as it was.
    pub fn toggle_cell(&mut self, row: u32, col: u32)
        requires
            old(self).wf(),
            old(self)@.contains(row as int, col as int),
        ensures
            final(self).wf(),
            final(self)@ == old(self)@.toggled(row as int, col as int),
    {
        let idx = self.get_index(row, col);
        let mut cell = self.cells[idx];
        cell.toggle();
        self.cells.set(idx, cell);
    }
}

/// The index before `i` on a ring of `n` places.
fn wrap_prev(i: u32, n: u32) -> (r: u32)
    requires
        i < n,
    ensures
        r == (i - 1) % (n as int),
        r < n,
{
    proof {
        lemma_wrap(i as int, n as int);
    }
    if i == 0 {
        n - 1
    } else {
        i - 1
    }
}

/// The index after `i` on a ring of `n` places.
fn wrap_next(i: u32, n: u32) -> (r: u32)
    requires
        i < n,
    ensures
        r == (i + 1) % (n as int),
        r < n,
{
    proof {
        lemma_wrap(i as int, n as int);
    }
    if i == n - 1 {
        0
    } else {
        i + 1
    }
}

} // verus!
