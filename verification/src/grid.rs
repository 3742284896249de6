//! The mathematical model of the game: a grid of cells on a torus and the
//! rule that takes one generation to the next.

use vstd::prelude::*;
use vstd::arithmetic::div_mod::*;
use vstd::arithmetic::mul::*;
use crate::cell::Cell;

verus! {

/// The next state of a cell that is `cell` now and has `n` live neighbours.
pub open spec fn rule(cell: Cell, n: nat) -> Cell {
    match cell {
        Cell::Alive => if n == 2 || n == 3 {
            Cell::Alive
        } else {
            Cell::Dead
        },
        Cell::Dead => if n == 3 {
            Cell::Alive
        } else {
            Cell::Dead
        },
    }
}

/// A grid of cells in row-major order.
#[verifier::ext_equal]
pub struct Grid {
    pub width: nat,
    pub height: nat,
    pub cells: Seq<Cell>,
}

impl Grid {
    /// There is exactly one cell for each coordinate.
    pub open spec fn wf(self) -> bool {
        self.cells.len() == self.width * self.height
    }

    /// `(row, col)` is a coordinate of the grid.
    pub open spec fn contains(self, row: int, col: int) -> bool {
        0 <= row < self.height && 0 <= col < self.width
    }

    /// The place of `(row, col)` in the row-major sequence of cells.
    pub open spec fn index_of(self, row: int, col: int) -> int {
        row * self.width + col
    }

    /// The cell at `(row, col)`.
    pub open spec fn at(self, row: int, col: int) -> Cell {
        self.cells[self.index_of(row, col)]
    }

    /// The cell `dr` rows below and `dc` columns to the right of `(row, col)`,
    /// where both directions wrap around the edges.
    pub open spec fn neighbour(self, row: int, col: int, dr: int, dc: int) -> Cell {
        self.at((row + dr) % (self.height as int), (col + dc) % (self.width as int))
    }

    /// Every cell is dead.
    pub open spec fn all_dead(self) -> bool {
        forall|i: int| 0 <= i < self.cells.len() ==> self.cells[i] == Cell::Dead
    }

    /// There is at least one cell for each coordinate. A pattern read from
    /// text may fall short of this.
    pub open spec fn covered(self) -> bool {
        self.cells.len() >= self.width * self.height
    }

    /// The grid is no wider and no higher than `wh`.
    pub open spec fn fits(self, wh: nat) -> bool {
        self.width <= wh && self.height <= wh
    }

    /// The row of a square of side `wh` in which the first row of the grid
    /// comes to lie when the grid is centered in the square.
    pub open spec fn top(self, wh: nat) -> int {
        (wh - self.height) / 2
    }

    /// The column of a square of side `wh` in which the first column of the
    /// grid comes to lie when the grid is centered in the square.
    pub open spec fn left(self, wh: nat) -> int {
        (wh - self.width) / 2
    }

    /// The cell at `(row, col)` of a square of side `wh` in which the grid
    /// is centered: the cell of the grid that comes to lie there, and `Dead`
    /// outside of it.
    pub open spec fn centered_cell(self, wh: nat, row: int, col: int) -> Cell {
        if self.contains(row - self.top(wh), col - self.left(wh)) {
            self.at(row - self.top(wh), col - self.left(wh))
        } else {
            Cell::Dead
        }
    }

    /// The square grid of side `wh` with this grid in its middle and dead
    /// cells around it. Where the margin is odd, the extra row is at the
    /// bottom and the extra column on the right.
    pub open spec fn centered(self, wh: nat) -> Grid {
        Grid {
            width: wh,
            height: wh,
            cells: Seq::new(
                wh * wh,
                |i: int| self.centered_cell(wh, i / (wh as int), i % (wh as int)),
            ),
        }
    }

    /// The grid with the cell at `(row, col)` toggled and every other cell
    /// as it is.
    pub open spec fn toggled(self, row: int, col: int) -> Grid {
        Grid {
            width: self.width,
            height: self.height,
            cells: self.cells.update(
                self.index_of(row, col),
                self.cells[self.index_of(row, col)].toggled(),
            ),
        }
    }

    /// How many of the eight neighbours of `(row, col)` are alive.
    pub open spec fn live_neighbours(self, row: int, col: int) -> nat {
        self.neighbour(row, col, -1, -1).population()
            + self.neighbour(row, col, -1, 0).population()
            + self.neighbour(row, col, -1, 1).population()
            + self.neighbour(row, col, 0, -1).population()
            + self.neighbour(row, col, 0, 1).population()
            + self.neighbour(row, col, 1, -1).population()
            + self.neighbour(row, col, 1, 0).population()
            + self.neighbour(row, col, 1, 1).population()
    }

    /// The state of `(row, col)` in the next generation.
    pub open spec fn next_cell(self, row: int, col: int) -> Cell {
        rule(self.at(row, col), self.live_neighbours(row, col))
    }

    /// The next generation: every cell is replaced at once, by the rule
    /// applied to the current generation.
    pub open spec fn step(self) -> Grid {
        Grid {
            width: self.width,
            height: self.height,
            cells: Seq::new(
                self.cells.len(),
                |i: int| self.next_cell(i / (self.width as int), i % (self.width as int)),
            ),
        }
    }
}

/// The place before `i`, `i` itself and the place after `i` on a ring of
/// `n` places: the first place comes after the last.
pub proof fn lemma_wrap(i: int, n: int)
    requires
        0 <= i < n,
    ensures
        (i - 1) % n == if i == 0 {
            n - 1
        } else {
            i - 1
        },
        (i + 0) % n == i,
        (i + 1) % n == if i == n - 1 {
            0
        } else {
            i + 1
        },
{
    if i == 0 {
        lemma_fundamental_div_mod_converse(-1, n, -1, n - 1);
    } else {
        lemma_small_mod((i - 1) as nat, n as nat);
    }
    lemma_small_mod(i as nat, n as nat);
    if i == n - 1 {
        lemma_fundamental_div_mod_converse(n, n, 1, 0);
    } else {
        lemma_small_mod((i + 1) as nat, n as nat);
    }
}

/// Row after row, each coordinate of a grid of `width` columns and `height`
/// rows has an index of its own below `width * height`, from which the row
/// and the column come back as the quotient and the remainder by `width`.
pub proof fn lemma_row_major(width: int, height: int, row: int, col: int)
    requires
        0 <= row < height,
        0 <= col < width,
    ensures
        0 <= row * width + col < width * height,
        (row * width + col) / width == row,
        (row * width + col) % width == col,
{
    assert(row * width + col < width * height) by (nonlinear_arith)
        requires
            0 <= row < height,
            0 <= col < width,
    ;
    assert(0 <= row * width) by (nonlinear_arith)
        requires
            0 <= row,
            0 <= width,
    ;
    lemma_fundamental_div_mod_converse(row * width + col, width, row, col);
}

/// A coordinate of a well-formed grid has its index among the cells.
pub proof fn lemma_index_in_range(g: Grid, row: int, col: int)
    requires
        g.wf(),
        g.contains(row, col),
    ensures
        0 <= g.index_of(row, col) < g.cells.len(),
        g.index_of(row, col) / (g.width as int) == row,
        g.index_of(row, col) % (g.width as int) == col,
{
    lemma_row_major(g.width as int, g.height as int, row, col);
}

/// Each index among the cells of a well-formed grid is the index of one
/// coordinate: of its quotient and its remainder by the width.
pub proof fn lemma_coordinate_of_index(g: Grid, i: int)
    requires
        g.wf(),
        0 <= i < g.cells.len(),
    ensures
        g.contains(i / (g.width as int), i % (g.width as int)),
        g.index_of(i / (g.width as int), i % (g.width as int)) == i,
{
    let w = g.width as int;
    let h = g.height as int;
    assert(w > 0) by (nonlinear_arith)
        requires
            0 <= i < w * h,
            0 <= w,
            0 <= h,
    ;
    lemma_fundamental_div_mod(i, w);
    lemma_mod_pos_bound(i, w);
    lemma_div_pos_is_pos(i, w);
    lemma_mul_is_commutative(w, i / w);
    assert(i / w < h) by (nonlinear_arith)
        requires
            i == (i / w) * w + i % w,
            0 <= i % w,
            i < w * h,
            0 < w,
    ;
}

/// The neighbours of a cell of a well-formed grid are cells of the grid.
pub proof fn lemma_neighbour_in_grid(g: Grid, row: int, col: int, dr: int, dc: int)
    requires
        g.wf(),
        g.contains(row, col),
        -1 <= dr <= 1,
        -1 <= dc <= 1,
    ensures
        g.contains((row + dr) % (g.height as int), (col + dc) % (g.width as int)),
{
    lemma_wrap(row, g.height as int);
    lemma_wrap(col, g.width as int);
}

/// The next generation of a well-formed grid is a well-formed grid of the
/// same size, in which each cell is what the rule makes of that cell and
/// its neighbours in the current generation.
pub proof fn lemma_step(g: Grid)
    requires
        g.wf(),
    ensures
        g.step().wf(),
        g.step().width == g.width,
        g.step().height == g.height,
        forall|row: int, col: int|
            g.contains(row, col) ==> #[trigger] g.step().at(row, col) == g.next_cell(row, col),
{
    assert forall|row: int, col: int| g.contains(row, col) implies #[trigger] g.step().at(row, col)
        == g.next_cell(row, col) by {
        lemma_index_in_range(g, row, col);
    }
}

/// A grid that fits a square is centered in it to the cell: the margin
/// above is as wide as the margin below or one row less, and the margin on
/// the left as wide as the margin on the right or one column less.
pub proof fn lemma_margins(g: Grid, wh: nat)
    requires
        g.fits(wh),
    ensures
        0 <= g.top(wh) <= wh - g.height - g.top(wh) <= g.top(wh) + 1,
        0 <= g.left(wh) <= wh - g.width - g.left(wh) <= g.left(wh) + 1,
{
}

/// A grid centered in a square of side `wh` is a well-formed grid of that
/// side. Its cell at each coordinate is the cell of the grid that comes to
/// lie there, `top` rows down and `left` columns to the right of where it
/// was, and a dead cell where none does.
pub proof fn lemma_centered(g: Grid, wh: nat)
    ensures
        g.centered(wh).wf(),
        g.centered(wh).width == wh,
        g.centered(wh).height == wh,
        forall|row: int, col: int|
            g.centered(wh).contains(row, col) ==> #[trigger] g.centered(wh).at(row, col)
                == g.centered_cell(wh, row, col),
{
    let placed = g.centered(wh);
    assert forall|row: int, col: int| placed.contains(row, col) implies #[trigger] placed.at(
        row,
        col,
    ) == g.centered_cell(wh, row, col) by {
        lemma_index_in_range(placed, row, col);
    }
}

/// Two well-formed grids of the same size that agree at every coordinate
/// are the same grid.
pub proof fn lemma_grids_equal(a: Grid, b: Grid)
    requires
        a.wf(),
        b.wf(),
        a.width == b.width,
        a.height == b.height,
        forall|row: int, col: int|
            a.contains(row, col) ==> #[trigger] a.at(row, col) == b.at(row, col),
    ensures
        a == b,
{
    assert forall|i: int| 0 <= i < a.cells.len() implies a.cells[i] == b.cells[i] by {
        lemma_coordinate_of_index(a, i);
        let row = i / (a.width as int);
        let col = i % (a.width as int);
        assert(a.at(row, col) == b.at(row, col));
    }
    assert(a.cells =~= b.cells);
}

} // verus!
