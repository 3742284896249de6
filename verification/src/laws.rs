//! What holds of every game: laws of the rule and of the torus, and the
//! behaviour of two well-known patterns.

use vstd::prelude::*;
use crate::cell::Cell;
use crate::grid::{
    lemma_coordinate_of_index, lemma_grids_equal, lemma_index_in_range, lemma_neighbour_in_grid,
    lemma_step, lemma_wrap, Grid,
};

verus! {

/// No spontaneous generation: the generation after one in which every cell
/// is dead is the same, with every cell dead.
pub proof fn lemma_dead_stays_dead(g: Grid)
    requires
        g.wf(),
        g.all_dead(),
    ensures
        g.step().all_dead(),
        g.step() == g,
{
    assert forall|i: int| 0 <= i < g.cells.len() implies g.step().cells[i] == Cell::Dead by {
        lemma_coordinate_of_index(g, i);
        let row = i / (g.width as int);
        let col = i % (g.width as int);
        lemma_all_neighbours_in_range(g, row, col);
    }
    assert(g.step().cells =~= g.cells);
}

/// The eight neighbours of a cell of a well-formed grid have their indices
/// among the cells.
proof fn lemma_all_neighbours_in_range(g: Grid, row: int, col: int)
    requires
        g.wf(),
        g.contains(row, col),
    ensures
        forall|dr: int, dc: int|
            -1 <= dr <= 1 && -1 <= dc <= 1 ==> 0 <= #[trigger] g.index_of(
                (row + dr) % (g.height as int),
                (col + dc) % (g.width as int),
            ) < g.cells.len(),
{
    assert forall|dr: int, dc: int|
        -1 <= dr <= 1 && -1 <= dc <= 1 implies 0 <= #[trigger] g.index_of(
        (row + dr) % (g.height as int),
        (col + dc) % (g.width as int),
    ) < g.cells.len() by {
        lemma_neighbour_in_grid(g, row, col, dr, dc);
        lemma_index_in_range(g, (row + dr) % (g.height as int), (col + dc) % (g.width as int));
    }
}

/// Underpopulation: a live cell with fewer than two live neighbours, such
/// as a single live cell with no live cell around it, is dead in the next
/// generation.
pub proof fn lemma_underpopulation(g: Grid, row: int, col: int)
    requires
        g.wf(),
        g.contains(row, col),
        g.at(row, col) == Cell::Alive,
        g.live_neighbours(row, col) < 2,
    ensures
        g.step().at(row, col) == Cell::Dead,
{
    lemma_step(g);
}

/// The edges wrap around: the neighbour up and to the left of the cell at
/// `(0, 0)` is the cell in the last row and the last column, which counts
/// among the live neighbours of `(0, 0)` when it is alive.
pub proof fn lemma_corner_wraps(g: Grid)
    requires
        g.wf(),
        g.width > 0,
        g.height > 0,
    ensures
        g.neighbour(0, 0, -1, -1) == g.at(g.height - 1, g.width - 1),
        g.at(g.height - 1, g.width - 1) == Cell::Alive ==> g.live_neighbours(0, 0) >= 1,
{
    lemma_wrap(0, g.height as int);
    lemma_wrap(0, g.width as int);
}

/// The grid holds a block, a square of two by two live cells, with its
/// upper left cell at `(r, c)`, and every other cell is dead. The block may
/// reach over an edge of the grid.
pub open spec fn is_block(g: Grid, r: int, c: int) -> bool {
    forall|row: int, col: int|
        g.contains(row, col) ==> #[trigger] g.at(row, col) == (if (row == r || row == (r + 1) % (
        g.height as int)) && (col == c || col == (c + 1) % (g.width as int)) {
            Cell::Alive
        } else {
            Cell::Dead
        })
}

/// The block is a still life: on a grid of at least three rows and three
/// columns, where the block does not touch itself around the torus, the
/// next generation is the same as the current one.
pub proof fn lemma_block_is_still(g: Grid, r: int, c: int)
    requires
        g.wf(),
        g.width >= 3,
        g.height >= 3,
        g.contains(r, c),
        is_block(g, r, c),
    ensures
        g.step() == g,
{
    let h = g.height as int;
    let w = g.width as int;
    lemma_step(g);
    lemma_wrap(r, h);
    lemma_wrap(c, w);
    assert forall|row: int, col: int| g.contains(row, col) implies #[trigger] g.step().at(row, col)
        == g.at(row, col) by {
        lemma_wrap(row, h);
        lemma_wrap(col, w);
    }
    lemma_grids_equal(g.step(), g);
}

/// The grid holds a blinker that lies in row `r`, three live cells in a
/// row with the middle one at `(r, c)`, and every other cell is dead. The
/// blinker may reach over an edge of the grid.
pub open spec fn is_flat_blinker(g: Grid, r: int, c: int) -> bool {
    forall|row: int, col: int|
        g.contains(row, col) ==> #[trigger] g.at(row, col) == (if row == r && (col == (c - 1) % (
        g.width as int) || col == c || col == (c + 1) % (g.width as int)) {
            Cell::Alive
        } else {
            Cell::Dead
        })
}

/// The grid holds a blinker that stands in column `c`, three live cells in
/// a column with the middle one at `(r, c)`, and every other cell is dead.
/// The blinker may reach over an edge of the grid.
pub open spec fn is_upright_blinker(g: Grid, r: int, c: int) -> bool {
    forall|row: int, col: int|
        g.contains(row, col) ==> #[trigger] g.at(row, col) == (if col == c && (row == (r - 1) % (
        g.height as int) || row == r || row == (r + 1) % (g.height as int)) {
            Cell::Alive
        } else {
            Cell::Dead
        })
}

/// A blinker that lies flat stands upright in the next generation, around
/// the same middle cell, on a grid of at least three rows and four columns.
pub proof fn lemma_flat_blinker_stands_up(g: Grid, r: int, c: int)
    requires
        g.wf(),
        g.width >= 4,
        g.height >= 3,
        g.contains(r, c),
        is_flat_blinker(g, r, c),
    ensures
        g.step().wf(),
        is_upright_blinker(g.step(), r, c),
{
    let h = g.height as int;
    let w = g.width as int;
    lemma_step(g);
    lemma_wrap(r, h);
    lemma_wrap(c, w);
    assert forall|row: int, col: int| g.contains(row, col) implies #[trigger] g.step().at(row, col)
        == (if col == c && (row == (r - 1) % h || row == r || row == (r + 1) % h) {
        Cell::Alive
    } else {
        Cell::Dead
    }) by {
        lemma_wrap(row, h);
        lemma_wrap(col, w);
    }
}

/// A blinker that stands upright lies flat in the next generation, around
/// the same middle cell, on a grid of at least four rows and three columns.
pub proof fn lemma_upright_blinker_lies_down(g: Grid, r: int, c: int)
    requires
        g.wf(),
        g.width >= 3,
        g.height >= 4,
        g.contains(r, c),
        is_upright_blinker(g, r, c),
    ensures
        g.step().wf(),
        is_flat_blinker(g.step(), r, c),
{
    let h = g.height as int;
    let w = g.width as int;
    lemma_step(g);
    lemma_wrap(r, h);
    lemma_wrap(c, w);
    assert forall|row: int, col: int| g.contains(row, col) implies #[trigger] g.step().at(row, col)
        == (if row == r && (col == (c - 1) % w || col == c || col == (c + 1) % w) {
        Cell::Alive
    } else {
        Cell::Dead
    }) by {
        lemma_wrap(row, h);
        lemma_wrap(col, w);
    }
}

/// The blinker oscillates with period 2: on a grid of at least four rows
/// and four columns, where the blinker does not touch itself around the
/// torus, the generation after the next is the same as the current one,
/// and the next one is not.
pub proof fn lemma_blinker_has_period_two(g: Grid, r: int, c: int)
    requires
        g.wf(),
        g.width >= 4,
        g.height >= 4,
        g.contains(r, c),
        is_flat_blinker(g, r, c),
    ensures
        g.step() != g,
        g.step().step() == g,
{
    let h = g.height as int;
    let w = g.width as int;
    lemma_flat_blinker_stands_up(g, r, c);
    lemma_upright_blinker_lies_down(g.step(), r, c);
    lemma_step(g.step());
    lemma_grids_equal(g.step().step(), g);
    lemma_wrap(r, h);
    lemma_wrap(c, w);
    assert(g.contains(r, (c + 1) % w));
    assert(g.at(r, (c + 1) % w) == Cell::Alive);
    assert(g.step().at(r, (c + 1) % w) == Cell::Dead);
}

} // verus!
