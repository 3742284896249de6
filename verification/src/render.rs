//! The picture of a grid in text: a frame of box-drawing characters around
//! one line for each row of cells.

use vstd::prelude::*;
use vstd::arithmetic::div_mod::*;
use vstd::arithmetic::mul::*;
use vstd::string::StringExecFns;
use crate::cell::Cell;
use crate::grid::{lemma_index_in_range, Grid};

verus! {

/// The character that shows a cell: a filled square for a live cell and a
/// blank for a dead one.
pub open spec fn glyph(cell: Cell) -> char {
    match cell {
        Cell::Dead => ' ',
        Cell::Alive => '◼',
    }
}

/// An edge of the frame over `width` cells: a corner, two dashes for each
/// cell, the other corner, and the end of the line.
pub open spec fn edge(left: char, width: nat, right: char) -> Seq<char> {
    seq![left] + Seq::new(2 * width, |i: int| '─') + seq![right, '\r', '\n']
}

/// The cells of one row as text: each cell's glyph and a blank after it.
pub open spec fn glyphs(row: Seq<Cell>) -> Seq<char> {
    Seq::new(
        2 * row.len(),
        |i: int|
            if i % 2 == 0 {
                glyph(row[i / 2])
            } else {
                ' '
            },
    )
}

/// The line of one row: the cells between two bars, and the end of the
/// line.
pub open spec fn row_text(row: Seq<Cell>) -> Seq<char> {
    seq!['│'] + glyphs(row) + seq!['│', '\r', '\n']
}

/// The number of rows that `cells` cells fill, `width` to a row; the last
/// row may be short.
pub open spec fn row_count(cells: nat, width: nat) -> nat {
    ((cells + width - 1) / (width as int)) as nat
}

/// The `r`-th row of the cells, `width` to a row.
pub open spec fn chunk(cells: Seq<Cell>, width: nat, r: int) -> Seq<Cell> {
    cells.subrange(
        r * width,
        if (r + 1) * width <= cells.len() {
            (r + 1) * width
        } else {
            cells.len() as int
        },
    )
}

/// The lines of the first `n` rows of the cells, `width` to a row.
pub open spec fn row_texts(cells: Seq<Cell>, width: nat, n: nat) -> Seq<Seq<char>> {
    Seq::new(n, |r: int| row_text(chunk(cells, width, r)))
}

/// The picture of the cells, `width` to a row, in a frame.
pub open spec fn drawn(width: nat, cells: Seq<Cell>) -> Seq<char> {
    edge('╭', width, '╮') + row_texts(cells, width, row_count(cells.len(), width)).flatten()
        + edge('╰', width, '╯')
}

/// Writes an edge of the frame at the end of `text`.
fn push_edge(text: &mut String, left: &str, width: usize, right: &str)
    requires
        left@.len() == 1,
        right@.len() == 1,
    ensures
        final(text)@ == old(text)@ + edge(left@[0], width as nat, right@[0]),
{
    let ghost before = text@;
    text.append(left);
    let mut i: usize = 0;
    while i < width
        invariant
            i <= width,
            text@ == before + left@ + Seq::new(2 * (i as nat), |k: int| '─'),
        decreases width - i,
    {
        proof {
            reveal_strlit("──");
            assert(Seq::new(2 * ((i + 1) as nat), |k: int| '─') =~= Seq::new(
                2 * (i as nat),
                |k: int| '─',
            ) + "──"@);
        }
        text.append("──");
        i = i + 1;
    }
    text.append(right);
    text.append("\r\n");
    proof {
        reveal_strlit("\r\n");
        assert(text@ =~= before + edge(left@[0], width as nat, right@[0]));
    }
}

/// Writes the line of the row `cells[start..end]` at the end of `text`.
fn push_row(text: &mut String, cells: &Vec<Cell>, start: usize, end: usize)
    requires
        start <= end <= cells@.len(),
    ensures
        final(text)@ == old(text)@ + row_text(cells@.subrange(start as int, end as int)),
{
    let ghost before = text@;
    let ghost row = cells@.subrange(start as int, end as int);
    text.append("│");
    let mut i: usize = start;
    while i < end
        invariant
            start <= i <= end <= cells@.len(),
            row == cells@.subrange(start as int, end as int),
            text@ == before + "│"@ + glyphs(row.take(i - start)),
        decreases end - i,
    {
        let symbol = match cells[i] {
            Cell::Dead => "  ",
            Cell::Alive => "◼ ",
        };
        proof {
            reveal_strlit("  ");
            reveal_strlit("◼ ");
            assert(glyphs(row.take(i + 1 - start)) =~= glyphs(row.take(i - start)) + symbol@);
        }
        text.append(symbol);
        i = i + 1;
    }
    text.append("│\r\n");
    proof {
        reveal_strlit("│");
        reveal_strlit("│\r\n");
        assert(row.take(end - start) =~= row);
        assert(text@ =~= before + row_text(row));
    }
}

/// Draws the cells as text, `width` to a row, in a frame: a live cell is a
/// filled square and a dead one a blank, each with a blank after it.
pub fn draw(width: usize, cells: &Vec<Cell>) -> (text: String)
    requires
        width > 0,
    ensures
        text@ == drawn(width as nat, cells@),
{
    let mut text = String::new();
    proof {
        reveal_strlit("╭");
        reveal_strlit("╮");
        reveal_strlit("╰");
        reveal_strlit("╯");
    }
    push_edge(&mut text, "╭", width, "╮");
    let ghost top = text@;
    let ghost mut done: nat = 0;
    let mut start: usize = 0;
    while start < cells.len()
        invariant
            width > 0,
            start <= cells@.len(),
            start < cells@.len() ==> start == done * width,
            start == cells@.len() ==> done * width >= start,
            done > 0 ==> (done - 1) * width < cells@.len(),
            text@ == top + row_texts(cells@, width as nat, done).flatten(),
        decreases cells@.len() - start,
    {
        let end = if cells.len() - start <= width {
            cells.len()
        } else {
            start + width
        };
        proof {
            lemma_mul_is_distributive_add_other_way(width as int, done as int, 1);
            assert(cells@.subrange(start as int, end as int) == chunk(
                cells@,
                width as nat,
                done as int,
            ));
            let rows = row_texts(cells@, width as nat, done);
            assert(row_texts(cells@, width as nat, done + 1) =~= rows.push(
                row_text(chunk(cells@, width as nat, done as int)),
            ));
            rows.lemma_flatten_push(row_text(chunk(cells@, width as nat, done as int)));
            done = done + 1;
        }
        push_row(&mut text, cells, start, end);
        start = end;
    }
    proof {
        if done > 0 {
            lemma_mul_is_distributive_add_other_way(width as int, done - 1, 1);
        }
        lemma_fundamental_div_mod_converse(
            cells@.len() + width - 1,
            width as int,
            done as int,
            cells@.len() + width - 1 - done * width,
        );
    }
    push_edge(&mut text, "╰", width, "╯");
    text
}

/// The picture of a well-formed grid has one line for each row of the
/// grid, and the line holds the cells of that row.
pub proof fn lemma_rows_of_grid(g: Grid)
    requires
        g.wf(),
        g.width > 0,
    ensures
        row_count(g.cells.len(), g.width) == g.height,
        forall|r: int|
            0 <= r < g.height ==> #[trigger] chunk(g.cells, g.width, r) == Seq::new(
                g.width,
                |c: int| g.at(r, c),
            ),
{
    let w = g.width as int;
    let h = g.height as int;
    lemma_mul_is_commutative(w, h);
    lemma_fundamental_div_mod_converse(g.cells.len() + w - 1, w, h, w - 1);
    assert forall|r: int| 0 <= r < h implies #[trigger] chunk(g.cells, g.width, r) == Seq::new(
        g.width,
        |c: int| g.at(r, c),
    ) by {
        lemma_mul_is_distributive_add_other_way(w, r, 1);
        lemma_index_in_range(g, r, w - 1);
        lemma_index_in_range(g, r, 0);
        assert(chunk(g.cells, g.width, r) =~= Seq::new(g.width, |c: int| g.at(r, c)));
    }
}

} // verus!
