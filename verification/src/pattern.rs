//! Patterns: grids read from lines of text, before they are placed in a
//! universe.

use vstd::prelude::*;
use crate::cell::Cell;
use crate::grid::Grid;
use crate::render::{draw, drawn};

verus! {

/// The cell that a character of a pattern stands for, if any: `#` and `1`
/// are alive, `_`, a space and `0` are dead, and every other character
/// stands for nothing.
pub open spec fn cell_of_char(ch: char) -> Option<Cell> {
    if ch == '#' || ch == '1' {
        Some(Cell::Alive)
    } else if ch == '_' || ch == ' ' || ch == '0' {
        Some(Cell::Dead)
    } else {
        None
    }
}

/// The cells of one line, in order. A character that stands for nothing is
/// skipped and takes no place.
pub open spec fn line_cells(line: Seq<char>) -> Seq<Cell> {
    line.filter_map(|ch: char| cell_of_char(ch))
}

/// The cells of all the lines, one line after the other.
pub open spec fn lines_cells(lines: Seq<Seq<char>>) -> Seq<Cell> {
    lines.map_values(|line: Seq<char>| line_cells(line)).flatten()
}

/// The pattern that the lines describe: as wide as the first line is long
/// in bytes, as high as there are lines.
pub open spec fn loaded(lines: Seq<Seq<char>>) -> Grid {
    Grid {
        width: vstd::utf8::encode_utf8(lines[0]).len(),
        height: lines.len(),
        cells: lines_cells(lines),
    }
}

/// Every character of the line stands for a cell.
pub open spec fn legible(line: Seq<char>) -> bool {
    forall|i: int| 0 <= i < line.len() ==> cell_of_char(#[trigger] line[i]) is Some
}

/// The lines are all `width` characters long, and each of their characters
/// stands for a cell.
pub open spec fn rectangular(lines: Seq<Seq<char>>, width: nat) -> bool {
    forall|r: int|
        0 <= r < lines.len() ==> (#[trigger] lines[r]).len() == width && legible(lines[r])
}

/// A line in which every character stands for a cell gives one cell for
/// each character, in order.
pub proof fn lemma_line_cells_legible(line: Seq<char>)
    requires
        legible(line),
    ensures
        line_cells(line).len() == line.len(),
        forall|i: int|
            0 <= i < line.len() ==> #[trigger] line_cells(line)[i] == cell_of_char(line[i])->0,
    decreases line.len(),
{
    if line.len() > 0 {
        let rest = line.drop_last();
        assert(cell_of_char(line.last()) is Some);
        assert forall|i: int| 0 <= i < rest.len() implies cell_of_char(
            #[trigger] rest[i],
        ) is Some by {
            assert(rest[i] == line[i]);
        }
        lemma_line_cells_legible(rest);
        assert forall|i: int| 0 <= i < line.len() implies #[trigger] line_cells(line)[i]
            == cell_of_char(line[i])->0 by {
            if i < rest.len() {
                assert(rest[i] == line[i]);
                assert(line_cells(line)[i] == line_cells(rest)[i]);
            }
        }
    }
}

/// Rectangular lines give one cell for each character, row after row.
pub proof fn lemma_lines_cells_rectangular(lines: Seq<Seq<char>>, width: nat)
    requires
        rectangular(lines, width),
    ensures
        lines_cells(lines).len() == lines.len() * width,
        forall|r: int, c: int|
            0 <= r < lines.len() && 0 <= c < width ==> #[trigger] lines_cells(lines)[r * width + c]
                == cell_of_char(lines[r][c])->0,
    decreases lines.len(),
{
    let read = |line: Seq<char>| line_cells(line);
    if lines.len() == 0 {
        assert(lines.map_values(read).len() == 0);
        assert(lines.len() * width == 0) by (nonlinear_arith)
            requires
                lines.len() == 0,
        ;
    } else {
        let front = lines.drop_last();
        let last = lines.last();
        assert forall|r: int| 0 <= r < front.len() implies (#[trigger] front[r]).len() == width
            && legible(front[r]) by {
            assert(front[r] == lines[r]);
        }
        lemma_lines_cells_rectangular(front, width);
        lemma_line_cells_legible(last);
        assert(lines.map_values(read) =~= front.map_values(read).push(line_cells(last)));
        front.map_values(read).lemma_flatten_push(line_cells(last));
        assert(lines_cells(lines) == lines_cells(front) + line_cells(last));
        assert(lines.len() * width == front.len() * width + width) by (nonlinear_arith)
            requires
                lines.len() == front.len() + 1,
        ;
        assert forall|r: int, c: int|
            0 <= r < lines.len() && 0 <= c < width implies #[trigger] lines_cells(lines)[r * width
            + c] == cell_of_char(lines[r][c])->0 by {
            if r < front.len() {
                assert(0 <= r * width + c < front.len() * width) by (nonlinear_arith)
                    requires
                        0 <= r < front.len(),
                        0 <= c < width,
                ;
                assert(front[r] == lines[r]);
            } else {
                assert(r * width + c == front.len() * width + c);
            }
        }
    }
}

/// Rectangular lines load as a well-formed grid of their own width and
/// height, in which each cell is the one that its character stands for.
pub proof fn lemma_loaded_rectangular(lines: Seq<Seq<char>>, width: nat)
    requires
        lines.len() > 0,
        rectangular(lines, width),
    ensures
        loaded(lines).width == width,
        loaded(lines).height == lines.len(),
        loaded(lines).wf(),
        forall|r: int, c: int|
            0 <= r < lines.len() && 0 <= c < width ==> #[trigger] loaded(lines).at(r, c)
                == cell_of_char(lines[r][c])->0,
{
    lemma_lines_cells_rectangular(lines, width);
    assert(vstd::utf8::is_ascii_chars(lines[0])) by {
        assert forall|i: int| 0 <= i < lines[0].len() implies '\0' <= #[trigger] lines[0][i]
            <= '\u{7f}' by {
            assert(cell_of_char(lines[0][i]) is Some);
        }
    }
    vstd::utf8::is_ascii_chars_encode_utf8(lines[0]);
    assert(lines.len() * width == width * lines.len()) by (nonlinear_arith);
}

/// A grid built purely from lines of text. Its edges do not wrap, and it may
/// hold fewer or more cells than its width and height call for, where a line
/// had characters that stand for nothing or the lines differ in length.
#[derive(Debug)]
pub struct Pattern {
    width: usize,
    height: usize,
    cells: Vec<Cell>,
}

impl View for Pattern {
    type V = Grid;

    closed spec fn view(&self) -> Grid {
        Grid { width: self.width as nat, height: self.height as nat, cells: self.cells@ }
    }
}

/// Reads one character of a pattern.
pub fn read_char(ch: char) -> (cell: Option<Cell>)
    ensures
        cell == cell_of_char(ch),
{
    if ch == '#' || ch == '1' {
        Some(Cell::Alive)
    } else if ch == '_' || ch == ' ' || ch == '0' {
        Some(Cell::Dead)
    } else {
        None
    }
}

impl Pattern {
    /// Reads a pattern from its lines.
    pub fn from_vec_str(s: &[String]) -> (pattern: Pattern)
        requires
            s@.len() > 0,
        ensures
            pattern@ == loaded(s.deep_view()),
    {
        let ghost lines = s.deep_view();
        let mut cells: Vec<Cell> = Vec::new();
        let mut n: usize = 0;
        while n < s.len()
            invariant
                n <= s@.len(),
                lines == s.deep_view(),
                cells@ == lines_cells(lines.take(n as int)),
            decreases s@.len() - n,
        {
            let line = s[n].as_str();
            let ghost before = cells@;
            for ch in it: line.chars()
                invariant
                    it.seq() == line@,
                    cells@ == before + line_cells(line@.take(it.index())),
            {
                proof {
                    line@.lemma_filter_map_take_succ(|ch: char| cell_of_char(ch), it.index());
                }
                match read_char(ch) {
                    Some(cell) => {
                        cells.push(cell);
                    },
                    None => {},
                }
            }
            proof {
                assert(line@.take(line@.len() as int) =~= line@);
                let read = lines.take(n as int).map_values(|line: Seq<char>| line_cells(line));
                assert(lines.take(n + 1).map_values(|line: Seq<char>| line_cells(line))
                    =~= read.push(line_cells(line@)));
                read.lemma_flatten_push(line_cells(line@));
            }
            n = n + 1;
        }
        assert(lines.take(n as int) =~= lines);
        let width = s[0].as_str().as_bytes().len();
        assert(lines[0] == s[0]@);
        Pattern { width, height: s.len(), cells }
    }

    /// The width of the pattern, in cells.
    pub fn width(&self) -> (w: usize)
        ensures
            w == self@.width,
    {
        self.width
    }

    /// The height of the pattern, in cells.
    pub fn height(&self) -> (h: usize)
        ensures
            h == self@.height,
    {
        self.height
    }

    /// Whether the pattern holds at least one cell for each of its
    /// coordinates, so that it can be placed in a universe.
    pub fn is_complete(&self) -> (complete: bool)
        ensures
            complete == self@.covered(),
    {
        assert(self.cells.len() == self.cells@.len());
        match self.width.checked_mul(self.height) {
            Some(size) => self.cells.len() >= size,
            None => false,
        }
    }

    /// Draws the pattern as text, in a frame: the cells that were read, as
    /// many to a line as the pattern is wide.
    pub fn to_text(&self) -> (text: String)
        requires
            self@.width > 0,
        ensures
            text@ == drawn(self@.width, self@.cells),
    {
        draw(self.width, &self.cells)
    }

    /// The cells that were read, in the order of the text.
    pub fn cells(&self) -> (cells: &Vec<Cell>)
        ensures
            cells@ == self@.cells,
    {
        &self.cells
    }
}

} // verus!
