//! The built-in starting shapes: patterns drawn in text, and generators
//! that fill a whole universe.

use vstd::prelude::*;
use vstd::arithmetic::mul::*;
use crate::cell::Cell;
use crate::grid::Grid;
use crate::pattern::{lemma_loaded_rectangular, loaded, rectangular};
use crate::universe::Universe;

verus! {

/// The lines that draw the featherweight spaceship, also known as the
/// glider.
pub open spec fn featherweigth_spaceship_lines() -> Seq<Seq<char>> {
    seq!["__#"@, "#_#"@, "_##"@]
}

/// The featherweight spaceship is drawn on 3 rows of 3 cells.
pub proof fn lemma_featherweigth_spaceship_size()
    ensures
        rectangular(featherweigth_spaceship_lines(), 3),
        loaded(featherweigth_spaceship_lines()).width == 3,
        loaded(featherweigth_spaceship_lines()).height == 3,
        loaded(featherweigth_spaceship_lines()).wf(),
{
    reveal_strlit("__#");
    reveal_strlit("#_#");
    reveal_strlit("_##");
    lemma_loaded_rectangular(featherweigth_spaceship_lines(), 3);
}

/// The featherweight spaceship, line by line.
pub fn featherweigth_spaceship() -> (lines: Vec<String>)
    ensures
        lines.deep_view() == featherweigth_spaceship_lines(),
{
    let mut lines: Vec<String> = Vec::new();
    lines.push("__#".to_owned());
    lines.push("#_#".to_owned());
    lines.push("_##".to_owned());
    assert(lines.deep_view() =~= featherweigth_spaceship_lines());
    lines
}

/// The lines that draw the copperhead, a small spaceship.
pub open spec fn copperhead_lines() -> Seq<Seq<char>> {
    seq![
        "_____#_##___"@,
        "____#______#"@,
        "___##___#__#"@,
        "##_#_____##_"@,
        "##_#_____##_"@,
        "___##___#__#"@,
        "____#______#"@,
        "_____#_##___"@,
    ]
}

/// The copperhead is drawn on 8 rows of 12 cells.
pub proof fn lemma_copperhead_size()
    ensures
        rectangular(copperhead_lines(), 12),
        loaded(copperhead_lines()).width == 12,
        loaded(copperhead_lines()).height == 8,
        loaded(copperhead_lines()).wf(),
{
    reveal_strlit("_____#_##___");
    reveal_strlit("____#______#");
    reveal_strlit("___##___#__#");
    reveal_strlit("##_#_____##_");
    lemma_loaded_rectangular(copperhead_lines(), 12);
}

/// The copperhead, line by line.
pub fn copperhead() -> (lines: Vec<String>)
    ensures
        lines.deep_view() == copperhead_lines(),
{
    let mut lines: Vec<String> = Vec::new();
    lines.push("_____#_##___".to_owned());
    lines.push("____#______#".to_owned());
    lines.push("___##___#__#".to_owned());
    lines.push("##_#_____##_".to_owned());
    lines.push("##_#_____##_".to_owned());
    lines.push("___##___#__#".to_owned());
    lines.push("____#______#".to_owned());
    lines.push("_____#_##___".to_owned());
    assert(lines.deep_view() =~= copperhead_lines());
    lines
}

/// The lines that draw the Gosper glider gun.
pub open spec fn gosper_glider_gun_lines() -> Seq<Seq<char>> {
    seq![
        "________________________#___________"@,
        "______________________#_#___________"@,
        "____________##______##____________##"@,
        "___________#___#____##____________##"@,
        "##________#_____#___##______________"@,
        "##________#___#_##____#_#___________"@,
        "__________#_____#_______#___________"@,
        "___________#___#____________________"@,
        "____________##______________________"@,
    ]
}

/// The Gosper glider gun is drawn on 9 rows of 36 cells.
pub proof fn lemma_gosper_glider_gun_size()
    ensures
        rectangular(gosper_glider_gun_lines(), 36),
        loaded(gosper_glider_gun_lines()).width == 36,
        loaded(gosper_glider_gun_lines()).height == 9,
        loaded(gosper_glider_gun_lines()).wf(),
{
    reveal_strlit("________________________#___________");
    reveal_strlit("______________________#_#___________");
    reveal_strlit("____________##______##____________##");
    reveal_strlit("___________#___#____##____________##");
    reveal_strlit("##________#_____#___##______________");
    reveal_strlit("##________#___#_##____#_#___________");
    reveal_strlit("__________#_____#_______#___________");
    reveal_strlit("___________#___#____________________");
    reveal_strlit("____________##______________________");
    lemma_loaded_rectangular(gosper_glider_gun_lines(), 36);
}

/// The Gosper glider gun, line by line.
pub fn gosper_glider_gun() -> (lines: Vec<String>)
    ensures
        lines.deep_view() == gosper_glider_gun_lines(),
{
    let mut lines: Vec<String> = Vec::new();
    lines.push("________________________#___________".to_owned());
    lines.push("______________________#_#___________".to_owned());
    lines.push("____________##______##____________##".to_owned());
    lines.push("___________#___#____##____________##".to_owned());
    lines.push("##________#_____#___##______________".to_owned());
    lines.push("##________#___#_##____#_#___________".to_owned());
    lines.push("__________#_____#_______#___________".to_owned());
    lines.push("___________#___#____________________".to_owned());
    lines.push("____________##______________________".to_owned());
    assert(lines.deep_view() =~= gosper_glider_gun_lines());
    lines
}

/// The cell at flat index `i` of a striped universe: alive where `i` is a
/// multiple of 2 or of 7.
pub open spec fn stripe_cell(i: int) -> Cell {
    if i % 2 == 0 || i % 7 == 0 {
        Cell::Alive
    } else {
        Cell::Dead
    }
}

/// The striped grid of the given size.
pub open spec fn striped(width: nat, height: nat) -> Grid {
    Grid { width, height, cells: Seq::new(width * height, |i: int| stripe_cell(i)) }
}

/// Flips a coin.
///
/// Calls `fastrand::bool`, which draws from the generator of the current
/// thread. Nothing is claimed of the outcome.
#[verifier::external_body]
fn coin_flip() -> bool {
    fastrand::bool()
}

/// Creates a universe in which each cell is alive or dead by the flip of a
/// coin.
pub fn rand(width: u32, height: u32) -> (uni: Universe)
    ensures
        uni.wf(),
        uni@.width == width,
        uni@.height == height,
{
    proof {
        lemma_mul_upper_bound(width as int, u32::MAX as int, height as int, u32::MAX as int);
    }
    let total = (width as u64) * (height as u64);
    let mut cells: Vec<Cell> = Vec::new();
    let mut i: u64 = 0;
    while i < total
        invariant
            i <= total,
            cells@.len() == i,
        decreases total - i,
    {
        cells.push(Cell::from_flip(coin_flip()));
        i = i + 1;
    }
    Universe::assemble(width, height, cells)
}

/// Creates a universe in which the cell at flat index `i` is alive if `i` is
/// a multiple of 2 or of 7, and dead otherwise.
pub fn stripes(width: u32, height: u32) -> (uni: Universe)
    ensures
        uni.wf(),
        uni@ == striped(width as nat, height as nat),
{
    proof {
        lemma_mul_upper_bound(width as int, u32::MAX as int, height as int, u32::MAX as int);
    }
    let total = (width as u64) * (height as u64);
    let mut cells: Vec<Cell> = Vec::new();
    let mut i: u64 = 0;
    while i < total
        invariant
            i <= total,
            cells@.len() == i,
            forall|k: int| 0 <= k < i ==> cells@[k] == stripe_cell(k),
        decreases total - i,
    {
        let cell = if i % 2 == 0 || i % 7 == 0 {
            Cell::Alive
        } else {
            Cell::Dead
        };
        cells.push(cell);
        i = i + 1;
    }
    assert(cells@ =~= striped(width as nat, height as nat).cells);
    Universe::assemble(width, height, cells)
}

} // verus!
