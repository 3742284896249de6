//! The starting shapes that can be chosen by number.

use vstd::prelude::*;
use crate::error::ShapeError;
use crate::pattern::loaded;
use crate::shapes::{
    copperhead, copperhead_lines, featherweigth_spaceship, featherweigth_spaceship_lines,
    gosper_glider_gun, gosper_glider_gun_lines, lemma_copperhead_size,
    lemma_featherweigth_spaceship_size, lemma_gosper_glider_gun_size, rand, striped, stripes,
};
use crate::universe::{is_placement, Universe};

verus! {

/// The number of shapes that can be chosen.
pub const SHAPES_N: u8 = 5;

/// The lines that draw the shape with index `i`, for the shapes that are
/// drawn in text: the featherweight spaceship, the copperhead and the Gosper
/// glider gun.
pub open spec fn shape_lines(i: int) -> Seq<Seq<char>> {
    if i == 0 {
        featherweigth_spaceship_lines()
    } else if i == 1 {
        copperhead_lines()
    } else {
        gosper_glider_gun_lines()
    }
}

/// The side of the smallest square that holds the shape with index `i`:
/// the larger of its width and height for a shape drawn in text, and 0 for
/// the generators, which fill any square.
pub open spec fn shape_side(i: int) -> nat {
    if i == 0 {
        3
    } else if i == 1 {
        12
    } else if i == 2 {
        36
    } else {
        0
    }
}

/// A shape drawn in text fits a square exactly when the square's side is at
/// least the shape's side, and it loads as a well-formed pattern.
pub proof fn lemma_shape_fits(i: int, wh: nat)
    requires
        0 <= i < 3,
    ensures
        loaded(shape_lines(i)).wf(),
        loaded(shape_lines(i)).fits(wh) <==> wh >= shape_side(i),
{
    lemma_featherweigth_spaceship_size();
    lemma_copperhead_size();
    lemma_gosper_glider_gun_size();
}

/// Returns the universe of side `wh` that starts with the `i`-th shape:
/// the featherweight spaceship, the copperhead and the Gosper glider gun,
/// each in the middle of the universe, then the stripes and the random fill.
///
/// Fails with `OutOfRange` if there is no `i`-th shape, and with `TooBig`
/// if the shape is drawn in text and does not fit in a square of side `wh`.
pub fn get_shape(wh: u32, i: usize) -> (res: Result<Universe, ShapeError>)
    ensures
        i < 3 ==> is_placement(res, wh as nat, loaded(shape_lines(i as int))),
        i < 3 ==> (res is Ok <==> wh >= shape_side(i as int)),
        i == 3 ==> res is Ok && res->Ok_0.wf() && res->Ok_0@ == striped(wh as nat, wh as nat),
        i == 4 ==> res is Ok && res->Ok_0.wf() && res->Ok_0@.width == wh && res->Ok_0@.height
            == wh,
        i >= SHAPES_N ==> res == Err::<Universe, ShapeError>(ShapeError::OutOfRange),
{
    if i >= SHAPES_N as usize {
        return Err(ShapeError::OutOfRange);
    }
    proof {
        if i < 3 {
            lemma_shape_fits(i as int, wh as nat);
        }
    }
    match i {
        0 => Universe::from_figur(wh, featherweigth_spaceship().as_slice()),
        1 => Universe::from_figur(wh, copperhead().as_slice()),
        2 => Universe::from_figur(wh, gosper_glider_gun().as_slice()),
        3 => Ok(stripes(wh, wh)),
        4 => Ok(rand(wh, wh)),
        _ => Err(ShapeError::OutOfRange),
    }
}

} // verus!
