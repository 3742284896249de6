//! The values that the game starts with.

use vstd::prelude::*;

verus! {

/// Default width and height of the universe.
pub const DEF_WH: u32 = 32;

/// Help message.
pub const HELP: &'static str = r#"Blocking poll() & non-blocking read()
 - Prints current state of Conway's Game of Life if there's no event
 - Use Esc or `q` to quit
 - `j`, `k`: decreasing, increasing speed
 - press Space to pause, play
 - hit `n` to switch to next shape
 - and now, press Enter to continue
"#;

} // verus!
