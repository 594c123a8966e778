//! The size of the board and the pace of the game.

use vstd::prelude::*;

verus! {

/// The board has this many cells across and down.
pub const GRID_SIZE: (i16, i16) = (30, 20);

/// Each cell is this many pixels wide and high.
pub const GRID_CELL_SIZE: (i16, i16) = (32, 32);

/// The size of the window, in pixels.
pub const SCREEN_SIZE: (u32, u32) = (960, 640);

/// The snake advances by one cell in this many milliseconds.
pub const MILLIS_PER_TILES: u64 = 125;

} // verus!
