//! What the snake is after.

use vstd::prelude::*;
use crate::snake_game::grid::GridPosition;

verus! {

/// A piece of food on a cell of the board.
#[derive(Clone, Copy, Debug, PartialEq, Eq, Structural)]
pub struct Food {
    pub pos: GridPosition,
}

impl Food {
    pub fn new(pos: GridPosition) -> (f: Food)
        ensures
            f.pos == pos,
    {
        Food { pos }
    }
}

} // verus!
