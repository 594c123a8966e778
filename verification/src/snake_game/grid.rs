//! Cells of the board.

use vstd::prelude::*;
use rand::Rng;
use crate::snake_game::constant::GRID_SIZE;
use crate::snake_game::direction::Direction;
use crate::snake_game::modulo::{floor_mod, ModuloSigned};

verus! {

/// A cell of the board, by column and row.
#[derive(Clone, Copy, Debug, PartialEq, Eq, Structural)]
pub struct GridPosition {
    pub x: i16,
    pub y: i16,
}

/// Calls `rand::thread_rng` and `Rng::gen_range` of the crate `rand`: a
/// number drawn from `0 .. high`, zero included and `high` left out, as the
/// method's documentation says. It panics where the range is empty, which
/// the precondition rules out, and where the system has no entropy to seed
/// the generator with, which nothing here can rule out.
#[verifier::external_body]
fn random_below(high: i16) -> (r: i16)
    requires
        0 < high,
    ensures
        0 <= r < high,
{
    rand::thread_rng().gen_range::<i16>(0, high)
}

impl GridPosition {
    pub fn new(x: i16, y: i16) -> (p: GridPosition)
        ensures
            p == (GridPosition { x, y }),
    {
        GridPosition { x, y }
    }

    /// A cell drawn at random from the columns `0 .. max_x` and the rows
    /// `0 .. max_y`.
    pub fn random(max_x: i16, max_y: i16) -> (p: GridPosition)
        requires
            0 < max_x,
            0 < max_y,
        ensures
            0 <= p.x < max_x,
            0 <= p.y < max_y,
    {
        GridPosition::from((random_below(max_x), random_below(max_y)))
    }

    /// The cell next to this one in the given direction, on a board that
    /// wraps around: past the last column comes the first, past the first
    /// row the last.
    pub open spec fn spec_moved(self, dir: Direction) -> GridPosition {
        match dir {
            Direction::Up => GridPosition {
                x: self.x,
                y: floor_mod(self.y - 1, GRID_SIZE.1 as int) as i16,
            },
            Direction::Down => GridPosition {
                x: self.x,
                y: floor_mod(self.y + 1, GRID_SIZE.1 as int) as i16,
            },
            Direction::Left => GridPosition {
                x: floor_mod(self.x - 1, GRID_SIZE.0 as int) as i16,
                y: self.y,
            },
            Direction::Right => GridPosition {
                x: floor_mod(self.x + 1, GRID_SIZE.0 as int) as i16,
                y: self.y,
            },
        }
    }

    /// The cell reached from `pos` by one move in the direction `dir`.
    pub fn new_from_move(pos: GridPosition, dir: Direction) -> (p: GridPosition)
        ensures
            p == pos.spec_moved(dir),
            dir == Direction::Up || dir == Direction::Down ==> p.x == pos.x && 0 <= p.y
                < GRID_SIZE.1,
            dir == Direction::Left || dir == Direction::Right ==> p.y == pos.y && 0 <= p.x
                < GRID_SIZE.0,
    {
        let x: i32 = pos.x as i32;
        let y: i32 = pos.y as i32;
        match dir {
            Direction::Up => GridPosition::new(pos.x, wrapped(y - 1, GRID_SIZE.1)),
            Direction::Down => GridPosition::new(pos.x, wrapped(y + 1, GRID_SIZE.1)),
            Direction::Left => GridPosition::new(wrapped(x - 1, GRID_SIZE.0), pos.y),
            Direction::Right => GridPosition::new(wrapped(x + 1, GRID_SIZE.0), pos.y),
        }
    }
}

fn wrapped(v: i32, size: i16) -> (r: i16)
    requires
        size > 0,
    ensures
        r == floor_mod(v as int, size as int),
        0 <= r < size,
{
    let m: i32 = v.modulo(size as i32);
    proof {
        vstd::arithmetic::div_mod::lemma_mod_bound(v as int, size as int);
    }
    m as i16
}

impl From<(i16, i16)> for GridPosition {
    fn from(pos: (i16, i16)) -> (p: GridPosition) {
        GridPosition { x: pos.0, y: pos.1 }
    }
}

impl vstd::std_specs::convert::FromSpecImpl<(i16, i16)> for GridPosition {
    open spec fn obeys_from_spec() -> bool {
        true
    }

    open spec fn from_spec(pos: (i16, i16)) -> GridPosition {
        GridPosition { x: pos.0, y: pos.1 }
    }
}

} // verus!
