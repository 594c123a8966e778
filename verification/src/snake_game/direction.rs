//! The four ways the snake can go.

use vstd::prelude::*;
use crate::Keycode;

verus! {

#[derive(Clone, Copy, Debug, PartialEq, Eq, Structural)]
pub enum Direction {
    Up,
    Down,
    Left,
    Right,
}

impl Direction {
    pub open spec fn spec_inverse(self) -> Direction {
        match self {
            Direction::Up => Direction::Down,
            Direction::Down => Direction::Up,
            Direction::Left => Direction::Right,
            Direction::Right => Direction::Left,
        }
    }

    /// The opposite direction, the one way the snake cannot turn.
    #[verifier::when_used_as_spec(spec_inverse)]
    pub fn inverse(self) -> (r: Direction)
        ensures
            r == self.spec_inverse(),
    {
        match self {
            Direction::Up => Direction::Down,
            Direction::Down => Direction::Up,
            Direction::Left => Direction::Right,
            Direction::Right => Direction::Left,
        }
    }

    pub open spec fn spec_from_keycode(key: Keycode) -> Option<Direction> {
        match key {
            Keycode::Up => Some(Direction::Up),
            Keycode::Down => Some(Direction::Down),
            Keycode::Left => Some(Direction::Left),
            Keycode::Right => Some(Direction::Right),
            _ => None,
        }
    }

    /// The direction that an arrow key stands for, and `None` for every other
    /// key.
    #[verifier::when_used_as_spec(spec_from_keycode)]
    pub fn from_keycode(key: Keycode) -> (r: Option<Direction>)
        ensures
            r == Self::spec_from_keycode(key),
    {
        match key {
            Keycode::Up => Some(Direction::Up),
            Keycode::Down => Some(Direction::Down),
            Keycode::Left => Some(Direction::Left),
            Keycode::Right => Some(Direction::Right),
            _ => None,
        }
    }
}

/// Turning round twice changes nothing, and no direction is its own
/// opposite.
pub proof fn lemma_inverse_twice(d: Direction)
    ensures
        d.inverse().inverse() == d,
        d.inverse() != d,
{
}

} // verus!
