//! The game of the snake on a board that wraps around.

use vstd::prelude::*;
use crate::snake_game::constant::{GRID_SIZE, MILLIS_PER_TILES};
use crate::snake_game::direction::Direction;
use crate::snake_game::food::Food;
use crate::snake_game::grid::GridPosition;
use crate::snake_game::segment::Segment;
use crate::snake_game::snake::{covers, Ate, Snake};
use crate::Keycode;

pub mod constant;
pub mod direction;
pub mod food;
pub mod grid;
pub mod modulo;
pub mod segment;
pub mod snake;

verus! {

/// The state of a game: the snake, the food, whether the game is over, and
/// the milliseconds since the snake last moved.
pub struct GameState {
    pub snake: Snake,
    pub food: Food,
    pub gameover: bool,
    pub time_since_last_update: u64,
}

/// `pos` is a cell of the board.
pub open spec fn on_board(pos: GridPosition) -> bool {
    0 <= pos.x < GRID_SIZE.0 && 0 <= pos.y < GRID_SIZE.1
}

impl GameState {
    /// The snake is the one that a game starts with: its head a quarter of
    /// the way across the board and half the way down, heading right.
    pub open spec fn is_fresh(&self) -> bool {
        &&& self.snake.head == (Segment {
            pos: GridPosition { x: 7, y: 10 },
            dir: Direction::Right,
        })
        &&& self.snake.body@ == seq![
            Segment { pos: GridPosition { x: 6, y: 10 }, dir: Direction::Right },
        ]
        &&& self.snake.ate is None
        &&& self.snake.last_update_dir == Direction::Right
        &&& on_board(self.food.pos)
        &&& !self.gameover
        &&& self.time_since_last_update == 0
    }

    /// A new game, with the food on a cell drawn at random.
    pub fn new() -> (state: GameState)
        ensures
            state.is_fresh(),
    {
        let snake_pos = GridPosition::from((GRID_SIZE.0 / 4, GRID_SIZE.1 / 2));
        let food_pos = GridPosition::random(GRID_SIZE.0, GRID_SIZE.1);
        GameState {
            snake: Snake::new(snake_pos),
            food: Food::new(food_pos),
            gameover: false,
            time_since_last_update: 0,
        }
    }

    /// Takes note that `elapsed` milliseconds have passed since the snake
    /// last moved, and says whether it moved now.
    ///
    /// Before the time for one cell is up, only the time is noted. Once it
    /// is, a game that is over starts anew; otherwise the snake moves by one
    /// cell. If it ate the food, new food is put on a cell drawn at random;
    /// if it ate itself, the game is over.
    pub fn update(&mut self, elapsed: u64) -> (moved: bool)
        ensures
            moved == (elapsed >= MILLIS_PER_TILES),
            !moved ==> {
                &&& final(self).time_since_last_update == elapsed
                &&& final(self).snake == old(self).snake
                &&& final(self).food == old(self).food
                &&& final(self).gameover == old(self).gameover
            },
            moved && old(self).gameover ==> final(self).is_fresh(),
            moved && !old(self).gameover ==> {
                &&& final(self).time_since_last_update == 0
                &&& final(self).snake.head == (Segment {
                    pos: old(self).snake.head.pos.spec_moved(old(self).snake.head.dir),
                    dir: old(self).snake.head.dir,
                })
                &&& final(self).snake.ate == if covers(
                    seq![old(self).snake.head] + old(self).snake.body@,
                    final(self).snake.head.pos,
                ) {
                    Some(Ate::Itself)
                } else if final(self).snake.head.pos == old(self).food.pos {
                    Some(Ate::Food)
                } else {
                    None
                }
                &&& final(self).snake.body@ == if final(self).snake.ate is None {
                    (seq![old(self).snake.head] + old(self).snake.body@).drop_last()
                } else {
                    seq![old(self).snake.head] + old(self).snake.body@
                }
                &&& final(self).snake.last_update_dir == old(self).snake.head.dir
                &&& final(self).gameover == (final(self).snake.ate == Some(Ate::Itself))
                &&& if final(self).snake.ate == Some(Ate::Food) {
                    on_board(final(self).food.pos)
                } else {
                    final(self).food == old(self).food
                }
            },
    {
        if elapsed >= MILLIS_PER_TILES {
            if !self.gameover {
                self.snake.update(&self.food);
                if let Some(ate) = self.snake.ate {
                    match ate {
                        Ate::Food => {
                            let new_food_pos = GridPosition::random(GRID_SIZE.0, GRID_SIZE.1);
                            self.food.pos = new_food_pos;
                        },
                        Ate::Itself => {
                            self.gameover = true;
                        },
                    }
                }
            } else {
                *self = GameState::new();
            }
            self.time_since_last_update = 0;
            true
        } else {
            self.time_since_last_update = elapsed;
            false
        }
    }

    /// Turns the snake's head where an arrow key points, unless that is
    /// straight back to where the snake last came from. Other keys do
    /// nothing.
    pub fn key_down_event(&mut self, keycode: Keycode)
        ensures
            final(self).snake.head.pos == old(self).snake.head.pos,
            final(self).snake.head.dir == match Direction::from_keycode(keycode) {
                Some(dir) if dir.inverse() != old(self).snake.last_update_dir => dir,
                _ => old(self).snake.head.dir,
            },
            final(self).snake.body == old(self).snake.body,
            final(self).snake.ate == old(self).snake.ate,
            final(self).snake.last_update_dir == old(self).snake.last_update_dir,
            final(self).food == old(self).food,
            final(self).gameover == old(self).gameover,
            final(self).time_since_last_update == old(self).time_since_last_update,
    {
        if let Some(dir) = Direction::from_keycode(keycode) {
            if dir.inverse() != self.snake.last_update_dir {
                self.snake.head.dir = dir;
            }
        }
    }
}

} // verus!
