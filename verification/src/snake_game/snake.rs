//! The snake: its head, its body, and how it moves and eats.

use vstd::prelude::*;
use std::collections::VecDeque;
use crate::snake_game::direction::Direction;
use crate::snake_game::food::Food;
use crate::snake_game::grid::GridPosition;
use crate::snake_game::segment::Segment;

verus! {

/// What the snake ate in an update: a piece of food, or itself when the head
/// ran into the body.
#[derive(Clone, Copy, Debug, PartialEq, Eq, Structural)]
pub enum Ate {
    Itself,
    Food,
}

/// The snake. The body starts behind the head and ends at the tail.
pub struct Snake {
    pub head: Segment,
    pub body: VecDeque<Segment>,
    /// What the last update made the snake eat.
    pub ate: Option<Ate>,
    /// The direction of the last update, which the next turn must not
    /// reverse.
    pub last_update_dir: Direction,
}

/// Some segment of `body` lies on `pos`.
pub open spec fn covers(body: Seq<Segment>, pos: GridPosition) -> bool {
    exists|i: int| 0 <= i < body.len() && (#[trigger] body[i]).pos == pos
}

impl Snake {
    /// A snake with its head on `pos` and one segment of body to the left of
    /// it, heading right.
    pub fn new(pos: GridPosition) -> (s: Snake)
        requires
            pos.x > i16::MIN,
        ensures
            s.head == (Segment { pos, dir: Direction::Right }),
            s.body@ == seq![
                Segment {
                    pos: GridPosition { x: (pos.x - 1) as i16, y: pos.y },
                    dir: Direction::Right,
                },
            ],
            s.ate is None,
            s.last_update_dir == Direction::Right,
    {
        let mut body = VecDeque::new();
        body.push_back(Segment::new(GridPosition::from((pos.x - 1, pos.y)), Direction::Right));
        let s = Snake {
            head: Segment::new(pos, Direction::Right),
            last_update_dir: Direction::Right,
            body: body,
            ate: None,
        };
        assert(s.body@ =~= seq![
            Segment {
                pos: GridPosition { x: (pos.x - 1) as i16, y: pos.y },
                dir: Direction::Right,
            },
        ]);
        s
    }

    /// Whether the head lies on the food.
    pub fn eats(&self, food: &Food) -> (r: bool)
        ensures
            r == (self.head.pos == food.pos),
    {
        if self.head.pos == food.pos {
            true
        } else {
            false
        }
    }

    /// Whether the head lies on a segment of the body.
    pub fn eats_self(&self) -> (r: bool)
        ensures
            r == covers(self.body@, self.head.pos),
    {
        let mut i: usize = 0;
        while i < self.body.len()
            invariant
                0 <= i <= self.body@.len(),
                forall|k: int| 0 <= k < i ==> (#[trigger] self.body@[k]).pos != self.head.pos,
            decreases self.body@.len() - i,
        {
            if self.head.pos == self.body[i].pos {
                return true;
            }
            i += 1;
        }
        false
    }

    /// Moves the snake by one cell in the direction of its head.
    ///
    /// The old head becomes the first segment of the body and the new head
    /// lies on the next cell. A head that then lies on the body has eaten the
    /// snake itself; otherwise one that lies on the food has eaten the food,
    /// and the snake is one segment longer. A snake that ate nothing loses
    /// its last segment, and so has moved.
    pub fn update(&mut self, food: &Food)
        ensures
            final(self).head == (Segment {
                pos: old(self).head.pos.spec_moved(old(self).head.dir),
                dir: old(self).head.dir,
            }),
            final(self).ate == if covers(
                seq![old(self).head] + old(self).body@,
                final(self).head.pos,
            ) {
                Some(Ate::Itself)
            } else if final(self).head.pos == food.pos {
                Some(Ate::Food)
            } else {
                None
            },
            final(self).body@ == if final(self).ate is None {
                (seq![old(self).head] + old(self).body@).drop_last()
            } else {
                seq![old(self).head] + old(self).body@
            },
            final(self).last_update_dir == old(self).head.dir,
    {
        let new_head_pos = GridPosition::new_from_move(self.head.pos, self.head.dir);
        let new_head = Segment::new(new_head_pos, self.head.dir);
        self.body.push_front(self.head);
        self.head = new_head;
        if self.eats_self() {
            self.ate = Some(Ate::Itself);
        } else if self.eats(food) {
            self.ate = Some(Ate::Food);
        } else {
            self.ate = None
        }
        if let None = self.ate {
            self.body.pop_back();
        }
        self.last_update_dir = self.head.dir;
    }
}

} // verus!
