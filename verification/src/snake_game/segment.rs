//! One cell of the snake, and the rectangles it is drawn as.

use vstd::prelude::*;
use crate::snake_game::constant::{GRID_CELL_SIZE, MILLIS_PER_TILES};
use crate::snake_game::direction::Direction;
use crate::snake_game::grid::GridPosition;
use crate::utils::math::floor_div;

verus! {

/// A cell that the snake lies on, and the direction it went through it.
#[derive(Clone, Copy, Debug, PartialEq, Eq, Structural)]
pub struct Segment {
    pub pos: GridPosition,
    pub dir: Direction,
}

/// Which end of the snake a half cell is drawn for.
#[derive(Clone, Copy, Debug, PartialEq, Eq, Structural)]
pub enum Pos {
    Front,
    Back,
}

/// A rectangle of the window, in pixels: its left edge, its top, its width
/// and its height.
#[derive(Clone, Copy, Debug, PartialEq, Eq, Structural)]
pub struct Rect {
    pub x: i32,
    pub y: i32,
    pub w: i32,
    pub h: i32,
}

/// The rectangle that fills a cell of the board.
impl From<GridPosition> for Rect {
    fn from(pos: GridPosition) -> (r: Rect) {
        let w: i32 = GRID_CELL_SIZE.0 as i32;
        let h: i32 = GRID_CELL_SIZE.1 as i32;
        assert(-0x10_0000 <= pos.x * w <= 0x10_0000 && -0x10_0000 <= pos.y * h <= 0x10_0000)
            by (nonlinear_arith)
            requires
                w == 32,
                h == 32,
                -0x8000 <= pos.x <= 0x7fff,
                -0x8000 <= pos.y <= 0x7fff,
        ;
        Rect { x: (pos.x as i32) * w, y: (pos.y as i32) * h, w, h }
    }
}

impl vstd::std_specs::convert::FromSpecImpl<GridPosition> for Rect {
    open spec fn obeys_from_spec() -> bool {
        true
    }

    open spec fn from_spec(pos: GridPosition) -> Rect {
        Rect {
            x: (pos.x * GRID_CELL_SIZE.0) as i32,
            y: (pos.y * GRID_CELL_SIZE.1) as i32,
            w: GRID_CELL_SIZE.0 as i32,
            h: GRID_CELL_SIZE.1 as i32,
        }
    }
}

/// How many pixels along an axis a cell has slid at `millis` milliseconds
/// after an update: nothing at half the time between two updates, half a cell
/// back at the update itself, rounded down.
pub open spec fn slide(millis: int, cell: int) -> int {
    (millis - MILLIS_PER_TILES / 2) * cell / (MILLIS_PER_TILES as int)
}

fn slide_of(millis: u32, cell: i16) -> (r: i32)
    requires
        0 < cell <= 32,
    ensures
        r == slide(millis as int, cell as int),
        -32 <= r <= 0x4200_0000,
{
    let past: i64 = (millis as i64) - ((MILLIS_PER_TILES / 2) as i64);
    assert(-62 * 32 <= past * cell <= 0xffff_ffff * 32) by (nonlinear_arith)
        requires
            -62 <= past <= 0xffff_ffff,
            0 < cell <= 32,
    ;
    let product: i64 = past * (cell as i64);
    let r: i128 = floor_div(product as i128, MILLIS_PER_TILES as i128);
    assert(-32 <= r <= 0x4200_0000) by (nonlinear_arith)
        requires
            r == (product as int) / 125,
            -62 * 32 <= product <= 0xffff_ffff * 32,
    ;
    r as i32
}

impl Segment {
    pub fn new(pos: GridPosition, dir: Direction) -> (s: Segment)
        ensures
            s == (Segment { pos, dir }),
    {
        Segment { pos, dir }
    }

    /// The cell-sized square of this segment at `time_la` milliseconds after
    /// the last update, slid along the segment's direction.
    pub open spec fn spec_rect(self, time_la: int) -> Rect {
        let dx = slide(time_la, GRID_CELL_SIZE.0 as int);
        let dy = slide(time_la, GRID_CELL_SIZE.1 as int);
        Rect {
            x: (self.pos.x * GRID_CELL_SIZE.0 + match self.dir {
                Direction::Right => dx,
                Direction::Left => -dx,
                _ => 0,
            }) as i32,
            y: (self.pos.y * GRID_CELL_SIZE.1 + match self.dir {
                Direction::Up => -dy,
                Direction::Down => dy,
                _ => 0,
            }) as i32,
            w: GRID_CELL_SIZE.0 as i32,
            h: GRID_CELL_SIZE.1 as i32,
        }
    }

    /// The square to draw for this segment `time_la` milliseconds after the
    /// last update, so that the snake glides from cell to cell.
    pub fn as_rect(&self, time_la: u32) -> (r: Rect)
        ensures
            r == self.spec_rect(time_la as int),
    {
        let dx: i32 = slide_of(time_la, GRID_CELL_SIZE.0);
        let dy: i32 = slide_of(time_la, GRID_CELL_SIZE.1);
        let w: i32 = GRID_CELL_SIZE.0 as i32;
        let h: i32 = GRID_CELL_SIZE.1 as i32;
        assert(-0x10_0000 <= self.pos.x * w <= 0x10_0000 && -0x10_0000 <= self.pos.y * h
            <= 0x10_0000) by (nonlinear_arith)
            requires
                w == 32,
                h == 32,
                -0x8000 <= self.pos.x <= 0x7fff,
                -0x8000 <= self.pos.y <= 0x7fff,
        ;
        let x: i32 = (self.pos.x as i32) * w;
        let y: i32 = (self.pos.y as i32) * h;
        let rectx: i32 = match self.dir {
            Direction::Right => x + dx,
            Direction::Left => x - dx,
            _ => x,
        };
        let recty: i32 = match self.dir {
            Direction::Up => y - dy,
            Direction::Down => y + dy,
            _ => y,
        };
        Rect { x: rectx, y: recty, w, h }
    }

    /// Where the half cell at the back of a segment starts, given where the
    /// one at the front starts, in half cells: moved to the other half along
    /// the axis that the segment is cut on.
    fn new_t(tx: i32, ty: i32, sx: i32) -> (r: (i32, i32))
        requires
            0 <= tx <= 1,
            0 <= ty <= 1,
        ensures
            r == if sx == 2 {
                (tx, (1 - ty) as i32)
            } else {
                ((1 - tx) as i32, ty)
            },
    {
        if sx == 2 {
            return (tx, 1 - ty);
        }
        (1 - tx, ty)
    }

    /// One half of this segment's cell, cut across the segment's direction:
    /// for the front of the snake the half that the direction points away
    /// from, for its back the half that it points into.
    pub open spec fn spec_semi_rect(self, pos: Pos) -> Rect {
        let w = GRID_CELL_SIZE.0 as int;
        let h = GRID_CELL_SIZE.1 as int;
        let left = self.pos.x * w;
        let top = self.pos.y * h;
        let front = pos == Pos::Front;
        match self.dir {
            Direction::Right => Rect {
                x: (if front {
                    left
                } else {
                    left + w / 2
                }) as i32,
                y: top as i32,
                w: (w / 2) as i32,
                h: h as i32,
            },
            Direction::Left => Rect {
                x: (if front {
                    left + w / 2
                } else {
                    left
                }) as i32,
                y: top as i32,
                w: (w / 2) as i32,
                h: h as i32,
            },
            Direction::Up => Rect {
                x: left as i32,
                y: (if front {
                    top + h / 2
                } else {
                    top
                }) as i32,
                w: w as i32,
                h: (h / 2) as i32,
            },
            Direction::Down => Rect {
                x: left as i32,
                y: (if front {
                    top
                } else {
                    top + h / 2
                }) as i32,
                w: w as i32,
                h: (h / 2) as i32,
            },
        }
    }

    /// Half of this segment's cell, which lengthens the snake's head or tail
    /// by what the gliding squares leave open.
    pub fn as_semi_rect(&self, pos: Pos) -> (r: Rect)
        ensures
            r == self.spec_semi_rect(pos),
    {
        // Sizes and offsets in half cells.
        let (sx, tx): (i32, i32) = match self.dir {
            Direction::Right => (1, 0),
            Direction::Left => (1, 1),
            _ => (2, 0),
        };
        let (sy, ty): (i32, i32) = match self.dir {
            Direction::Up => (1, 1),
            Direction::Down => (1, 0),
            _ => (2, 0),
        };
        let (tx, ty): (i32, i32) = match pos {
            Pos::Back => Segment::new_t(tx, ty, sx),
            _ => (tx, ty),
        };
        let half_w: i32 = (GRID_CELL_SIZE.0 as i32) / 2;
        let half_h: i32 = (GRID_CELL_SIZE.1 as i32) / 2;
        assert((2 * self.pos.x + tx) * half_w == self.pos.x * 32 + tx * 16 && (2 * self.pos.y
            + ty) * half_h == self.pos.y * 32 + ty * 16 && half_w * sx == 16 * sx && half_h * sy
            == 16 * sy) by (nonlinear_arith)
            requires
                half_w == 16,
                half_h == 16,
        ;
        Rect {
            x: (2 * (self.pos.x as i32) + tx) * half_w,
            y: (2 * (self.pos.y as i32) + ty) * half_h,
            w: half_w * sx,
            h: half_h * sy,
        }
    }
}

} // verus!
