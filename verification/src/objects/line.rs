//! Wall segments.

use vstd::prelude::*;
use crate::geometry::Point2;
use crate::utils::constants::UNIT;
use crate::utils::settings::Settings;

verus! {

/// A colour, each channel from 0 to 255.
#[derive(Clone, Copy, Debug, PartialEq, Eq, Structural)]
pub struct Color {
    pub r: u8,
    pub g: u8,
    pub b: u8,
    pub a: u8,
}

impl Color {
    pub fn new(r: u8, g: u8, b: u8, a: u8) -> (c: Color)
        ensures
            c == (Color { r, g, b, a }),
    {
        Color { r, g, b, a }
    }
}

/// Why a wall was refused.
#[derive(Clone, Copy, Debug, PartialEq, Eq, Structural)]
pub enum LineError {
    /// A coordinate is not between zero and one.
    OutOfRange,
    /// The two ends fall on the same point of the scene.
    ZeroLength,
}

/// A wall: a segment between two distinct points, and its colour.
#[derive(Clone, Copy, Debug, PartialEq, Eq)]
pub struct Line {
    pub points: [Point2; 2],
    pub color: Color,
}

/// A coordinate given as a fraction of the scene, scaled by [`UNIT`], in
/// scene units of a side that is `extent` long.
pub open spec fn scaled(fraction: int, extent: int) -> int {
    fraction * extent / (UNIT as int)
}

/// `fraction` is between zero and one.
pub open spec fn is_fraction(fraction: int) -> bool {
    0 <= fraction <= UNIT
}

fn scale(fraction: i32, extent: i32) -> (r: i32)
    requires
        is_fraction(fraction as int),
        0 <= extent,
    ensures
        r == scaled(fraction as int, extent as int),
        0 <= r <= extent,
{
    assert(0 <= fraction * extent <= UNIT * extent) by (nonlinear_arith)
        requires
            0 <= fraction <= UNIT,
            0 <= extent,
    ;
    let product: i64 = (fraction as i64) * (extent as i64);
    let r: i64 = product / (UNIT as i64);
    assert(r <= extent) by {
        vstd::arithmetic::div_mod::lemma_div_is_ordered(
            product as int,
            UNIT * extent,
            UNIT as int,
        );
        vstd::arithmetic::div_mod::lemma_div_multiples_vanish(extent as int, UNIT as int);
    }
    r as i32
}

impl Line {
    /// The two ends are distinct.
    pub open spec fn wf(self) -> bool {
        self.points[0] != self.points[1]
    }

    /// The wall that `new` builds from fractions of a scene.
    pub open spec fn placed(x1: int, y1: int, x2: int, y2: int, color: Color, s: Settings) -> Line {
        Line {
            points: [
                Point2 {
                    x: scaled(x1, s.scene_width as int) as i32,
                    y: scaled(y1, s.scene_height as int) as i32,
                },
                Point2 {
                    x: scaled(x2, s.scene_width as int) as i32,
                    y: scaled(y2, s.scene_height as int) as i32,
                },
            ],
            color,
        }
    }

    /// A wall from `(x1, y1)` to `(x2, y2)`, each a fraction of the scene's
    /// width or height scaled by [`UNIT`]: `(x, y)` stands for the point
    /// `(x * width, y * height)`.
    pub fn new(x1: i32, y1: i32, x2: i32, y2: i32, color: Color, settings: &Settings) -> (r: Result<
        Line,
        LineError,
    >)
        requires
            settings.wf(),
        ensures
            r == if !(is_fraction(x1 as int) && is_fraction(y1 as int) && is_fraction(x2 as int)
                && is_fraction(y2 as int)) {
                Err::<Line, LineError>(LineError::OutOfRange)
            } else if scaled(x1 as int, settings.scene_width as int) == scaled(
                x2 as int,
                settings.scene_width as int,
            ) && scaled(y1 as int, settings.scene_height as int) == scaled(
                y2 as int,
                settings.scene_height as int,
            ) {
                Err(LineError::ZeroLength)
            } else {
                Ok(Self::placed(x1 as int, y1 as int, x2 as int, y2 as int, color, *settings))
            },
            r is Ok ==> r->Ok_0.wf(),
            r is Ok ==> forall|i: int|
                0 <= i < 2 ==> 0 <= (#[trigger] r->Ok_0.points[i]).x <= settings.scene_width && 0
                    <= r->Ok_0.points[i].y <= settings.scene_height,
    {
        if x1 < 0 || x1 > UNIT || y1 < 0 || y1 > UNIT || x2 < 0 || x2 > UNIT || y2 < 0 || y2
            > UNIT {
            return Err(LineError::OutOfRange);
        }
        let a = Point2 { x: scale(x1, settings.scene_width), y: scale(y1, settings.scene_height) };
        let b = Point2 { x: scale(x2, settings.scene_width), y: scale(y2, settings.scene_height) };
        if a.x == b.x && a.y == b.y {
            return Err(LineError::ZeroLength);
        }
        let line = Line { points: [a, b], color };
        assert(line.points@ =~= Self::placed(
            x1 as int,
            y1 as int,
            x2 as int,
            y2 as int,
            color,
            *settings,
        ).points@);
        Ok(line)
    }

    /// A wall between two points of the scene, or `None` where they are the
    /// same point.
    pub fn between(a: Point2, b: Point2, color: Color) -> (r: Option<Line>)
        ensures
            r == if a == b {
                None::<Line>
            } else {
                Some(Line { points: [a, b], color })
            },
            r is Some ==> r->Some_0.wf(),
    {
        if a.x == b.x && a.y == b.y {
            None
        } else {
            Some(Line { points: [a, b], color })
        }
    }
}

} // verus!
