//! What a scene is made of, and where a ray meets it.

use vstd::prelude::*;
use crate::geometry::{cross, dot, lemma_product_bound, magnitude, Point2, Vector2};
use crate::utils::constants::SLOPE_TOLERANCE;
use crate::objects::line::{Color, Line};
use crate::ray::ray::{ahead, Ray};
use crate::utils::math::floor_div;

pub mod line;

verus! {

/// One thing that a ray can hit.
#[derive(Clone, Copy, Debug, PartialEq, Eq)]
pub enum Element {
    Wall(Line),
}

/// The cross product of `direction` with the segment from `a` to `b`: zero
/// exactly when the ray's line and the segment's line are parallel.
pub open spec fn slant(direction: Vector2, a: Point2, b: Point2) -> int {
    cross(direction.x as int, direction.y as int, b.x - a.x, b.y - a.y)
}

/// The cross product of the step from `origin` to `a` with the segment from
/// `a` to `b`. Divided by `slant`, it is how many times `direction` leads
/// from `origin` to the segment's line.
pub open spec fn reach(origin: Point2, a: Point2, b: Point2) -> int {
    cross(a.x - origin.x, a.y - origin.y, b.x - a.x, b.y - a.y)
}

/// `num / den` rounded down, for any `den` but zero.
pub open spec fn floor_ratio(num: int, den: int) -> int {
    if den > 0 {
        num / den
    } else {
        (-num) / (-den)
    }
}

/// The point where the line through `origin` along `direction` crosses the
/// line through `a` and `b`, each coordinate rounded down. Meaningful where
/// `slant` is not zero.
pub open spec fn crossing(origin: Point2, direction: Vector2, a: Point2, b: Point2) -> (int, int) {
    let den = slant(direction, a, b);
    let num = reach(origin, a, b);
    (
        origin.x + floor_ratio(num * direction.x, den),
        origin.y + floor_ratio(num * direction.y, den),
    )
}

/// `(x, y)` is left of, right of, below or above both ends of the segment.
pub open spec fn outside(x: int, y: int, a: Point2, b: Point2) -> bool {
    (x < a.x && x < b.x) || (x > a.x && x > b.x) || (y < a.y && y < b.y) || (y > a.y && y > b.y)
}

/// The product of what the ray's line and the segment's line gain in `x`:
/// zero exactly when one of the two is upright. The slopes of the two lines
/// differ by `slant` divided by this.
pub open spec fn run(direction: Vector2, a: Point2, b: Point2) -> int {
    direction.x * (b.x - a.x)
}

/// The ray's line and the segment's line count as parallel: they are
/// parallel, or neither is upright and their slopes differ by less than one
/// part in [`SLOPE_TOLERANCE`].
pub open spec fn parallel(direction: Vector2, a: Point2, b: Point2) -> bool {
    ||| slant(direction, a, b) == 0
    ||| direction.x != 0 && a.x != b.x && magnitude(slant(direction, a, b)) * SLOPE_TOLERANCE
        < magnitude(run(direction, a, b))
}

/// Where the ray from `origin` along `direction` hits the segment from `a` to
/// `b`: the crossing of the two lines, if they do not count as parallel, if
/// it lies within the segment's bounds on both axes, and if it lies ahead of
/// the origin.
pub open spec fn meet(origin: Point2, direction: Vector2, a: Point2, b: Point2) -> Option<Point2> {
    let (x, y) = crossing(origin, direction, a, b);
    if parallel(direction, a, b) || outside(x, y, a, b) || !ahead(origin, direction, x, y) {
        None
    } else {
        Some(Point2 { x: x as i32, y: y as i32 })
    }
}

/// An element that a ray can be tested against.
pub trait Intersect {
    /// Where the ray from `origin` along `direction` first meets the element.
    spec fn meets(&self, origin: Point2, direction: Vector2) -> Option<Point2>;

    /// The element's own colour.
    spec fn tint(&self) -> Color;

    /// The point where `ray` hits the element, which always lies ahead of
    /// the ray's origin, or `None`.
    fn intersect(&self, ray: &Ray) -> (hit: Option<Point2>)
        ensures
            hit == self.meets(ray.depart, ray.direction),
            hit matches Some(pt) ==> ahead(ray.depart, ray.direction, pt.x as int, pt.y as int),
    ;

    fn color(&self) -> (c: Color)
        ensures
            c == self.tint(),
    ;
}

impl Intersect for Element {
    open spec fn meets(&self, origin: Point2, direction: Vector2) -> Option<Point2> {
        match *self {
            Element::Wall(l) => l.meets(origin, direction),
        }
    }

    open spec fn tint(&self) -> Color {
        match *self {
            Element::Wall(l) => l.color,
        }
    }

    fn color(&self) -> (c: Color) {
        Element::color(self)
    }

    fn intersect(&self, ray: &Ray) -> (hit: Option<Point2>) {
        match self {
            Element::Wall(l) => l.intersect(ray),
        }
    }
}

impl Element {
    /// A wall has two distinct ends.
    pub open spec fn wf(self) -> bool {
        match self {
            Element::Wall(l) => l.wf(),
        }
    }

    pub fn color(&self) -> (c: Color)
        ensures
            c == self.tint(),
    {
        match self {
            Element::Wall(l) => l.color,
        }
    }
}

impl Intersect for Line {
    open spec fn meets(&self, origin: Point2, direction: Vector2) -> Option<Point2> {
        meet(origin, direction, self.points[0], self.points[1])
    }

    open spec fn tint(&self) -> Color {
        self.color
    }

    fn color(&self) -> (c: Color) {
        self.color
    }

    fn intersect(&self, ray: &Ray) -> (hit: Option<Point2>) {
        proof {
            lemma_hit_is_ahead(ray.depart, ray.direction, self.points[0], self.points[1]);
        }
        let a = self.points[0];
        let b = self.points[1];
        let ex: i128 = (b.x as i128) - (a.x as i128);
        let ey: i128 = (b.y as i128) - (a.y as i128);
        let wx: i128 = (a.x as i128) - (ray.depart.x as i128);
        let wy: i128 = (a.y as i128) - (ray.depart.y as i128);
        let dx: i128 = ray.direction.x as i128;
        let dy: i128 = ray.direction.y as i128;
        proof {
            lemma_product_bound(dx as int, ey as int, 0x8000_0000, 0x1_0000_0000);
            lemma_product_bound(dy as int, ex as int, 0x8000_0000, 0x1_0000_0000);
            lemma_product_bound(wx as int, ey as int, 0x1_0000_0000, 0x1_0000_0000);
            lemma_product_bound(wy as int, ex as int, 0x1_0000_0000, 0x1_0000_0000);
        }
        let slant: i128 = dx * ey - dy * ex;
        if slant == 0 {
            // The two lines are parallel, both upright or of one slope.
            return None;
        }
        if dx != 0 && ex != 0 {
            proof {
                lemma_product_bound(dx as int, ex as int, 0x8000_0000, 0x1_0000_0000);
            }
            let gap: i128 = if slant < 0 {
                -slant
            } else {
                slant
            };
            let run: i128 = if dx * ex < 0 {
                -(dx * ex)
            } else {
                dx * ex
            };
            if gap * (SLOPE_TOLERANCE as i128) < run {
                // The slopes are too near to each other to tell the lines apart.
                return None;
            }
        }
        let reach: i128 = wx * ey - wy * ex;
        proof {
            lemma_product_bound(
                reach as int,
                dx as int,
                0x2_0000_0000_0000_0000,
                0x8000_0000,
            );
            lemma_product_bound(
                reach as int,
                dy as int,
                0x2_0000_0000_0000_0000,
                0x8000_0000,
            );
        }
        let (qx, qy): (i128, i128) = if slant > 0 {
            (floor_div(reach * dx, slant), floor_div(reach * dy, slant))
        } else {
            (floor_div(-(reach * dx), -slant), floor_div(-(reach * dy), -slant))
        };
        proof {
            lemma_quotient_bound(reach * dx, slant as int, 0x1_0000_0000_0000_0000_0000_0000);
            lemma_quotient_bound(reach * dy, slant as int, 0x1_0000_0000_0000_0000_0000_0000);
        }
        let x: i128 = (ray.depart.x as i128) + qx;
        let y: i128 = (ray.depart.y as i128) + qy;
        let ax: i128 = a.x as i128;
        let ay: i128 = a.y as i128;
        let bx: i128 = b.x as i128;
        let by: i128 = b.y as i128;
        if (x < ax && x < bx) || (x > ax && x > bx) || (y < ay && y < by) || (y > ay && y > by) {
            None
        } else {
            ray.verify(Point2 { x: x as i32, y: y as i32 })
        }
    }
}

/// A segment is hit at the same point, or missed, whichever of its ends is
/// named first.
pub proof fn lemma_meet_is_symmetric(origin: Point2, direction: Vector2, a: Point2, b: Point2)
    ensures
        meet(origin, direction, a, b) == meet(origin, direction, b, a),
{
    let den = slant(direction, a, b);
    let num = reach(origin, a, b);
    let dx = direction.x as int;
    let dy = direction.y as int;
    assert(slant(direction, b, a) == -den) by (nonlinear_arith)
        requires
            den == dx * (b.y - a.y) - dy * (b.x - a.x),
            slant(direction, b, a) == dx * (a.y - b.y) - dy * (a.x - b.x),
    ;
    assert(reach(origin, b, a) == -num) by (nonlinear_arith)
        requires
            num == (a.x - origin.x) * (b.y - a.y) - (a.y - origin.y) * (b.x - a.x),
            reach(origin, b, a) == (b.x - origin.x) * (a.y - b.y) - (b.y - origin.y) * (a.x
                - b.x),
    ;
    assert((-num) * dx == -(num * dx) && (-num) * dy == -(num * dy)) by (nonlinear_arith);
    assert(run(direction, b, a) == -run(direction, a, b)) by (nonlinear_arith)
        requires
            run(direction, b, a) == dx * (a.x - b.x),
            run(direction, a, b) == dx * (b.x - a.x),
    ;
    if den != 0 {
        assert(floor_ratio(-(num * dx), -den) == floor_ratio(num * dx, den));
        assert(floor_ratio(-(num * dy), -den) == floor_ratio(num * dy, den));
    }
}

/// A reported hit lies ahead of the ray's origin, never behind it or on it,
/// and within the bounds of the segment on both axes.
pub proof fn lemma_hit_is_ahead(origin: Point2, direction: Vector2, a: Point2, b: Point2)
    ensures
        meet(origin, direction, a, b) matches Some(pt) ==> {
            &&& dot(
                pt.x - origin.x,
                pt.y - origin.y,
                direction.x as int,
                direction.y as int,
            ) > 0
            &&& !outside(pt.x as int, pt.y as int, a, b)
            &&& (pt.x as int, pt.y as int) == crossing(origin, direction, a, b)
        },
{
}

/// Lines that count as parallel never meet: a ray reports no hit on a
/// segment whose line is parallel to its own, or whose slope is within the
/// tolerance of its own.
pub proof fn lemma_parallel_lines_never_meet(
    origin: Point2,
    direction: Vector2,
    a: Point2,
    b: Point2,
)
    requires
        parallel(direction, a, b),
    ensures
        meet(origin, direction, a, b) is None,
{
}

/// Two lines of one slope are parallel, and so never meet.
pub proof fn lemma_equal_slopes_never_meet(
    origin: Point2,
    direction: Vector2,
    a: Point2,
    b: Point2,
)
    requires
        direction.y * (b.x - a.x) == direction.x * (b.y - a.y),
    ensures
        parallel(direction, a, b),
        meet(origin, direction, a, b) is None,
{
}

/// Two lines, neither upright, whose slopes differ by less than one part in
/// [`SLOPE_TOLERANCE`] count as parallel, and so never meet: the difference
/// of the slopes is `slant` over `run`, here written out.
pub proof fn lemma_near_slopes_never_meet(
    origin: Point2,
    direction: Vector2,
    a: Point2,
    b: Point2,
)
    requires
        direction.x != 0,
        a.x != b.x,
        magnitude(direction.x * (b.y - a.y) - direction.y * (b.x - a.x)) * SLOPE_TOLERANCE
            < magnitude(direction.x * (b.x - a.x)),
    ensures
        parallel(direction, a, b),
        meet(origin, direction, a, b) is None,
{
}

/// Two upright lines never meet.
pub proof fn lemma_upright_lines_never_meet(
    origin: Point2,
    direction: Vector2,
    a: Point2,
    b: Point2,
)
    requires
        direction.x == 0,
        a.x == b.x,
    ensures
        meet(origin, direction, a, b) is None,
{
    assert(direction.y * (b.x - a.x) == direction.x * (b.y - a.y)) by (nonlinear_arith)
        requires
            direction.x == 0,
            b.x - a.x == 0,
    ;
    lemma_equal_slopes_never_meet(origin, direction, a, b);
}

/// An upright ray crosses any other line at its own `x`.
pub proof fn lemma_upright_ray_keeps_x(origin: Point2, direction: Vector2, a: Point2, b: Point2)
    requires
        direction.x == 0,
        slant(direction, a, b) != 0,
    ensures
        crossing(origin, direction, a, b).0 == origin.x,
{
    let num = reach(origin, a, b);
    assert(num * direction.x == 0) by (nonlinear_arith)
        requires
            direction.x == 0,
    ;
}

/// A ray crosses an upright wall at the wall's `x`.
pub proof fn lemma_upright_wall_keeps_x(origin: Point2, direction: Vector2, a: Point2, b: Point2)
    requires
        a.x == b.x,
        slant(direction, a, b) != 0,
    ensures
        crossing(origin, direction, a, b).0 == a.x,
{
    let den = slant(direction, a, b);
    let num = reach(origin, a, b);
    let wx = a.x - origin.x;
    let dx = direction.x as int;
    assert(den == dx * (b.y - a.y) && num == wx * (b.y - a.y)) by (nonlinear_arith)
        requires
            den == dx * (b.y - a.y) - direction.y * (b.x - a.x),
            num == wx * (b.y - a.y) - (a.y - origin.y) * (b.x - a.x),
            b.x - a.x == 0,
    ;
    assert(num * dx == den * wx && -(num * dx) == (-den) * wx) by (nonlinear_arith)
        requires
            den == dx * (b.y - a.y),
            num == wx * (b.y - a.y),
    ;
    if den > 0 {
        vstd::arithmetic::div_mod::lemma_div_multiples_vanish(wx, den);
    } else {
        vstd::arithmetic::div_mod::lemma_div_multiples_vanish(wx, -den);
    }
}

/// A ray crosses a level wall at the wall's `y`.
pub proof fn lemma_level_wall_keeps_y(origin: Point2, direction: Vector2, a: Point2, b: Point2)
    requires
        a.y == b.y,
        slant(direction, a, b) != 0,
    ensures
        crossing(origin, direction, a, b).1 == a.y,
{
    let den = slant(direction, a, b);
    let num = reach(origin, a, b);
    let wy = a.y - origin.y;
    let dy = direction.y as int;
    assert(den == -(dy * (b.x - a.x)) && num == -(wy * (b.x - a.x))) by (nonlinear_arith)
        requires
            den == direction.x * (b.y - a.y) - dy * (b.x - a.x),
            num == (a.x - origin.x) * (b.y - a.y) - wy * (b.x - a.x),
            b.y - a.y == 0,
    ;
    assert(num * dy == den * wy && -(num * dy) == (-den) * wy) by (nonlinear_arith)
        requires
            den == -(dy * (b.x - a.x)),
            num == -(wy * (b.x - a.x)),
    ;
    if den > 0 {
        vstd::arithmetic::div_mod::lemma_div_multiples_vanish(wy, den);
    } else {
        vstd::arithmetic::div_mod::lemma_div_multiples_vanish(wy, -den);
    }
}

/// A quotient is no longer than what was divided.
pub proof fn lemma_quotient_bound(num: int, den: int, m: int)
    requires
        den != 0,
        -m <= num <= m,
    ensures
        -m <= floor_ratio(num, den) <= m,
{
    if den > 0 {
        assert(-m <= num / den <= m) by (nonlinear_arith)
            requires
                den > 0,
                -m <= num <= m,
        ;
    } else {
        let n = -num;
        let d = -den;
        assert(-m <= n / d <= m) by (nonlinear_arith)
            requires
                d > 0,
                -m <= n <= m,
        ;
    }
}

} // verus!
