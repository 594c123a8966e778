//! Points, vectors and rotations of the plane.

use vstd::prelude::*;
use crate::utils::constants::{HALF_TURN, QUARTER_TURN, THREE_QUARTER_TURN, TWO_PI, UNIT};
use crate::utils::math::{floor_div, isqrt, sqrt_floor};

verus! {

/// A position, in scene units.
#[derive(Clone, Copy, Debug, PartialEq, Eq, Structural)]
pub struct Point2 {
    pub x: i32,
    pub y: i32,
}

/// A displacement or a direction.
#[derive(Clone, Copy, Debug, PartialEq, Eq, Structural)]
pub struct Vector2 {
    pub x: i32,
    pub y: i32,
}

/// A rotation by `angle` microradians, with its cosine and sine scaled by
/// [`UNIT`].
#[derive(Clone, Copy, Debug, PartialEq, Eq, Structural)]
pub struct Rotation2 {
    pub angle: i32,
    pub cos: i32,
    pub sin: i32,
}

/// The dot product of `(ax, ay)` and `(bx, by)`.
pub open spec fn dot(ax: int, ay: int, bx: int, by: int) -> int {
    ax * bx + ay * by
}

/// The cross product of `(ax, ay)` and `(bx, by)`: zero exactly when the two
/// are parallel.
pub open spec fn cross(ax: int, ay: int, bx: int, by: int) -> int {
    ax * by - ay * bx
}

/// The product of two bounded numbers is bounded by the product of the
/// bounds.
pub proof fn lemma_product_bound(a: int, b: int, m: int, n: int)
    requires
        -m <= a <= m,
        -n <= b <= n,
    ensures
        -(m * n) <= a * b <= m * n,
{
    assert(-(m * n) <= a * b <= m * n) by (nonlinear_arith)
        requires
            -m <= a <= m,
            -n <= b <= n,
    ;
}

/// The size of `v`, without its sign.
pub open spec fn magnitude(v: int) -> int {
    if v < 0 {
        -v
    } else {
        v
    }
}

/// `v` is a coordinate of the grid.
pub open spec fn on_grid(v: int) -> bool {
    i32::MIN <= v <= i32::MAX
}

fn coordinate(v: i64) -> (r: Option<i32>)
    ensures
        r == if on_grid(v as int) {
            Some(v as i32)
        } else {
            None
        },
{
    if v < i32::MIN as i64 || v > i32::MAX as i64 {
        None
    } else {
        Some(v as i32)
    }
}

fn pair(x: i64, y: i64) -> (r: Option<(i32, i32)>)
    ensures
        r == if on_grid(x as int) && on_grid(y as int) {
            Some((x as i32, y as i32))
        } else {
            None
        },
{
    match (coordinate(x), coordinate(y)) {
        (Some(x), Some(y)) => Some((x, y)),
        _ => None,
    }
}

impl Point2 {
    pub fn new(x: i32, y: i32) -> (p: Point2)
        ensures
            p == (Point2 { x, y }),
    {
        Point2 { x, y }
    }

    /// The point reached from this one by `v`, or `None` where it lies off
    /// the grid.
    pub fn translated(&self, v: &Vector2) -> (r: Option<Point2>)
        ensures
            r == if on_grid(self.x + v.x) && on_grid(self.y + v.y) {
                Some(Point2 { x: (self.x + v.x) as i32, y: (self.y + v.y) as i32 })
            } else {
                None
            },
    {
        match pair((self.x as i64) + (v.x as i64), (self.y as i64) + (v.y as i64)) {
            Some((x, y)) => Some(Point2 { x, y }),
            None => None,
        }
    }

    /// The step that leads from `origin` to this point, or `None` where it is
    /// longer than the grid is wide.
    pub fn offset_from(&self, origin: &Point2) -> (r: Option<Vector2>)
        ensures
            r == if on_grid(self.x - origin.x) && on_grid(self.y - origin.y) {
                Some(Vector2 { x: (self.x - origin.x) as i32, y: (self.y - origin.y) as i32 })
            } else {
                None
            },
    {
        match pair((self.x as i64) - (origin.x as i64), (self.y as i64) - (origin.y as i64)) {
            Some((x, y)) => Some(Vector2 { x, y }),
            None => None,
        }
    }
}

impl Vector2 {
    pub fn new(x: i32, y: i32) -> (v: Vector2)
        ensures
            v == (Vector2 { x, y }),
    {
        Vector2 { x, y }
    }

    /// The sum of the two vectors, or `None` where it does not fit the grid.
    pub fn plus(&self, other: &Vector2) -> (r: Option<Vector2>)
        ensures
            r == if on_grid(self.x + other.x) && on_grid(self.y + other.y) {
                Some(Vector2 { x: (self.x + other.x) as i32, y: (self.y + other.y) as i32 })
            } else {
                None
            },
    {
        match pair((self.x as i64) + (other.x as i64), (self.y as i64) + (other.y as i64)) {
            Some((x, y)) => Some(Vector2 { x, y }),
            None => None,
        }
    }

    /// This vector less `other`, or `None` where that does not fit the grid.
    pub fn minus(&self, other: &Vector2) -> (r: Option<Vector2>)
        ensures
            r == if on_grid(self.x - other.x) && on_grid(self.y - other.y) {
                Some(Vector2 { x: (self.x - other.x) as i32, y: (self.y - other.y) as i32 })
            } else {
                None
            },
    {
        match pair((self.x as i64) - (other.x as i64), (self.y as i64) - (other.y as i64)) {
            Some((x, y)) => Some(Vector2 { x, y }),
            None => None,
        }
    }

    /// This vector `factor` times as long, or `None` where that does not fit
    /// the grid.
    pub fn scaled(&self, factor: i32) -> (r: Option<Vector2>)
        ensures
            r == if on_grid(self.x * factor) && on_grid(self.y * factor) {
                Some(Vector2 { x: (self.x * factor) as i32, y: (self.y * factor) as i32 })
            } else {
                None
            },
    {
        proof {
            lemma_product_bound(self.x as int, factor as int, 0x8000_0000, 0x8000_0000);
            lemma_product_bound(self.y as int, factor as int, 0x8000_0000, 0x8000_0000);
        }
        match pair((self.x as i64) * (factor as i64), (self.y as i64) * (factor as i64)) {
            Some((x, y)) => Some(Vector2 { x, y }),
            None => None,
        }
    }

    /// Neither component is longer than one.
    pub open spec fn within_unit(self) -> bool {
        -UNIT <= self.x <= UNIT && -UNIT <= self.y <= UNIT
    }

    /// The vector is one long, give or take the rounding of its components:
    /// its squared length is less than four parts in a million away from
    /// one.
    pub open spec fn is_unit(self) -> bool {
        UNIT * UNIT - 4 * UNIT - 2 < self.x * self.x + self.y * self.y < (UNIT + 1) * (UNIT + 1)
    }

    /// No component of a vector that is one long is longer than one.
    pub proof fn lemma_unit_is_within_unit(self)
        requires
            self.is_unit(),
        ensures
            self.within_unit(),
    {
        let x = self.x as int;
        let y = self.y as int;
        assert(-UNIT <= x <= UNIT) by (nonlinear_arith)
            requires
                x * x + y * y < (UNIT + 1) * (UNIT + 1),
        ;
        assert(-UNIT <= y <= UNIT) by (nonlinear_arith)
            requires
                x * x + y * y < (UNIT + 1) * (UNIT + 1),
        ;
    }

    /// Whether the vector is one long, give or take the rounding.
    pub fn has_unit_length(&self) -> (r: bool)
        ensures
            r == self.is_unit(),
    {
        proof {
            lemma_product_bound(self.x as int, self.x as int, 0x8000_0000, 0x8000_0000);
            lemma_product_bound(self.y as int, self.y as int, 0x8000_0000, 0x8000_0000);
        }
        let x: i128 = self.x as i128;
        let y: i128 = self.y as i128;
        let length_sq: i128 = x * x + y * y;
        assert(UNIT * UNIT - 4 * UNIT - 2 == 999_995_999_998 && (UNIT + 1) * (UNIT + 1)
            == 1_000_002_000_001) by (nonlinear_arith);
        999_995_999_998 < length_sq && length_sq < 1_000_002_000_001
    }

    pub open spec fn spec_dot(self, other: Vector2) -> int {
        dot(self.x as int, self.y as int, other.x as int, other.y as int)
    }

    /// The dot product with `other`.
    pub fn dot(&self, other: &Vector2) -> (d: i128)
        ensures
            d == self.spec_dot(*other),
    {
        proof {
            lemma_product_bound(self.x as int, other.x as int, 0x8000_0000, 0x8000_0000);
            lemma_product_bound(self.y as int, other.y as int, 0x8000_0000, 0x8000_0000);
        }
        (self.x as i128) * (other.x as i128) + (self.y as i128) * (other.y as i128)
    }

    /// The length of the vector times [`UNIT`], rounded down.
    pub open spec fn spec_length(self) -> int {
        sqrt_floor(
            ((self.x * UNIT) * (self.x * UNIT) + (self.y * UNIT) * (self.y * UNIT)) as nat,
        ) as int
    }

    /// One component of the vector of length one that points as this one
    /// does, rounded towards zero.
    pub open spec fn unit_part(self, part: int) -> int {
        if part >= 0 {
            part * UNIT * UNIT / self.spec_length()
        } else {
            -((-part) * UNIT * UNIT / self.spec_length())
        }
    }

    /// The vector of length one, in the scale of [`UNIT`], that points as
    /// this one does. Meaningful for every vector but zero.
    pub open spec fn spec_normalized(self) -> Vector2 {
        Vector2 { x: self.unit_part(self.x as int) as i32, y: self.unit_part(self.y as int) as i32 }
    }

    /// The vector scaled to length one, or `None` for the zero vector, which
    /// points nowhere.
    pub fn normalized(&self) -> (r: Option<Vector2>)
        ensures
            r == if self.x == 0 && self.y == 0 {
                None
            } else {
                Some(self.spec_normalized())
            },
            r matches Some(v) ==> v.is_unit() && v.within_unit() && v.x == self.unit_part(
                self.x as int,
            ) && v.y == self.unit_part(self.y as int),
    {
        if self.x == 0 && self.y == 0 {
            return None;
        }
        let ax: u128 = if self.x >= 0 {
            self.x as u128
        } else {
            (-(self.x as i64)) as u128
        };
        let ay: u128 = if self.y >= 0 {
            self.y as u128
        } else {
            (-(self.y as i64)) as u128
        };
        let unit: u128 = UNIT as u128;
        let sx: u128 = ax * unit;
        let sy: u128 = ay * unit;
        assert(sx * sx <= 0x8000_0000 * UNIT * (0x8000_0000 * UNIT) && sy * sy <= 0x8000_0000
            * UNIT * (0x8000_0000 * UNIT)) by (nonlinear_arith)
            requires
                0 <= sx <= 0x8000_0000 * UNIT,
                0 <= sy <= 0x8000_0000 * UNIT,
        ;
        assert((self.x * UNIT) * (self.x * UNIT) == sx * sx && (self.y * UNIT) * (self.y * UNIT)
            == sy * sy) by (nonlinear_arith)
            requires
                sx == ax * UNIT,
                sy == ay * UNIT,
                ax == self.x || ax == -self.x,
                ay == self.y || ay == -self.y,
        ;
        let length: u64 = isqrt(sx * sx + sy * sy);
        assert(length >= sx && length >= sy && length >= 1) by (nonlinear_arith)
            requires
                sx * sx + sy * sy < (length + 1) * (length + 1),
                0 <= sx,
                0 <= sy,
                sx >= 1 || sy >= 1,
        ;
        assert(sx * unit <= 0x8000_0000 * UNIT * UNIT && sy * unit <= 0x8000_0000 * UNIT * UNIT)
            by (nonlinear_arith)
            requires
                0 <= sx <= 0x8000_0000 * UNIT,
                0 <= sy <= 0x8000_0000 * UNIT,
                unit == UNIT,
        ;
        let ux: u128 = sx * unit / (length as u128);
        let uy: u128 = sy * unit / (length as u128);
        assert(ux <= UNIT && uy <= UNIT) by (nonlinear_arith)
            requires
                ux == sx * unit / (length as int),
                uy == sy * unit / (length as int),
                sx <= length,
                sy <= length,
                length >= 1,
                unit == UNIT,
        ;
        assert(ax * UNIT * UNIT == sx * unit && ay * UNIT * UNIT == sy * unit) by (nonlinear_arith)
            requires
                sx == ax * UNIT,
                sy == ay * UNIT,
                unit == UNIT,
        ;
        proof {
            lemma_unit_length(
                sx as int,
                sy as int,
                length as int,
                ux as int,
                uy as int,
            );
        }
        let x: i32 = if self.x >= 0 {
            ux as i32
        } else {
            -(ux as i32)
        };
        let y: i32 = if self.y >= 0 {
            uy as i32
        } else {
            -(uy as i32)
        };
        assert(x * x == ux * ux && y * y == uy * uy) by (nonlinear_arith)
            requires
                x == ux || x == -ux,
                y == uy || y == -uy,
        ;
        Some(Vector2 { x, y })
    }

    /// The first component of this vector turned by `rot`, rounded down:
    /// `x cos - y sin`.
    pub open spec fn turned_x(self, rot: Rotation2) -> int {
        (self.x * rot.cos - self.y * rot.sin) / (UNIT as int)
    }

    /// The second component of this vector turned by `rot`, rounded down:
    /// `x sin + y cos`.
    pub open spec fn turned_y(self, rot: Rotation2) -> int {
        (self.x * rot.sin + self.y * rot.cos) / (UNIT as int)
    }

    /// This vector turned by `rot`, each component rounded down. Meaningful
    /// where both components are on the grid.
    pub open spec fn spec_rotated(self, rot: Rotation2) -> Vector2 {
        Vector2 { x: self.turned_x(rot) as i32, y: self.turned_y(rot) as i32 }
    }

    /// A vector that is turned is no longer than the sum of its components,
    /// and, where none of them is longer than one, no longer than two.
    pub proof fn lemma_turned_bounds(self, rot: Rotation2)
        requires
            rot.wf(),
        ensures
            -(magnitude(self.x as int) + magnitude(self.y as int)) <= self.turned_x(
                rot,
            ) <= magnitude(self.x as int) + magnitude(self.y as int),
            -(magnitude(self.x as int) + magnitude(self.y as int)) <= self.turned_y(
                rot,
            ) <= magnitude(self.x as int) + magnitude(self.y as int),
    {
        rot.lemma_wf_bounds();
        let u = UNIT as int;
        let ax = magnitude(self.x as int);
        let ay = magnitude(self.y as int);
        lemma_product_bound(rot.cos as int, self.x as int, u, ax);
        lemma_product_bound(rot.sin as int, self.y as int, u, ay);
        lemma_product_bound(rot.sin as int, self.x as int, u, ax);
        lemma_product_bound(rot.cos as int, self.y as int, u, ay);
        let a = self.x * rot.cos - self.y * rot.sin;
        let b = self.x * rot.sin + self.y * rot.cos;
        let m = ax + ay;
        assert(-(u * m) <= a <= u * m && -(u * m) <= b <= u * m) by (nonlinear_arith)
            requires
                -(u * ax) <= rot.cos * self.x <= u * ax,
                -(u * ay) <= rot.sin * self.y <= u * ay,
                -(u * ax) <= rot.sin * self.x <= u * ax,
                -(u * ay) <= rot.cos * self.y <= u * ay,
                a == self.x * rot.cos - self.y * rot.sin,
                b == self.x * rot.sin + self.y * rot.cos,
                m == ax + ay,
        ;
        assert(-m <= a / u <= m) by (nonlinear_arith)
            requires
                -(u * m) <= a <= u * m,
                u > 0,
        ;
        assert(-m <= b / u <= m) by (nonlinear_arith)
            requires
                -(u * m) <= b <= u * m,
                u > 0,
        ;
    }

    /// A vector that is one long does not vanish when it is turned.
    pub proof fn lemma_turned_is_not_zero(self, rot: Rotation2)
        requires
            self.is_unit(),
            rot.wf(),
        ensures
            !(self.turned_x(rot) == 0 && self.turned_y(rot) == 0),
    {
        let u = UNIT as int;
        let x = self.x as int;
        let y = self.y as int;
        let c = rot.cos as int;
        let s = rot.sin as int;
        let a = x * c - y * s;
        let b = x * s + y * c;
        if a / u == 0 && b / u == 0 {
            assert(0 <= a < u) by (nonlinear_arith)
                requires
                    a / u == 0,
                    u > 0,
            ;
            assert(0 <= b < u) by (nonlinear_arith)
                requires
                    b / u == 0,
                    u > 0,
            ;
            assert(a * a + b * b < 2 * (u * u)) by (nonlinear_arith)
                requires
                    0 <= a < u,
                    0 <= b < u,
            ;
            // The squared lengths multiply.
            let v2 = x * x + y * y;
            let r2 = c * c + s * s;
            let xc = x * c;
            let ys = y * s;
            let xs = x * s;
            let yc = y * c;
            assert(xc * ys == xs * yc) by (nonlinear_arith)
                requires
                    xc == x * c,
                    ys == y * s,
                    xs == x * s,
                    yc == y * c,
            ;
            assert(a * a + b * b == xc * xc + ys * ys + xs * xs + yc * yc) by (nonlinear_arith)
                requires
                    a == xc - ys,
                    b == xs + yc,
                    xc * ys == xs * yc,
            ;
            assert(xc * xc == (x * x) * (c * c) && ys * ys == (y * y) * (s * s) && xs * xs == (x
                * x) * (s * s) && yc * yc == (y * y) * (c * c)) by (nonlinear_arith)
                requires
                    xc == x * c,
                    ys == y * s,
                    xs == x * s,
                    yc == y * c,
            ;
            assert(v2 * r2 == (x * x) * (c * c) + (y * y) * (s * s) + (x * x) * (s * s) + (y * y)
                * (c * c)) by (nonlinear_arith)
                requires
                    v2 == x * x + y * y,
                    r2 == c * c + s * s,
            ;
            let least = u * u - 4 * u - 1;
            assert(v2 * r2 >= least * least) by (nonlinear_arith)
                requires
                    v2 >= least,
                    r2 >= least,
                    least >= 0,
            ;
            assert(least * least >= 2 * (u * u)) by (nonlinear_arith)
                requires
                    u == 1_000_000,
                    least == u * u - 4 * u - 1,
            ;
        }
    }

    /// Turns the vector by `rot`: `x' = x cos - y sin`, `y' = x sin + y cos`,
    /// each rounded down. The result is `None` where it does not fit the
    /// grid, which cannot happen to a vector whose components are less than
    /// half the width of the grid when `rot` is a rotation.
    pub fn rotated(&self, rot: &Rotation2) -> (r: Option<Vector2>)
        ensures
            r == if on_grid(self.turned_x(*rot)) && on_grid(self.turned_y(*rot)) {
                Some(self.spec_rotated(*rot))
            } else {
                None
            },
            r matches Some(v) ==> v.x == self.turned_x(*rot) && v.y == self.turned_y(*rot),
            rot.wf() && -0x3fff_ffff <= self.x <= 0x3fff_ffff && -0x3fff_ffff <= self.y
                <= 0x3fff_ffff ==> r is Some,
            rot.wf() && self.within_unit() ==> -2 * UNIT <= self.turned_x(*rot) <= 2 * UNIT && -2
                * UNIT <= self.turned_y(*rot) <= 2 * UNIT,
    {
        proof {
            lemma_product_bound(self.x as int, rot.cos as int, 0x8000_0000, 0x8000_0000);
            lemma_product_bound(self.y as int, rot.sin as int, 0x8000_0000, 0x8000_0000);
            lemma_product_bound(self.x as int, rot.sin as int, 0x8000_0000, 0x8000_0000);
            lemma_product_bound(self.y as int, rot.cos as int, 0x8000_0000, 0x8000_0000);
            if rot.wf() {
                self.lemma_turned_bounds(*rot);
            }
        }
        let a: i128 = (self.x as i128) * (rot.cos as i128) - (self.y as i128) * (rot.sin as i128);
        let b: i128 = (self.x as i128) * (rot.sin as i128) + (self.y as i128) * (rot.cos as i128);
        let x: i128 = floor_div(a, UNIT as i128);
        let y: i128 = floor_div(b, UNIT as i128);
        assert(-0x8000_0000_0000_0000 <= x <= 0x7fff_ffff_ffff_ffff && -0x8000_0000_0000_0000 <= y
            <= 0x7fff_ffff_ffff_ffff) by (nonlinear_arith)
            requires
                x == (a as int) / (UNIT as int),
                y == (b as int) / (UNIT as int),
                -0x8000_0000_0000_0000 <= a <= 0x8000_0000_0000_0000,
                -0x8000_0000_0000_0000 <= b <= 0x8000_0000_0000_0000,
                UNIT == 1_000_000,
        ;
        match pair(x as i64, y as i64) {
            Some((x, y)) => Some(Vector2 { x, y }),
            None => None,
        }
    }
}

/// What is left of a vector `(a, b)`, each part a multiple of [`UNIT`] and
/// `len` its length rounded down, when each part is divided by `len` in the
/// scale of [`UNIT`], is one long to within the rounding.
proof fn lemma_unit_length(a: int, b: int, len: int, x: int, y: int)
    requires
        0 <= a,
        0 <= b,
        a >= UNIT || b >= UNIT,
        len * len <= a * a + b * b < (len + 1) * (len + 1),
        len >= 1,
        x == a * UNIT / len,
        y == b * UNIT / len,
    ensures
        UNIT * UNIT - 4 * UNIT - 2 < x * x + y * y < (UNIT + 1) * (UNIT + 1),
        0 <= x <= UNIT,
        0 <= y <= UNIT,
{
    let u = UNIT as int;
    let s = a * a + b * b;
    assert(len >= a && len >= b) by (nonlinear_arith)
        requires
            a * a + b * b < (len + 1) * (len + 1),
            0 <= a,
            0 <= b,
            len >= 1,
    ;
    assert(len >= u);
    // x len <= a u < (x + 1) len, and the same of y.
    assert(x * len <= a * u < (x + 1) * len && 0 <= x) by {
        vstd::arithmetic::div_mod::lemma_fundamental_div_mod(a * u, len);
        vstd::arithmetic::div_mod::lemma_mod_bound(a * u, len);
        assert(a * u >= 0) by (nonlinear_arith)
            requires
                a >= 0,
                u >= 0,
        ;
        assert(len * x == x * len && (x + 1) * len == x * len + len) by (nonlinear_arith);
        assert(x >= 0) by (nonlinear_arith)
            requires
                a * u < (x + 1) * len,
                a * u >= 0,
                len >= 1,
        ;
    }
    assert(y * len <= b * u < (y + 1) * len && 0 <= y) by {
        vstd::arithmetic::div_mod::lemma_fundamental_div_mod(b * u, len);
        vstd::arithmetic::div_mod::lemma_mod_bound(b * u, len);
        assert(b * u >= 0) by (nonlinear_arith)
            requires
                b >= 0,
                u >= 0,
        ;
        assert(len * y == y * len && (y + 1) * len == y * len + len) by (nonlinear_arith);
        assert(y >= 0) by (nonlinear_arith)
            requires
                b * u < (y + 1) * len,
                b * u >= 0,
                len >= 1,
        ;
    }
    assert(x <= u) by (nonlinear_arith)
        requires
            x * len <= a * u,
            a <= len,
            len >= 1,
            u >= 0,
    ;
    assert(y <= u) by (nonlinear_arith)
        requires
            y * len <= b * u,
            b <= len,
            len >= 1,
            u >= 0,
    ;
    // From below: ((x + 1)^2 + (y + 1)^2) len^2 > (a^2 + b^2) u^2 >= len^2 u^2.
    let xl = (x + 1) * len;
    let yl = (y + 1) * len;
    assert(xl * xl > (a * u) * (a * u) || a * u == 0) by (nonlinear_arith)
        requires
            xl > a * u,
            a * u >= 0,
    ;
    assert(xl * xl >= (a * u) * (a * u)) by (nonlinear_arith)
        requires
            xl > a * u,
            a * u >= 0,
    ;
    assert(yl * yl >= (b * u) * (b * u)) by (nonlinear_arith)
        requires
            yl > b * u,
            b * u >= 0,
    ;
    assert(xl * xl + yl * yl > (a * u) * (a * u) + (b * u) * (b * u)) by (nonlinear_arith)
        requires
            xl > a * u,
            yl > b * u,
            a * u >= 0,
            b * u >= 0,
    ;
    assert((a * u) * (a * u) + (b * u) * (b * u) == s * (u * u)) by (nonlinear_arith)
        requires
            s == a * a + b * b,
    ;
    assert(xl * xl + yl * yl == ((x + 1) * (x + 1) + (y + 1) * (y + 1)) * (len * len))
        by (nonlinear_arith)
        requires
            xl == (x + 1) * len,
            yl == (y + 1) * len,
    ;
    let over = (x + 1) * (x + 1) + (y + 1) * (y + 1);
    assert(s * (u * u) >= (len * len) * (u * u)) by (nonlinear_arith)
        requires
            s >= len * len,
    ;
    assert(len * len >= 1) by (nonlinear_arith)
        requires
            len >= 1,
    ;
    assert(over > u * u) by (nonlinear_arith)
        requires
            over * (len * len) > (len * len) * (u * u),
            len * len >= 1,
    ;
    assert(over == x * x + y * y + 2 * x + 2 * y + 2) by (nonlinear_arith)
        requires
            over == (x + 1) * (x + 1) + (y + 1) * (y + 1),
    ;
    // From above: (x^2 + y^2) len^2 <= (a^2 + b^2) u^2 < (len + 1)^2 u^2 <= len^2 (u + 1)^2.
    let n = x * x + y * y;
    assert((x * len) * (x * len) <= (a * u) * (a * u)) by (nonlinear_arith)
        requires
            0 <= x * len <= a * u,
    ;
    assert((y * len) * (y * len) <= (b * u) * (b * u)) by (nonlinear_arith)
        requires
            0 <= y * len <= b * u,
    ;
    assert((x * len) * (x * len) + (y * len) * (y * len) == n * (len * len)) by (nonlinear_arith)
        requires
            n == x * x + y * y,
    ;
    assert(s * (u * u) < ((len + 1) * (len + 1)) * (u * u)) by (nonlinear_arith)
        requires
            s < (len + 1) * (len + 1),
            u >= 1,
    ;
    assert(((len + 1) * u) * ((len + 1) * u) <= (len * (u + 1)) * (len * (u + 1)))
        by (nonlinear_arith)
        requires
            0 <= (len + 1) * u <= len * (u + 1),
    ;
    assert(((len + 1) * (len + 1)) * (u * u) == ((len + 1) * u) * ((len + 1) * u)) by (nonlinear_arith);
    assert((len * (u + 1)) * (len * (u + 1)) == ((u + 1) * (u + 1)) * (len * len)) by (nonlinear_arith);
    assert(n < (u + 1) * (u + 1)) by (nonlinear_arith)
        requires
            n * (len * len) < ((u + 1) * (u + 1)) * (len * len),
            len * len >= 1,
    ;
}

/// `cos` and `sin` can be the cosine and sine, in millionths, of an angle of
/// `angle` microradians from nothing to a full turn: their signs are those
/// of the angle's quarter of the turn, and neither is larger than the angle
/// is away from where it vanishes. A sine is never more than its angle, and
/// the same holds of both, counted from the nearest end of each quarter.
pub open spec fn fits_angle(angle: int, cos: int, sin: int) -> bool {
    if angle <= QUARTER_TURN {
        0 <= cos <= QUARTER_TURN + 1 - angle && 0 <= sin <= angle
    } else if angle <= HALF_TURN {
        0 <= -cos <= angle - QUARTER_TURN && 0 <= sin <= HALF_TURN + 1 - angle
    } else if angle <= THREE_QUARTER_TURN {
        0 <= -cos <= THREE_QUARTER_TURN + 1 - angle && 0 <= -sin <= angle - HALF_TURN
    } else {
        0 <= cos <= angle - THREE_QUARTER_TURN && 0 <= -sin <= TWO_PI + 1 - angle
    }
}

fn angle_fits(angle: i32, cos: i32, sin: i32) -> (r: bool)
    requires
        0 <= angle <= TWO_PI,
        -UNIT <= cos <= UNIT,
        -UNIT <= sin <= UNIT,
    ensures
        r == fits_angle(angle as int, cos as int, sin as int),
{
    if angle <= QUARTER_TURN {
        0 <= cos && cos <= QUARTER_TURN + 1 - angle && 0 <= sin && sin <= angle
    } else if angle <= HALF_TURN {
        cos <= 0 && -cos <= angle - QUARTER_TURN && 0 <= sin && sin <= HALF_TURN + 1 - angle
    } else if angle <= THREE_QUARTER_TURN {
        cos <= 0 && -cos <= THREE_QUARTER_TURN + 1 - angle && sin <= 0 && -sin <= angle
            - HALF_TURN
    } else {
        0 <= cos && cos <= angle - THREE_QUARTER_TURN && sin <= 0 && -sin <= TWO_PI + 1 - angle
    }
}

impl Rotation2 {
    /// The rotation is by an angle within one full turn, to the left or to
    /// the right, and its cosine and sine are those of that angle as far as
    /// whole numbers tell:
    ///
    /// - the sum of their squares is one to within four parts in a million,
    ///   as it is of cosines and sines rounded to the nearest millionth or
    ///   towards zero;
    /// - at the angle zero they are one and zero;
    /// - their signs are those of the angle's quarter of the turn, and
    ///   neither is larger than the angle is away from where it vanishes. An
    ///   angle to the right is held to this by its mirror image to the left.
    pub open spec fn wf(self) -> bool {
        &&& -TWO_PI <= self.angle <= TWO_PI
        &&& (Vector2 { x: self.cos, y: self.sin }).is_unit()
        &&& self.angle == 0 ==> self.cos == UNIT && self.sin == 0
        &&& if self.angle >= 0 {
            fits_angle(self.angle as int, self.cos as int, self.sin as int)
        } else {
            fits_angle(-self.angle, self.cos as int, -self.sin)
        }
    }

    /// Neither the cosine nor the sine of a rotation is longer than one.
    pub proof fn lemma_wf_bounds(self)
        requires
            self.wf(),
        ensures
            -UNIT <= self.cos <= UNIT,
            -UNIT <= self.sin <= UNIT,
    {
        (Vector2 { x: self.cos, y: self.sin }).lemma_unit_is_within_unit();
    }

    /// Whether the rotation is by an angle within one full turn, with a
    /// cosine and a sine that can be those of that angle.
    pub fn is_valid(&self) -> (r: bool)
        ensures
            r == self.wf(),
    {
        if self.angle < -TWO_PI || self.angle > TWO_PI {
            return false;
        }
        if !(Vector2 { x: self.cos, y: self.sin }).has_unit_length() {
            return false;
        }
        proof {
            (Vector2 { x: self.cos, y: self.sin }).lemma_unit_is_within_unit();
        }
        if self.angle == 0 {
            self.cos == UNIT && self.sin == 0
        } else if self.angle > 0 {
            angle_fits(self.angle, self.cos, self.sin)
        } else {
            angle_fits(-self.angle, self.cos, -self.sin)
        }
    }

    /// The rotation by `angle` microradians whose cosine and sine are `cos`
    /// and `sin`, or `None` where the angle is more than a full turn or the
    /// two cannot be the cosine and sine of that angle.
    pub fn new(angle: i32, cos: i32, sin: i32) -> (r: Option<Rotation2>)
        ensures
            r == if (Rotation2 { angle, cos, sin }).wf() {
                Some(Rotation2 { angle, cos, sin })
            } else {
                None
            },
    {
        let rot = Rotation2 { angle, cos, sin };
        if rot.is_valid() {
            Some(rot)
        } else {
            None
        }
    }

    /// The rotation that turns nothing.
    pub fn identity() -> (r: Rotation2)
        ensures
            r == (Rotation2 { angle: 0, cos: UNIT, sin: 0 }),
            r.wf(),
    {
        assert(UNIT * UNIT - 4 * UNIT - 2 < UNIT * UNIT + 0 * 0 < (UNIT + 1) * (UNIT + 1))
            by (nonlinear_arith);
        Rotation2 { angle: 0, cos: UNIT, sin: 0 }
    }
}

} // verus!
