//! A single ray and what it has hit so far.

use vstd::prelude::*;
use crate::geometry::{dot, lemma_product_bound, on_grid, Point2, Rotation2, Vector2};
use crate::objects::line::Color;
use crate::objects::{Element, Intersect};
use crate::ray::{lemma_gap_sq_bound, Dist};
use crate::utils::constants::UNIT;
use crate::utils::math::{isqrt, sqrt_floor};
use crate::utils::settings::{Settings, MAX_EXTENT};

verus! {

/// A half-line from `depart` along `direction`, with the nearest hit found so
/// far and the rotation, relative to the camera's heading, that it was built
/// with.
pub struct Ray<'a> {
    pub depart: Point2,
    pub direction: Vector2,
    pub min: Option<(Point2, &'a Element)>,
    pub angle: Rotation2,
}

/// One vertical strip of the projected view: its left edge, its top, its
/// width and height, and its colour.
#[derive(Clone, Copy, Debug, PartialEq, Eq, Structural)]
pub struct Column {
    pub x: i64,
    pub y: i32,
    pub width: i32,
    pub height: i32,
    pub color: Color,
}

/// The height of the column of a wall that was hit at the squared distance
/// `gap_sq` by a ray whose rotation has the cosine `cos`.
///
/// The distance is the root of `gap_sq`, rounded down; unless `fish` is set
/// it is multiplied by the cosine, which takes the bulge out of flat walls.
/// The height is the scene's diagonal times `min_height`, divided by that
/// distance, and at most the scene's height; at distance zero it is the
/// scene's height.
pub open spec fn projected_height(gap_sq: int, cos: int, fish: bool, s: Settings) -> int {
    let straight = sqrt_floor(gap_sq as nat) as int;
    let d = if fish {
        straight
    } else if cos >= 0 {
        straight * cos / (UNIT as int)
    } else {
        straight * (-cos) / (UNIT as int)
    };
    if d == 0 {
        s.scene_height as int
    } else if s.spec_diagonal() * s.min_height / d > s.scene_height {
        s.scene_height as int
    } else {
        s.spec_diagonal() * s.min_height / d
    }
}

/// Whatever the distance, the angle and the mode, a projected height is
/// never negative and never more than the scene's height.
pub proof fn lemma_projected_height_bounds(gap_sq: int, cos: int, fish: bool, s: Settings)
    requires
        s.wf(),
    ensures
        0 <= projected_height(gap_sq, cos, fish, s) <= s.scene_height,
{
    let straight = sqrt_floor(gap_sq as nat) as int;
    let d = if fish {
        straight
    } else if cos >= 0 {
        straight * cos / (UNIT as int)
    } else {
        straight * (-cos) / (UNIT as int)
    };
    let scaled = s.spec_diagonal() * s.min_height;
    assert(scaled >= 0) by (nonlinear_arith)
        requires
            scaled == s.spec_diagonal() * s.min_height,
            s.spec_diagonal() >= 0,
            s.min_height >= 0,
    ;
    if d != 0 {
        if !fish {
            let turned = if cos >= 0 {
                straight * cos
            } else {
                straight * (-cos)
            };
            assert(turned >= 0) by (nonlinear_arith)
                requires
                    straight >= 0,
                    turned == straight * cos && cos >= 0 || turned == straight * (-cos) && cos
                        < 0,
            ;
            assert(d >= 0) by (nonlinear_arith)
                requires
                    d == turned / (UNIT as int),
                    turned >= 0,
            ;
        }
        assert(scaled / d >= 0) by (nonlinear_arith)
            requires
                scaled >= 0,
                d > 0,
        ;
    }
}

/// How opaque a column of the given height is drawn, from 0 to 255: the
/// square of the height over the square of the scene's height.
pub open spec fn shade(height: int, s: Settings) -> int {
    height * height * 255 / (s.scene_height * s.scene_height)
}

/// `(x, y)` lies strictly ahead of `origin` along `direction`.
pub open spec fn ahead(origin: Point2, direction: Vector2, x: int, y: int) -> bool {
    dot(x - origin.x, y - origin.y, direction.x as int, direction.y as int) > 0
}

/// The squared distance from `origin` to the point where the ray from
/// `origin` along `direction` hits `e`. Meaningful where it hits.
pub open spec fn hit_gap(e: Element, origin: Point2, direction: Vector2) -> int {
    e.meets(origin, direction)->Some_0.gap_sq(&origin)
}

/// `best` is what the ray from `origin` along `direction` reports of `elems`:
/// nothing where it hits none of them, else the number of the element that it
/// hits nearest to `origin`, the first of those where several are as near.
pub open spec fn is_nearest(
    elems: Seq<Element>,
    origin: Point2,
    direction: Vector2,
    best: Option<int>,
) -> bool {
    match best {
        None => forall|j: int|
            0 <= j < elems.len() ==> (#[trigger] elems[j]).meets(origin, direction) is None,
        Some(i) => {
            &&& 0 <= i < elems.len()
            &&& elems[i].meets(origin, direction) is Some
            &&& forall|j: int|
                0 <= j < elems.len() && (#[trigger] elems[j]).meets(origin, direction) is Some
                    ==> hit_gap(elems[i], origin, direction) <= hit_gap(
                    elems[j],
                    origin,
                    direction,
                )
            &&& forall|j: int|
                0 <= j < i && (#[trigger] elems[j]).meets(origin, direction) is Some ==> hit_gap(
                    elems[i],
                    origin,
                    direction,
                ) < hit_gap(elems[j], origin, direction)
        },
    }
}

/// A ray reports one thing of a scene and no other.
pub proof fn lemma_nearest_is_unique(
    elems: Seq<Element>,
    origin: Point2,
    direction: Vector2,
    first: Option<int>,
    second: Option<int>,
)
    requires
        is_nearest(elems, origin, direction, first),
        is_nearest(elems, origin, direction, second),
    ensures
        first == second,
{
    match (first, second) {
        (Some(i), Some(j)) => {
            assert(elems[i].meets(origin, direction) is Some);
            assert(elems[j].meets(origin, direction) is Some);
            if i < j {
                assert(hit_gap(elems[j], origin, direction) < hit_gap(elems[i], origin, direction));
            } else if j < i {
                assert(hit_gap(elems[i], origin, direction) < hit_gap(elems[j], origin, direction));
            }
        },
        (Some(i), None) => {
            assert(elems[i].meets(origin, direction) is Some);
        },
        (None, Some(j)) => {
            assert(elems[j].meets(origin, direction) is Some);
        },
        (None, None) => {},
    }
}

/// Wherever it stands in the scene, an element that the ray hits nearer than
/// every other element it hits is the one reported.
pub proof fn lemma_strictly_nearest_is_reported(
    elems: Seq<Element>,
    origin: Point2,
    direction: Vector2,
    best: Option<int>,
    i: int,
)
    requires
        is_nearest(elems, origin, direction, best),
        0 <= i < elems.len(),
        elems[i].meets(origin, direction) is Some,
        forall|j: int|
            0 <= j < elems.len() && j != i && (#[trigger] elems[j]).meets(origin, direction)
                is Some ==> hit_gap(elems[i], origin, direction) < hit_gap(
                elems[j],
                origin,
                direction,
            ),
    ensures
        best == Some(i),
{
    match best {
        Some(k) => {
            assert(elems[k].meets(origin, direction) is Some);
            assert(elems[i].meets(origin, direction) is Some);
            if k != i {
                assert(hit_gap(elems[i], origin, direction) < hit_gap(elems[k], origin, direction));
                assert(hit_gap(elems[k], origin, direction) <= hit_gap(elems[i], origin, direction));
            }
        },
        None => {
            assert(elems[i].meets(origin, direction) is Some);
        },
    }
}

/// Of two walls that a ray hits at different distances, it reports the
/// nearer one, whichever of them was put into the scene first.
pub proof fn lemma_order_of_two_walls(
    a: Element,
    b: Element,
    origin: Point2,
    direction: Vector2,
    forth: Option<int>,
    back: Option<int>,
)
    requires
        a.meets(origin, direction) is Some,
        b.meets(origin, direction) is Some,
        hit_gap(a, origin, direction) < hit_gap(b, origin, direction),
        is_nearest(seq![a, b], origin, direction, forth),
        is_nearest(seq![b, a], origin, direction, back),
    ensures
        forth == Some(0int),
        back == Some(1int),
{
    lemma_strictly_nearest_is_reported(seq![a, b], origin, direction, forth, 0);
    lemma_strictly_nearest_is_reported(seq![b, a], origin, direction, back, 1);
}

impl<'a> Ray<'a> {
    /// Tests the ray against every element in turn and keeps the nearest hit,
    /// with the number of the element that it lies on. Where two hits are
    /// equally near, the earlier element stays.
    pub fn nearest(&self, elems: &Vec<Element>) -> (best: Option<(Point2, usize)>)
        ensures
            is_nearest(
                elems@,
                self.depart,
                self.direction,
                match best {
                    Some((_, i)) => Some(i as int),
                    None => None,
                },
            ),
            best matches Some((pt, i)) ==> elems[i as int].meets(self.depart, self.direction)
                == Some(pt),
    {
        let mut best: Option<(Point2, usize)> = None;
        let mut k: usize = 0;
        while k < elems.len()
            invariant
                0 <= k <= elems.len(),
                is_nearest(
                    elems@.take(k as int),
                    self.depart,
                    self.direction,
                    match best {
                        Some((_, i)) => Some(i as int),
                        None => None,
                    },
                ),
                best matches Some((pt, i)) ==> i < k && elems[i as int].meets(
                    self.depart,
                    self.direction,
                ) == Some(pt),
            decreases elems.len() - k,
        {
            let ghost before = elems@.take(k as int);
            let ghost after = elems@.take(k + 1);
            assert(forall|j: int| 0 <= j < k ==> before[j] == after[j]);
            assert(after[k as int] == elems[k as int]);
            match elems[k].intersect(self) {
                Some(point) => {
                    match best {
                        Some((point2, _)) => {
                            if point.dist_sq(&self.depart) < point2.dist_sq(&self.depart) {
                                best = Some((point, k));
                            }
                        },
                        None => {
                            best = Some((point, k));
                        },
                    }
                },
                None => {},
            }
            k += 1;
        }
        assert(elems@.take(k as int) == elems@);
        best
    }

    /// The height of the ray's column: zero where nothing was hit, else the
    /// projected height of the hit.
    pub open spec fn spec_height(self, fish: bool, s: Settings) -> int {
        match self.min {
            Some((pt, _)) => projected_height(
                pt.gap_sq(&self.depart),
                self.angle.cos as int,
                fish,
                s,
            ),
            None => 0,
        }
    }

    /// The height of the column that this ray is drawn as. It is never
    /// negative and never more than the scene's height.
    pub fn height(&self, fish: bool, settings: &Settings) -> (h: i32)
        requires
            settings.wf(),
            self.angle.wf(),
        ensures
            h == self.spec_height(fish, *settings),
            0 <= h <= settings.scene_height,
    {
        match self.min {
            Some((pt, _)) => {
                let straight: u64 = isqrt(pt.dist_sq(&self.depart));
                proof {
                    lemma_gap_sq_bound(pt, self.depart);
                }
                assert(straight <= 0x2_0000_0000) by (nonlinear_arith)
                    requires
                        straight * straight <= pt.gap_sq(&self.depart),
                        pt.gap_sq(&self.depart) <= 0x2_0000_0000_0000_0000,
                ;
                proof {
                    self.angle.lemma_wf_bounds();
                }
                let cos: u64 = if self.angle.cos >= 0 {
                    self.angle.cos as u64
                } else {
                    (-self.angle.cos) as u64
                };
                let d: u64 = if fish {
                    straight
                } else {
                    assert(straight * cos <= 0x2_0000_0000 * UNIT) by (nonlinear_arith)
                        requires
                            straight <= 0x2_0000_0000,
                            cos <= UNIT,
                    ;
                    straight * cos / (UNIT as u64)
                };
                if d == 0 {
                    settings.scene_height
                } else {
                    let diagonal: u64 = settings.diagonal() as u64;
                    assert(diagonal * settings.min_height <= 2 * MAX_EXTENT * MAX_EXTENT)
                        by (nonlinear_arith)
                        requires
                            diagonal <= 2 * MAX_EXTENT,
                            0 <= settings.min_height <= MAX_EXTENT,
                    ;
                    let h: u64 = diagonal * (settings.min_height as u64) / d;
                    if h > settings.scene_height as u64 {
                        settings.scene_height
                    } else {
                        h as i32
                    }
                }
            },
            None => 0,
        }
    }

    /// The strip that `render_3d` gives for this ray.
    pub open spec fn spec_column(self, num: u32, width: i32, fish: bool, s: Settings) -> Column {
        let height = self.spec_height(fish, s);
        Column {
            x: (s.scene_width + width * num) as i64,
            y: ((s.scene_height - height) / 2) as i32,
            width,
            height: height as i32,
            color: match self.min {
                Some((_, cible)) => Color {
                    r: cible.tint().r,
                    g: cible.tint().g,
                    b: cible.tint().b,
                    a: shade(height, s) as u8,
                },
                None => Color { r: 255, g: 255, b: 255, a: 255 },
            },
        }
    }

    /// The strip of the projected view for this ray, the `num`-th from the
    /// left, each strip `width` wide. The view begins where the scene ends,
    /// at `x = scene_width`; the strip is centred vertically; it has the
    /// colour of the element that was hit, the more opaque the taller it is,
    /// and is a white strip of no height where nothing was hit.
    pub fn render_3d(&self, num: u32, width: i32, fish: bool, settings: &Settings) -> (c: Column)
        requires
            settings.wf(),
            self.angle.wf(),
        ensures
            c == self.spec_column(num, width, fish, *settings),
            c.x == settings.scene_width + width * num,
            c.y == (settings.scene_height - c.height) / 2,
            0 <= c.height <= settings.scene_height,
            self.min matches Some((_, cible)) ==> c.color.a == shade(c.height as int, *settings),
    {
        proof {
            lemma_product_bound(width as int, num as int, 0x8000_0000, 0xffff_ffff);
        }
        let x: i64 = (settings.scene_width as i64) + (width as i64) * (num as i64);
        let height: i32 = self.height(fish, settings);
        let y: i32 = (settings.scene_height - height) / 2;
        let color = match self.min {
            Some((_, cible)) => {
                let base = cible.color();
                assert(0 <= height * height <= settings.scene_height * settings.scene_height
                    && 1 <= settings.scene_height * settings.scene_height <= MAX_EXTENT
                    * MAX_EXTENT) by (nonlinear_arith)
                    requires
                        0 <= height <= settings.scene_height,
                        1 <= settings.scene_height <= MAX_EXTENT,
                ;
                let hh: i64 = (height as i64) * (height as i64);
                let full: i64 = (settings.scene_height as i64) * (settings.scene_height as i64);
                let a: i64 = hh * 255 / full;
                assert(0 <= a <= 255) by (nonlinear_arith)
                    requires
                        a == hh * 255 / (full as int),
                        0 <= hh <= full,
                        1 <= full,
                ;
                Color { r: base.r, g: base.g, b: base.b, a: a as u8 }
            },
            None => Color { r: 255, g: 255, b: 255, a: 255 },
        };
        Column { x, y, width, height, color }
    }

    /// The ray from `depart` whose direction is `direction` turned by
    /// `angle`, with no hit yet: `None` where the turned direction does not
    /// fit the grid, which cannot happen to a direction whose components are
    /// less than half the width of the grid when `angle` is a rotation.
    pub fn new(depart: Point2, direction: Vector2, angle: Rotation2) -> (r: Option<Ray<'a>>)
        ensures
            r is Some <==> on_grid(direction.turned_x(angle)) && on_grid(
                direction.turned_y(angle),
            ),
            r matches Some(ray) ==> {
                &&& ray.depart == depart
                &&& ray.direction == direction.spec_rotated(angle)
                &&& ray.direction.x == direction.turned_x(angle)
                &&& ray.direction.y == direction.turned_y(angle)
                &&& ray.min is None
                &&& ray.angle == angle
            },
            angle.wf() && -0x3fff_ffff <= direction.x <= 0x3fff_ffff && -0x3fff_ffff
                <= direction.y <= 0x3fff_ffff ==> r is Some,
            angle.wf() && direction.within_unit() ==> -2 * UNIT <= direction.turned_x(angle) <= 2
                * UNIT && -2 * UNIT <= direction.turned_y(angle) <= 2 * UNIT,
    {
        match direction.rotated(&angle) {
            Some(direction) => Some(Ray { depart, direction, min: None, angle }),
            None => None,
        }
    }

    /// Keeps `pt` if it lies in the forward half of the ray's line, that is
    /// if `dot(pt - depart, direction) > 0`.
    pub fn verify(&self, pt: Point2) -> (r: Option<Point2>)
        ensures
            r == if ahead(self.depart, self.direction, pt.x as int, pt.y as int) {
                Some(pt)
            } else {
                None
            },
    {
        let dx: i128 = (pt.x as i128) - (self.depart.x as i128);
        let dy: i128 = (pt.y as i128) - (self.depart.y as i128);
        proof {
            lemma_product_bound(dx as int, self.direction.x as int, 0x1_0000_0000, 0x8000_0000);
            lemma_product_bound(dy as int, self.direction.y as int, 0x1_0000_0000, 0x8000_0000);
        }
        let x: i128 = dx * (self.direction.x as i128) + dy * (self.direction.y as i128);
        if x > 0 {
            Some(pt)
        } else {
            None
        }
    }
}

} // verus!
