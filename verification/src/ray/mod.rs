//! The camera and the rays it casts.

use vstd::prelude::*;
use crate::geometry::{lemma_product_bound, Point2, Rotation2, Vector2};
use crate::objects::{Element, Intersect};
use crate::ray::ray::{
    hit_gap,
    is_nearest,
    lemma_strictly_nearest_is_reported,
    Column,
    Ray,
};
use crate::utils::constants::{PI, TWO_PI, UNIT};
use crate::utils::math::{floor_div, isqrt, sqrt_floor};
use crate::utils::settings::{Settings, MAX_EXTENT};

pub mod ray;

verus! {

/// Why a camera was refused.
#[derive(Clone, Copy, Debug, PartialEq, Eq, Structural)]
pub enum CameraError {
    /// A camera without rays sees nothing.
    NoRays,
    /// The zero vector is no heading.
    NoHeading,
    /// The field of view is nothing, or a full turn or more.
    FieldOfView,
}

/// Why a cast was refused.
#[derive(Clone, Copy, Debug, PartialEq, Eq, Structural)]
pub enum CastError {
    /// The rotations handed in are not those of the camera's fan: there are
    /// more or fewer of them than rays, one is for another angle than its
    /// ray's, or one has a cosine and a sine that are not those of one angle.
    FanMismatch,
}

/// What one ray sees, for the view from above.
#[derive(Clone, Copy, Debug, PartialEq, Eq, Structural)]
pub enum Sight {
    /// The sight line ends on `point`, on the element of that number in the
    /// scene, `distance` away.
    Wall { point: Point2, index: usize, distance: u64 },
    /// The ray hits nothing, and the sight line leaves the camera by `reach`.
    Open { reach: Vector2 },
}

/// The outcome of one ray of the fan: its number from the left, what it
/// sees, and its strip of the projected view.
#[derive(Clone, Copy, Debug, PartialEq, Eq, Structural)]
pub struct Cast {
    pub num: usize,
    pub sight: Sight,
    pub column: Column,
}

/// The eye of the scene: where it stands, where it looks, how wide it sees,
/// in microradians, and into how many rays that width is cut.
#[derive(Clone, Copy, Debug, PartialEq, Eq, Structural)]
pub struct Camera {
    pub position: Point2,
    pub direction: Vector2,
    pub fov: i32,
    pub nb_rays: u32,
}

/// How far the sight line of a ray along `direction` is drawn where the ray
/// hits nothing: ten times the scene's width.
pub open spec fn far_reach(direction: Vector2, s: Settings) -> Vector2 {
    Vector2 {
        x: (direction.x * 10 * s.scene_width / (UNIT as int)) as i32,
        y: (direction.y * 10 * s.scene_width / (UNIT as int)) as i32,
    }
}

fn far_part(part: i32, settings: &Settings) -> (r: i32)
    requires
        settings.wf(),
        -2 * UNIT <= part <= 2 * UNIT,
    ensures
        r == part * 10 * settings.scene_width / (UNIT as int),
{
    let scaled: i64 = (part as i64) * 10;
    assert(-(20 * UNIT * MAX_EXTENT) <= scaled * settings.scene_width <= 20 * UNIT * MAX_EXTENT)
        by (nonlinear_arith)
        requires
            -20 * UNIT <= scaled <= 20 * UNIT,
            1 <= settings.scene_width <= MAX_EXTENT,
    ;
    let product: i64 = scaled * (settings.scene_width as i64);
    let q: i128 = floor_div(product as i128, UNIT as i128);
    assert(-(20 * MAX_EXTENT) <= q <= 20 * MAX_EXTENT) by (nonlinear_arith)
        requires
            q == (product as int) / (UNIT as int),
            -(20 * UNIT * MAX_EXTENT) <= product <= 20 * UNIT * MAX_EXTENT,
    ;
    q as i32
}

impl Camera {
    /// The heading is one long, the field of view is more than nothing and
    /// less than a full turn, and there is at least one ray.
    pub open spec fn wf(self) -> bool {
        &&& self.direction.is_unit()
        &&& 0 < self.fov < TWO_PI
        &&& self.nb_rays >= 1
    }

    /// Whether the camera is one that can cast its rays.
    pub fn is_valid(&self) -> (r: bool)
        ensures
            r == self.wf(),
    {
        self.direction.has_unit_length() && 0 < self.fov && self.fov < TWO_PI && self.nb_rays >= 1
    }

    /// A camera at `(x, y)` that looks along `(dirx, diry)`, scaled to length
    /// one, with a field of view of an eighth of a turn cut into `nb_rays`
    /// rays.
    pub fn new(x: i32, y: i32, dirx: i32, diry: i32, nb_rays: u32) -> (r: Result<
        Camera,
        CameraError,
    >)
        ensures
            r == if nb_rays == 0 {
                Err::<Camera, CameraError>(CameraError::NoRays)
            } else if dirx == 0 && diry == 0 {
                Err(CameraError::NoHeading)
            } else {
                Ok(
                    Camera {
                        position: Point2 { x, y },
                        direction: (Vector2 { x: dirx, y: diry }).spec_normalized(),
                        fov: (PI / 4) as i32,
                        nb_rays,
                    },
                )
            },
            r is Ok ==> r->Ok_0.wf(),
    {
        Camera::with_fov(x, y, dirx, diry, PI / 4, nb_rays)
    }

    /// A camera as `new` makes it, with a field of view of `fov`
    /// microradians, which must be more than nothing and less than a full
    /// turn.
    pub fn with_fov(x: i32, y: i32, dirx: i32, diry: i32, fov: i32, nb_rays: u32) -> (r: Result<
        Camera,
        CameraError,
    >)
        ensures
            r == if nb_rays == 0 {
                Err::<Camera, CameraError>(CameraError::NoRays)
            } else if dirx == 0 && diry == 0 {
                Err(CameraError::NoHeading)
            } else if !(0 < fov < TWO_PI) {
                Err(CameraError::FieldOfView)
            } else {
                Ok(
                    Camera {
                        position: Point2 { x, y },
                        direction: (Vector2 { x: dirx, y: diry }).spec_normalized(),
                        fov,
                        nb_rays,
                    },
                )
            },
            r is Ok ==> r->Ok_0.wf(),
    {
        if nb_rays == 0 {
            return Err(CameraError::NoRays);
        }
        match (Vector2 { x: dirx, y: diry }).normalized() {
            None => Err(CameraError::NoHeading),
            Some(direction) => {
                if fov <= 0 || fov >= TWO_PI {
                    Err(CameraError::FieldOfView)
                } else {
                    Ok(Camera { position: Point2 { x, y }, direction, fov, nb_rays })
                }
            },
        }
    }

    /// The angle between two neighbouring rays: the field of view divided by
    /// the number of rays, and at least one microradian.
    pub open spec fn spec_step(self) -> int {
        if (self.fov as int) / (self.nb_rays as int) == 0 {
            1
        } else {
            (self.fov as int) / (self.nb_rays as int)
        }
    }

    /// The angle of the ray of the given number, relative to the heading:
    /// the first ray at minus half the field of view, each next one a step
    /// further. Half a microradian, where the field of view is odd, is
    /// rounded towards the heading.
    pub open spec fn spec_angle(self, num: int) -> int {
        -(self.fov / 2) + num * self.spec_step()
    }

    /// The number of rays in the fan: as many steps as fit between minus half
    /// the field of view and half the field of view, the upper end left out.
    /// That is the field of view divided by the step, rounded up: at least
    /// one, and possibly more than `nb_rays`.
    pub open spec fn spec_rays(self) -> int {
        (self.fov + self.spec_step() - 1) / self.spec_step()
    }

    fn step(&self) -> (r: i32)
        requires
            self.wf(),
        ensures
            r == self.spec_step(),
            1 <= r <= self.fov,
    {
        // nb_rays fits an i64, and so does the quotient.
        let q: i64 = (self.fov as i64) / (self.nb_rays as i64);
        assert(0 <= q <= self.fov) by (nonlinear_arith)
            requires
                q == (self.fov as int) / (self.nb_rays as int),
                self.fov > 0,
                self.nb_rays >= 1,
        ;
        if q == 0 {
            1
        } else {
            q as i32
        }
    }

    /// The number of rays in the fan, which is never empty.
    pub fn rays(&self) -> (n: usize)
        requires
            self.wf(),
        ensures
            n == self.spec_rays(),
            1 <= n <= self.fov,
    {
        let step: i32 = self.step();
        let n: i32 = (self.fov + (step - 1)) / step;
        assert(1 <= n <= self.fov) by (nonlinear_arith)
            requires
                n == (self.fov + (step - 1)) / (step as int),
                1 <= step <= self.fov,
        ;
        n as usize
    }

    /// The angles of the fan in microradians, from left to right: the value
    /// that the rotation of each ray is to be computed for.
    pub fn angles(&self) -> (v: Vec<i32>)
        requires
            self.wf(),
        ensures
            v.len() == self.spec_rays(),
            v.len() >= 1,
            forall|i: int| 0 <= i < v.len() ==> v[i] == self.spec_angle(i),
    {
        let n: usize = self.rays();
        let step: i32 = self.step();
        let start: i32 = -(self.fov / 2);
        let mut v: Vec<i32> = Vec::new();
        let mut i: usize = 0;
        let mut angle: i64 = start as i64;
        proof {
            self.lemma_fan_is_the_strict_range(0);
        }
        while i < n
            invariant
                self.wf(),
                0 <= i <= n,
                n == self.spec_rays(),
                n <= self.fov,
                step == self.spec_step(),
                angle == self.spec_angle(i as int),
                v.len() == i,
                forall|k: int| 0 <= k < i ==> v[k] == self.spec_angle(k),
            decreases n - i,
        {
            proof {
                self.lemma_fan_is_the_strict_range(i as int);
                assert((i + 1) * step == i * step + step) by (nonlinear_arith);
                assert(0 <= i * step) by (nonlinear_arith)
                    requires
                        0 <= i,
                        1 <= step,
                ;
            }
            v.push(angle as i32);
            angle = angle + (step as i64);
            i += 1;
        }
        v
    }

    /// A ray belongs to the fan exactly when its angle is less than half the
    /// field of view, that is when twice its angle is less than the field of
    /// view: the fan is what a loop from minus half the field of view, in
    /// steps, with a strict bound at half the field of view, walks through.
    pub proof fn lemma_fan_is_the_strict_range(self, num: int)
        requires
            self.wf(),
            0 <= num,
        ensures
            num < self.spec_rays() <==> 2 * self.spec_angle(num) < self.fov,
            self.spec_rays() >= 1,
    {
        let step = self.spec_step();
        let fov = self.fov as int;
        let n = self.spec_rays();
        assert(step >= 1) by (nonlinear_arith)
            requires
                step == self.spec_step(),
                self.fov > 0,
                self.nb_rays >= 1,
                step == 1 || step == (self.fov as int) / (self.nb_rays as int),
                (self.fov as int) / (self.nb_rays as int) >= 0,
        ;
        vstd::arithmetic::div_mod::lemma_fundamental_div_mod(fov + step - 1, step);
        vstd::arithmetic::div_mod::lemma_mod_bound(fov + step - 1, step);
        let r = (fov + step - 1) % step;
        assert(fov + step - 1 == step * n + r);
        assert(n >= 1) by (nonlinear_arith)
            requires
                fov + step - 1 == step * n + r,
                r < step,
                fov >= 1,
                step >= 1,
        ;
        // The ray is in the fan exactly when its steps stay below the field of view.
        let steps = num * step;
        if num < n {
            assert(steps <= (n - 1) * step) by (nonlinear_arith)
                requires
                    steps == num * step,
                    num <= n - 1,
                    step >= 1,
            ;
            assert((n - 1) * step == step * n - step) by (nonlinear_arith);
            assert(steps < fov);
        } else {
            assert(steps >= n * step) by (nonlinear_arith)
                requires
                    steps == num * step,
                    num >= n,
                    step >= 1,
            ;
            assert(n * step == step * n) by (nonlinear_arith);
            assert(steps >= fov);
        }
        assert(fov == 2 * (fov / 2) + fov % 2 && 0 <= fov % 2 < 2) by {
            vstd::arithmetic::div_mod::lemma_fundamental_div_mod(fov, 2);
            vstd::arithmetic::div_mod::lemma_mod_bound(fov, 2);
        }
        assert(2 * self.spec_angle(num) == 2 * steps - 2 * (fov / 2));
    }

    /// The rotations are those of this camera's fan: one for each ray, in
    /// order, each for its ray's angle and with a cosine and a sine whose
    /// squares add up to one.
    pub open spec fn fan_matches(self, rots: Seq<Rotation2>) -> bool {
        &&& rots.len() == self.spec_rays()
        &&& forall|i: int|
            0 <= i < rots.len() ==> (#[trigger] rots[i]).wf() && rots[i].angle == self.spec_angle(
                i,
            )
    }

    /// `c` is the outcome of the ray of number `num`, built with `rot`,
    /// against the scene `elems`.
    pub open spec fn is_cast(
        self,
        c: Cast,
        elems: Seq<Element>,
        rot: Rotation2,
        num: int,
        fish: bool,
        s: Settings,
    ) -> bool {
        let origin = self.position;
        let direction = self.direction.spec_rotated(rot);
        let width = ((s.scene_width as int) / (self.nb_rays as int)) as i32;
        &&& c.num == num
        &&& match c.sight {
            Sight::Wall { point, index, distance } => {
                &&& is_nearest(elems, origin, direction, Some(index as int))
                &&& elems[index as int].meets(origin, direction) == Some(point)
                &&& distance == sqrt_floor(point.gap_sq(&origin) as nat)
                &&& c.column == (Ray {
                    depart: origin,
                    direction,
                    min: Some((point, &elems[index as int])),
                    angle: rot,
                }).spec_column(num as u32, width, fish, s)
            },
            Sight::Open { reach } => {
                &&& is_nearest(elems, origin, direction, None)
                &&& reach == far_reach(direction, s)
                &&& c.column == (Ray {
                    depart: origin,
                    direction,
                    min: None,
                    angle: rot,
                }).spec_column(num as u32, width, fish, s)
            },
        }
    }

    /// Of two walls that a ray hits at different distances, the cast reports
    /// the point and the strip, and so the colour, of the nearer one,
    /// whichever of the two was put into the scene first.
    pub proof fn lemma_cast_ignores_order(
        self,
        a: Element,
        b: Element,
        rot: Rotation2,
        num: int,
        fish: bool,
        s: Settings,
        forth: Cast,
        back: Cast,
    )
        requires
            a.meets(self.position, self.direction.spec_rotated(rot)) is Some,
            b.meets(self.position, self.direction.spec_rotated(rot)) is Some,
            hit_gap(a, self.position, self.direction.spec_rotated(rot)) < hit_gap(
                b,
                self.position,
                self.direction.spec_rotated(rot),
            ),
            self.is_cast(forth, seq![a, b], rot, num, fish, s),
            self.is_cast(back, seq![b, a], rot, num, fish, s),
        ensures
            forth.sight matches Sight::Wall { point, index, distance } && index == 0 && Some(point)
                == a.meets(self.position, self.direction.spec_rotated(rot)),
            back.sight matches Sight::Wall { point, index, distance } && index == 1 && Some(point)
                == a.meets(self.position, self.direction.spec_rotated(rot)),
            forth.column == back.column,
            forth.column.color.r == a.tint().r,
            forth.column.color.g == a.tint().g,
            forth.column.color.b == a.tint().b,
    {
        let origin = self.position;
        let direction = self.direction.spec_rotated(rot);
        let ab = seq![a, b];
        let ba = seq![b, a];
        let seen_forth: Option<int> = match forth.sight {
            Sight::Wall { point, index, distance } => Some(index as int),
            Sight::Open { reach } => None,
        };
        let seen_back: Option<int> = match back.sight {
            Sight::Wall { point, index, distance } => Some(index as int),
            Sight::Open { reach } => None,
        };
        lemma_strictly_nearest_is_reported(ab, origin, direction, seen_forth, 0);
        lemma_strictly_nearest_is_reported(ba, origin, direction, seen_back, 1);
        assert(ab[0] == a && ba[1] == a);
    }

    /// Casts the fan of rays against the scene, from left to right.
    ///
    /// `rots` holds the rotation of each ray relative to the heading, for the
    /// angles that `angles` gives. Each ray is tested against every element;
    /// the nearest hit ahead of the camera gives the end of the sight line and
    /// the height and colour of the ray's strip.
    pub fn cast_rays(
        &self,
        elem: &Vec<Element>,
        rots: &Vec<Rotation2>,
        fish: bool,
        settings: &Settings,
    ) -> (r: Result<Vec<Cast>, CastError>)
        requires
            self.wf(),
            settings.wf(),
        ensures
            r is Ok <==> self.fan_matches(rots@),
            r matches Ok(casts) ==> {
                &&& casts.len() == rots.len()
                &&& casts.len() == self.spec_rays()
                &&& casts.len() >= 1
                &&& forall|i: int|
                    0 <= i < casts.len() ==> self.is_cast(
                        #[trigger] casts[i],
                        elem@,
                        rots[i],
                        i,
                        fish,
                        *settings,
                    )
            },
    {
        let n: usize = self.rays();
        if rots.len() != n {
            return Err(CastError::FanMismatch);
        }
        let step: i32 = self.step();
        let start: i32 = -(self.fov / 2);
        let mut casts: Vec<Cast> = Vec::new();
        let mut i: usize = 0;
        let mut angle: i64 = start as i64;
        while i < n
            invariant
                self.wf(),
                settings.wf(),
                0 <= i <= n,
                n == self.spec_rays(),
                n == rots.len(),
                n <= self.fov,
                step == self.spec_step(),
                angle == self.spec_angle(i as int),
                casts.len() == i,
                forall|k: int|
                    0 <= k < i ==> (#[trigger] rots[k]).wf() && rots[k].angle == self.spec_angle(k),
                forall|k: int|
                    0 <= k < i ==> self.is_cast(
                        #[trigger] casts[k],
                        elem@,
                        rots[k],
                        k,
                        fish,
                        *settings,
                    ),
            decreases n - i,
        {
            proof {
                self.lemma_fan_is_the_strict_range(i as int);
                assert((i + 1) * step == i * step + step) by (nonlinear_arith);
                assert(0 <= i * step) by (nonlinear_arith)
                    requires
                        0 <= i,
                        1 <= step,
                ;
            }
            let rot: Rotation2 = rots[i];
            if !rot.is_valid() || (rot.angle as i64) != angle {
                assert(!(rots[i as int].wf() && rots[i as int].angle == self.spec_angle(i as int)));
                return Err(CastError::FanMismatch);
            }
            casts.push(self.cast_ray(elem, &rot, i as u32, fish, settings));
            angle = angle + (step as i64);
            i += 1;
        }
        Ok(casts)
    }

    /// Casts one ray of the fan, the `num`-th from the left, built with the
    /// rotation `rot`: the rays do not depend on each other and can be cast
    /// in any order, or only in part.
    pub fn cast_ray(
        &self,
        elem: &Vec<Element>,
        rot: &Rotation2,
        num: u32,
        fish: bool,
        settings: &Settings,
    ) -> (c: Cast)
        requires
            self.wf(),
            settings.wf(),
            rot.wf(),
        ensures
            self.is_cast(c, elem@, *rot, num as int, fish, *settings),
    {
        proof {
            self.direction.lemma_unit_is_within_unit();
        }
        let width: i32 = ((settings.scene_width as u32) / self.nb_rays) as i32;
        let mut ray = Ray::new(self.position, self.direction, *rot).unwrap();
        let sight = match ray.nearest(elem) {
            Some((point, index)) => {
                ray.min = Some((point, &elem[index]));
                Sight::Wall { point, index, distance: isqrt(point.dist_sq(&ray.depart)) }
            },
            None => Sight::Open {
                reach: Vector2 {
                    x: far_part(ray.direction.x, settings),
                    y: far_part(ray.direction.y, settings),
                },
            },
        };
        let column = ray.render_3d(num, width, fish, settings);
        Cast { num: num as usize, sight, column }
    }
}

/// Squared distances, which order points as distances do and need no root.
pub trait Dist {
    /// The squared distance between the two.
    spec fn gap_sq(&self, other: &Self) -> int;

    fn dist_sq(&self, other: &Self) -> (d: u128)
        ensures
            d == self.gap_sq(other),
    ;
}

impl Dist for Point2 {
    open spec fn gap_sq(&self, other: &Self) -> int {
        (self.x - other.x) * (self.x - other.x) + (self.y - other.y) * (self.y - other.y)
    }

    fn dist_sq(&self, other: &Self) -> (d: u128) {
        let dx: i128 = (self.x as i128) - (other.x as i128);
        let dy: i128 = (self.y as i128) - (other.y as i128);
        proof {
            lemma_product_bound(dx as int, dx as int, 0x1_0000_0000, 0x1_0000_0000);
            lemma_product_bound(dy as int, dy as int, 0x1_0000_0000, 0x1_0000_0000);
            assert(dx * dx >= 0 && dy * dy >= 0) by (nonlinear_arith);
        }
        (dx * dx + dy * dy) as u128
    }
}

/// Two points of the grid are at most twice the grid's width apart on each
/// axis.
pub proof fn lemma_gap_sq_bound(p: Point2, q: Point2)
    ensures
        0 <= p.gap_sq(&q) <= 0x2_0000_0000_0000_0000,
{
    let dx = p.x - q.x;
    let dy = p.y - q.y;
    lemma_product_bound(dx, dx, 0x1_0000_0000, 0x1_0000_0000);
    lemma_product_bound(dy, dy, 0x1_0000_0000, 0x1_0000_0000);
    assert(dx * dx >= 0 && dy * dy >= 0) by (nonlinear_arith);
}

} // verus!
