//! A ray-casting engine on an integer grid, and the game that is played in
//! it.
//!
//! A camera stands among walls, casts a fan of rays, finds for each ray the
//! nearest wall ahead, and turns the distance into one strip of a view in
//! perspective. Coordinates are whole scene units, unit vectors and rotations
//! are fixed-point numbers scaled by [`utils::constants::UNIT`], angles are
//! whole microradians and times whole milliseconds. Cosines and sines come
//! from the caller, as [`geometry::Rotation2`] values; everything else is
//! computed here, and every contract gives the exact result.
//!
//! Beside the engine the crate holds three smaller things, each in a module
//! of its own: the game of the snake ([`snake_game`]), a store of keys and
//! values ([`kvs`]) and a search for the lines of a text ([`grep`]).

use vstd::prelude::*;
use crate::geometry::{Point2, Rotation2, Vector2};
use crate::objects::line::{is_fraction, scaled, Color, Line, LineError};
use crate::objects::Element;
use crate::ray::{Camera, CameraError};
use crate::utils::constants::{FOV_MARGIN, PI, TURN_SPEED, TWO_PI, UNIT, ZOOM_SPEED};
use crate::utils::math::floor_div;
use crate::utils::settings::{Settings, MAX_EXTENT};

pub mod utils;
pub mod geometry;
pub mod grep;
pub mod kvs;
pub mod objects;
pub mod ray;
pub mod snake_game;

verus! {

/// The keys that the game listens to.
#[derive(Clone, Copy, Debug, PartialEq, Eq, Structural)]
pub enum Keycode {
    Up,
    Down,
    Left,
    Right,
    /// Step to the left.
    Q,
    /// Step to the right.
    D,
    /// Walk forward.
    Z,
    /// Walk backward.
    S,
    /// Leave the game.
    Escape,
    /// Switch the fisheye view on or off.
    Return,
    /// Any other key.
    Other,
}

/// Why a game could not be set up.
#[derive(Clone, Copy, Debug, PartialEq, Eq, Structural)]
pub enum SetupError {
    Camera(CameraError),
    Wall(LineError),
}

/// The state of the game: the camera, the walls, which keys are held, and the
/// length of the last frame in milliseconds.
pub struct GameState {
    pub camera: Camera,
    pub elems: Vec<Element>,
    pub q_key: bool,
    pub d_key: bool,
    pub z_key: bool,
    pub s_key: bool,
    pub quit: bool,
    pub fish: bool,
    pub dt: u32,
    pub settings: Settings,
}

/// `v`, or the nearer end of `lo ..= hi` where it lies outside.
pub open spec fn clamped(v: int, lo: int, hi: int) -> int {
    if v < lo {
        lo
    } else if v > hi {
        hi
    } else {
        v
    }
}

/// A field of view put back into the open range from nothing to a full turn.
pub open spec fn clamped_fov(fov: int) -> int {
    if fov <= 0 {
        FOV_MARGIN as int
    } else if fov >= TWO_PI {
        TWO_PI - FOV_MARGIN
    } else {
        fov
    }
}

/// How far a camera travels along one axis in `dt` milliseconds, where
/// `part` is its heading's component on that axis and `speed` its speed in
/// scene units per second, rounded down.
pub open spec fn stride(part: int, speed: int, dt: int) -> int {
    part * speed * dt / (UNIT as int * 1000)
}

fn clamp_fov(fov: i128) -> (r: i32)
    ensures
        r == clamped_fov(fov as int),
        0 < r < TWO_PI,
{
    if fov <= 0 {
        FOV_MARGIN
    } else if fov >= TWO_PI as i128 {
        TWO_PI - FOV_MARGIN
    } else {
        fov as i32
    }
}

fn clamp_axis(v: i128, lo: i32, hi: i32) -> (r: i32)
    requires
        lo <= hi,
    ensures
        r == clamped(v as int, lo as int, hi as int),
        lo <= r <= hi,
{
    if v < lo as i128 {
        lo
    } else if v > hi as i128 {
        hi
    } else {
        v as i32
    }
}

/// White, green and blue, the colours of the first level.
pub open spec fn white() -> Color {
    Color { r: 255, g: 255, b: 255, a: 255 }
}

pub open spec fn green() -> Color {
    Color { r: 0, g: 255, b: 0, a: 255 }
}

pub open spec fn blue() -> Color {
    Color { r: 0, g: 0, b: 255, a: 255 }
}

/// The walls of the first level in a scene of the given size: the four
/// borders, in white, and two slanted walls, one green and one blue.
pub open spec fn first_level(s: Settings) -> Seq<Element> {
    seq![
        Element::Wall(Line::placed(0, UNIT as int, UNIT as int, UNIT as int, white(), s)),
        Element::Wall(Line::placed(UNIT as int, 0, UNIT as int, UNIT as int, white(), s)),
        Element::Wall(Line::placed(0, 0, 0, UNIT as int, white(), s)),
        Element::Wall(Line::placed(0, 0, UNIT as int, 0, white(), s)),
        Element::Wall(Line::placed(400_000, 200_000, 200_000, 400_000, green(), s)),
        Element::Wall(Line::placed(200_000, 400_000, 100_000, 200_000, blue(), s)),
    ]
}

/// The scene is large enough for the two slanted walls of the first level:
/// neither shrinks to a point.
pub open spec fn first_level_fits(s: Settings) -> bool {
    let w = s.scene_width as int;
    let h = s.scene_height as int;
    &&& !(scaled(400_000, w) == scaled(200_000, w) && scaled(200_000, h) == scaled(400_000, h))
    &&& !(scaled(200_000, w) == scaled(100_000, w) && scaled(400_000, h) == scaled(200_000, h))
}

fn wall(x1: i32, y1: i32, x2: i32, y2: i32, color: Color, settings: &Settings) -> (r: Result<
    Element,
    SetupError,
>)
    requires
        settings.wf(),
        is_fraction(x1 as int),
        is_fraction(y1 as int),
        is_fraction(x2 as int),
        is_fraction(y2 as int),
    ensures
        r == if scaled(x1 as int, settings.scene_width as int) == scaled(
            x2 as int,
            settings.scene_width as int,
        ) && scaled(y1 as int, settings.scene_height as int) == scaled(
            y2 as int,
            settings.scene_height as int,
        ) {
            Err::<Element, SetupError>(SetupError::Wall(LineError::ZeroLength))
        } else {
            Ok(
                Element::Wall(
                    Line::placed(x1 as int, y1 as int, x2 as int, y2 as int, color, *settings),
                ),
            )
        },
        r is Ok ==> r->Ok_0.wf(),
{
    match Line::new(x1, y1, x2, y2, color, settings) {
        Ok(line) => Ok(Element::Wall(line)),
        Err(e) => Err(SetupError::Wall(e)),
    }
}

impl GameState {
    /// A new game in a scene of the given size: the camera stands at half
    /// the width on both axes and looks along the x axis with `nb_rays`
    /// rays, the walls are those of the first level, and no key is held.
    pub fn new(settings: Settings, nb_rays: u32) -> (r: Result<GameState, SetupError>)
        requires
            settings.wf(),
        ensures
            match r {
                Ok(state) => {
                    &&& nb_rays >= 1
                    &&& first_level_fits(settings)
                    &&& state.wf()
                    &&& state.camera.wf()
                    &&& state.settings == settings
                    &&& state.camera.position == (Point2 {
                        x: (settings.scene_width / 2) as i32,
                        y: (settings.scene_width / 2) as i32,
                    })
                    &&& state.camera.direction == (Vector2 { x: 1, y: 0 }).spec_normalized()
                    &&& state.camera.fov == PI / 4
                    &&& state.camera.nb_rays == nb_rays
                    &&& state.elems@ == first_level(settings)
                    &&& forall|i: int|
                        0 <= i < state.elems.len() ==> (#[trigger] state.elems[i]).wf()
                    &&& !state.q_key && !state.d_key && !state.z_key && !state.s_key
                    &&& !state.quit && !state.fish
                    &&& state.dt == 0
                },
                Err(e) => e == if nb_rays == 0 {
                    SetupError::Camera(CameraError::NoRays)
                } else {
                    SetupError::Wall(LineError::ZeroLength)
                } && (nb_rays == 0 || !first_level_fits(settings)),
            },
    {
        let half: i32 = settings.scene_width / 2;
        let camera = match Camera::new(half, half, 1, 0, nb_rays) {
            Ok(camera) => camera,
            Err(e) => {
                return Err(SetupError::Camera(e));
            },
        };
        let white = Color { r: 255, g: 255, b: 255, a: 255 };
        let green = Color { r: 0, g: 255, b: 0, a: 255 };
        let blue = Color { r: 0, g: 0, b: 255, a: 255 };
        proof {
            let w = settings.scene_width as int;
            let h = settings.scene_height as int;
            assert(scaled(0, w) == 0 && scaled(0, h) == 0);
            vstd::arithmetic::div_mod::lemma_div_multiples_vanish(w, UNIT as int);
            vstd::arithmetic::div_mod::lemma_div_multiples_vanish(h, UNIT as int);
            assert(scaled(UNIT as int, w) == w && scaled(UNIT as int, h) == h);
        }
        let mut elems: Vec<Element> = Vec::new();
        match wall(0, UNIT, UNIT, UNIT, white, &settings) {
            Ok(e) => elems.push(e),
            Err(e) => {
                return Err(e);
            },
        }
        match wall(UNIT, 0, UNIT, UNIT, white, &settings) {
            Ok(e) => elems.push(e),
            Err(e) => {
                return Err(e);
            },
        }
        match wall(0, 0, 0, UNIT, white, &settings) {
            Ok(e) => elems.push(e),
            Err(e) => {
                return Err(e);
            },
        }
        match wall(0, 0, UNIT, 0, white, &settings) {
            Ok(e) => elems.push(e),
            Err(e) => {
                return Err(e);
            },
        }
        match wall(400_000, 200_000, 200_000, 400_000, green, &settings) {
            Ok(e) => elems.push(e),
            Err(e) => {
                return Err(e);
            },
        }
        match wall(200_000, 400_000, 100_000, 200_000, blue, &settings) {
            Ok(e) => elems.push(e),
            Err(e) => {
                return Err(e);
            },
        }
        assert(elems@ =~= first_level(settings));
        Ok(
            GameState {
                camera,
                elems,
                q_key: false,
                d_key: false,
                z_key: false,
                s_key: false,
                quit: false,
                fish: false,
                dt: 0,
                settings,
            },
        )
    }

    /// The settings are valid, the heading is one long and there is at least
    /// one ray. The field of view may have left its range since the last
    /// update.
    pub open spec fn wf(&self) -> bool {
        &&& self.settings.wf()
        &&& self.camera.direction.is_unit()
        &&& self.camera.nb_rays >= 1
    }

    /// Whether the game is one that `update` can move on.
    pub fn is_valid(&self) -> (r: bool)
        ensures
            r == self.wf(),
    {
        self.settings.is_valid() && self.camera.direction.has_unit_length() && self.camera.nb_rays
            >= 1
    }

    /// The speed of the camera in scene units per second: the diagonal over
    /// the time to cross it.
    pub open spec fn spec_speed(&self) -> int {
        self.settings.spec_diagonal() / (self.settings.crossing_time as int)
    }

    /// Where the camera would stand after `dt` milliseconds with the keys
    /// that are held, were there no border: forward and backward along the
    /// heading, right and left along the heading turned by a quarter turn.
    pub open spec fn spec_moved(&self, dt: int) -> (int, int) {
        let d = self.camera.direction;
        let v = self.spec_speed();
        let front_x = stride(d.x as int, v, dt);
        let front_y = stride(d.y as int, v, dt);
        let right_x = stride(-d.y, v, dt);
        let right_y = stride(d.x as int, v, dt);
        (
            self.camera.position.x + (if self.z_key {
                front_x
            } else {
                0
            }) - (if self.s_key {
                front_x
            } else {
                0
            }) + (if self.d_key {
                right_x
            } else {
                0
            }) - (if self.q_key {
                right_x
            } else {
                0
            }),
            self.camera.position.y + (if self.z_key {
                front_y
            } else {
                0
            }) - (if self.s_key {
                front_y
            } else {
                0
            }) + (if self.d_key {
                right_y
            } else {
                0
            }) - (if self.q_key {
                right_y
            } else {
                0
            }),
        )
    }

    fn stride_of(&self, part: i32, speed: i64, dt: u32) -> (r: i128)
        requires
            -UNIT <= part <= UNIT,
            0 <= speed <= 2 * MAX_EXTENT,
        ensures
            r == stride(part as int, speed as int, dt as int),
            -(0x1_0000_0000_0000) <= r <= 0x1_0000_0000_0000,
    {
        assert(-(UNIT * (2 * MAX_EXTENT)) <= part * speed <= UNIT * (2 * MAX_EXTENT))
            by (nonlinear_arith)
            requires
                -UNIT <= part <= UNIT,
                0 <= speed <= 2 * MAX_EXTENT,
        ;
        let ps: i128 = (part as i128) * (speed as i128);
        assert(-(UNIT * (2 * MAX_EXTENT) * 0xffff_ffff) <= ps * dt <= UNIT * (2 * MAX_EXTENT)
            * 0xffff_ffff) by (nonlinear_arith)
            requires
                -(UNIT * (2 * MAX_EXTENT)) <= ps <= UNIT * (2 * MAX_EXTENT),
                0 <= dt <= 0xffff_ffff,
        ;
        let num: i128 = ps * (dt as i128);
        let r: i128 = floor_div(num, (UNIT as i128) * 1000);
        assert(-(0x1_0000_0000_0000) <= r <= 0x1_0000_0000_0000) by (nonlinear_arith)
            requires
                r == (num as int) / (UNIT as int * 1000),
                -(UNIT * (2 * MAX_EXTENT) * 0xffff_ffff) <= num <= UNIT * (2 * MAX_EXTENT)
                    * 0xffff_ffff,
        ;
        r
    }

    /// Moves the camera for a frame that took `dt` milliseconds, by the keys
    /// that are held, and keeps it inside the scene and off its border: at
    /// least the margin, which is at least one unit, away from each side.
    /// The field of view stays, or comes back, within the open range from
    /// nothing to a full turn.
    pub fn update(&mut self, dt: u32)
        requires
            old(self).wf(),
        ensures
            final(self).dt == dt,
            final(self).camera.position.x == clamped(
                old(self).spec_moved(dt as int).0,
                old(self).settings.margin as int,
                old(self).settings.scene_width - old(self).settings.margin,
            ),
            final(self).camera.position.y == clamped(
                old(self).spec_moved(dt as int).1,
                old(self).settings.margin as int,
                old(self).settings.scene_height - old(self).settings.margin,
            ),
            final(self).camera.fov == clamped_fov(old(self).camera.fov as int),
            final(self).camera.direction == old(self).camera.direction,
            final(self).camera.nb_rays == old(self).camera.nb_rays,
            final(self).elems == old(self).elems,
            final(self).settings == old(self).settings,
            final(self).q_key == old(self).q_key,
            final(self).d_key == old(self).d_key,
            final(self).z_key == old(self).z_key,
            final(self).s_key == old(self).s_key,
            final(self).quit == old(self).quit,
            final(self).fish == old(self).fish,
            final(self).wf(),
            final(self).camera.wf(),
            final(self).settings.margin <= final(self).camera.position.x,
            final(self).camera.position.x <= final(self).settings.scene_width
                - final(self).settings.margin,
            final(self).settings.margin <= final(self).camera.position.y,
            final(self).camera.position.y <= final(self).settings.scene_height
                - final(self).settings.margin,
            0 < final(self).camera.position.x < final(self).settings.scene_width,
            0 < final(self).camera.position.y < final(self).settings.scene_height,
            0 < final(self).camera.fov < TWO_PI,
    {
        self.dt = dt;
        let v: i64 = self.settings.diagonal() / (self.settings.crossing_time as i64);
        assert(0 <= v <= 2 * MAX_EXTENT) by (nonlinear_arith)
            requires
                v == self.settings.spec_diagonal() / (self.settings.crossing_time as int),
                1 <= self.settings.spec_diagonal() <= 2 * MAX_EXTENT,
                1 <= self.settings.crossing_time,
        ;
        let d = self.camera.direction;
        proof {
            d.lemma_unit_is_within_unit();
        }
        let front_x: i128 = self.stride_of(d.x, v, dt);
        let front_y: i128 = self.stride_of(d.y, v, dt);
        let right_x: i128 = self.stride_of(-d.y, v, dt);
        let right_y: i128 = self.stride_of(d.x, v, dt);
        let mut x: i128 = self.camera.position.x as i128;
        let mut y: i128 = self.camera.position.y as i128;
        if self.z_key {
            x = x + front_x;
            y = y + front_y;
        }
        if self.s_key {
            x = x - front_x;
            y = y - front_y;
        }
        if self.d_key {
            x = x + right_x;
            y = y + right_y;
        }
        if self.q_key {
            x = x - right_x;
            y = y - right_y;
        }
        let margin: i32 = self.settings.margin;
        self.camera.position.x = clamp_axis(x, margin, self.settings.scene_width - margin);
        self.camera.position.y = clamp_axis(y, margin, self.settings.scene_height - margin);
        self.camera.fov = clamp_fov(self.camera.fov as i128);
    }

    /// Notes that a key went down: a movement key is held from now on,
    /// Escape asks to leave, Return switches the fisheye view.
    pub fn key_down_event(&mut self, keycode: Keycode)
        ensures
            final(self).camera == old(self).camera,
            final(self).elems == old(self).elems,
            final(self).settings == old(self).settings,
            final(self).dt == old(self).dt,
            final(self).q_key == (old(self).q_key || keycode == Keycode::Q),
            final(self).d_key == (old(self).d_key || keycode == Keycode::D),
            final(self).z_key == (old(self).z_key || keycode == Keycode::Z),
            final(self).s_key == (old(self).s_key || keycode == Keycode::S),
            final(self).quit == (old(self).quit || keycode == Keycode::Escape),
            final(self).fish == (old(self).fish != (keycode == Keycode::Return)),
    {
        match keycode {
            Keycode::Q => self.q_key = true,
            Keycode::D => self.d_key = true,
            Keycode::Z => self.z_key = true,
            Keycode::S => self.s_key = true,
            Keycode::Escape => self.quit = true,
            Keycode::Return => self.fish = !self.fish,
            _ => {},
        };
    }

    /// Notes that a key came up: a movement key is held no longer.
    pub fn key_up_event(&mut self, keycode: Keycode)
        ensures
            final(self).camera == old(self).camera,
            final(self).elems == old(self).elems,
            final(self).settings == old(self).settings,
            final(self).dt == old(self).dt,
            final(self).q_key == (old(self).q_key && keycode != Keycode::Q),
            final(self).d_key == (old(self).d_key && keycode != Keycode::D),
            final(self).z_key == (old(self).z_key && keycode != Keycode::Z),
            final(self).s_key == (old(self).s_key && keycode != Keycode::S),
            final(self).quit == old(self).quit,
            final(self).fish == old(self).fish,
    {
        match keycode {
            Keycode::Q => self.q_key = false,
            Keycode::D => self.d_key = false,
            Keycode::Z => self.z_key = false,
            Keycode::S => self.s_key = false,
            _ => {},
        };
    }

    /// The field of view after the wheel has turned by `y` notches: wider by
    /// the zoom speed for each notch and each second of the last frame, and
    /// put back into the open range from nothing to a full turn.
    pub open spec fn spec_zoomed(&self, y: int) -> int {
        clamped_fov(self.camera.fov + y * self.dt * ZOOM_SPEED / 1000)
    }

    /// Opens or narrows the field of view by `y` notches of the wheel.
    pub fn mouse_wheel_event(&mut self, y: i32)
        ensures
            final(self).camera.fov == old(self).spec_zoomed(y as int),
            0 < final(self).camera.fov < TWO_PI,
            final(self).camera.position == old(self).camera.position,
            final(self).camera.direction == old(self).camera.direction,
            final(self).camera.nb_rays == old(self).camera.nb_rays,
            final(self).elems == old(self).elems,
            final(self).settings == old(self).settings,
            final(self).dt == old(self).dt,
            final(self).q_key == old(self).q_key,
            final(self).d_key == old(self).d_key,
            final(self).z_key == old(self).z_key,
            final(self).s_key == old(self).s_key,
            final(self).quit == old(self).quit,
            final(self).fish == old(self).fish,
            old(self).wf() ==> final(self).wf() && final(self).camera.wf(),
    {
        assert(-(0x8000_0000 * 0xffff_ffff) <= y * self.dt <= 0x8000_0000 * 0xffff_ffff)
            by (nonlinear_arith)
            requires
                -0x8000_0000 <= y <= 0x8000_0000,
                0 <= self.dt <= 0xffff_ffff,
        ;
        let turns: i128 = (y as i128) * (self.dt as i128);
        let delta: i128 = floor_div(turns * (ZOOM_SPEED as i128), 1000);
        assert(-(0x8000_0000 * 0xffff_ffff * ZOOM_SPEED) <= delta <= 0x8000_0000 * 0xffff_ffff
            * ZOOM_SPEED) by (nonlinear_arith)
            requires
                delta == (turns * ZOOM_SPEED) / 1000,
                -(0x8000_0000 * 0xffff_ffff) <= turns <= 0x8000_0000 * 0xffff_ffff,
        ;
        self.camera.fov = clamp_fov((self.camera.fov as i128) + delta);
    }

    /// The angle that the heading turns by when the pointer has moved by
    /// `dx`: the turn speed for each unit of motion and each millisecond of
    /// the last frame, taken within one full turn.
    pub open spec fn spec_turn_angle(&self, dx: int) -> int {
        (dx * self.dt * TURN_SPEED) % (TWO_PI as int)
    }

    /// The angle, in microradians, of the rotation that `mouse_motion_event`
    /// is to be given for a pointer motion of `dx`.
    pub fn turn_angle(&self, dx: i32) -> (angle: i32)
        ensures
            angle == self.spec_turn_angle(dx as int),
            0 <= angle < TWO_PI,
    {
        assert(-(0x8000_0000 * 0xffff_ffff) <= dx * self.dt <= 0x8000_0000 * 0xffff_ffff)
            by (nonlinear_arith)
            requires
                -0x8000_0000 <= dx <= 0x8000_0000,
                0 <= self.dt <= 0xffff_ffff,
        ;
        let raw: i128 = (dx as i128) * (self.dt as i128) * (TURN_SPEED as i128);
        let turns: i128 = floor_div(raw, TWO_PI as i128);
        proof {
            vstd::arithmetic::div_mod::lemma_fundamental_div_mod(raw as int, TWO_PI as int);
            vstd::arithmetic::div_mod::lemma_mod_bound(raw as int, TWO_PI as int);
            assert(-(0x8000_0000 * 0xffff_ffff * TURN_SPEED) <= turns <= 0x8000_0000
                * 0xffff_ffff * TURN_SPEED) by (nonlinear_arith)
                requires
                    turns == (raw as int) / (TWO_PI as int),
                    -(0x8000_0000 * 0xffff_ffff * TURN_SPEED) <= raw <= 0x8000_0000
                        * 0xffff_ffff * TURN_SPEED,
            ;
        }
        (raw - turns * (TWO_PI as i128)) as i32
    }

    /// The heading after a turn by `rot`: turned, and scaled back to length
    /// one.
    pub open spec fn spec_turned(&self, rot: Rotation2) -> Vector2 {
        self.camera.direction.spec_rotated(rot).spec_normalized()
    }

    /// Turns the heading after the pointer has moved by `dx`. `rot` is the
    /// rotation by `turn_angle(dx)`; given another, or a cosine and a sine
    /// that are not those of one angle, the heading stays and the result is
    /// `false`.
    pub fn mouse_motion_event(&mut self, dx: i32, rot: &Rotation2) -> (turned: bool)
        requires
            old(self).wf(),
        ensures
            turned == (rot.wf() && rot.angle == old(self).spec_turn_angle(dx as int)),
            final(self).camera.direction == if turned {
                old(self).spec_turned(*rot)
            } else {
                old(self).camera.direction
            },
            final(self).camera.position == old(self).camera.position,
            final(self).camera.fov == old(self).camera.fov,
            final(self).camera.nb_rays == old(self).camera.nb_rays,
            final(self).elems == old(self).elems,
            final(self).settings == old(self).settings,
            final(self).dt == old(self).dt,
            final(self).q_key == old(self).q_key,
            final(self).d_key == old(self).d_key,
            final(self).z_key == old(self).z_key,
            final(self).s_key == old(self).s_key,
            final(self).quit == old(self).quit,
            final(self).fish == old(self).fish,
            final(self).wf(),
    {
        if !rot.is_valid() || rot.angle != self.turn_angle(dx) {
            return false;
        }
        proof {
            self.camera.direction.lemma_unit_is_within_unit();
            self.camera.direction.lemma_turned_is_not_zero(*rot);
        }
        let turned = self.camera.direction.rotated(rot).unwrap();
        self.camera.direction = turned.normalized().unwrap();
        true
    }
}

} // verus!
