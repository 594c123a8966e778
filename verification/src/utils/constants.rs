//! The fixed-point scales and tuning constants of the engine.

use vstd::prelude::*;

verus! {

/// One, in the fixed-point scale of unit vectors, cosines and sines.
pub const UNIT: i32 = 1_000_000;

/// Half a turn, in microradians.
pub const PI: i32 = 3_141_593;

/// A full turn, in microradians, rounded down.
pub const TWO_PI: i32 = 6_283_185;

/// A quarter of a turn, in microradians, rounded down.
pub const QUARTER_TURN: i32 = 1_570_796;

/// Half a turn, in microradians, rounded down.
pub const HALF_TURN: i32 = 3_141_592;

/// Three quarters of a turn, in microradians, rounded down.
pub const THREE_QUARTER_TURN: i32 = 4_712_388;

/// Two lines, neither of them upright, count as parallel where their slopes
/// differ by less than one part in this many.
pub const SLOPE_TOLERANCE: i32 = 8_388_608;

/// How far inside the open range from nothing to a full turn the field of
/// view is put back when it leaves it, in microradians.
pub const FOV_MARGIN: i32 = 10_000;

/// How fast the wheel opens the field of view, in microradians per second
/// and notch: five eighths of a turn.
pub const ZOOM_SPEED: i32 = 3_926_991;

/// The turn of the heading for each millisecond of the last frame and each
/// unit of pointer motion, in microradians.
pub const TURN_SPEED: i32 = 100;

} // verus!
