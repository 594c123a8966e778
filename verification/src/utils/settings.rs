//! The sizes and tuning values that a scene is built with.

use vstd::prelude::*;
use crate::utils::math::{isqrt, sqrt_floor};

verus! {

/// The largest width or height of a scene, in scene units.
pub const MAX_EXTENT: i32 = 16_777_216;

/// Why a set of sizes was refused.
#[derive(Clone, Copy, Debug, PartialEq, Eq, Structural)]
pub enum SettingsError {
    /// A side of the scene is not in `2 ..= MAX_EXTENT`: a scene has room
    /// for a margin on both sides.
    Extent,
    /// The margin is less than one unit or more than half a side.
    Margin,
    /// The column height at the far corner is negative or more than the
    /// scene's height.
    MinHeight,
    /// The time to cross the diagonal is not positive.
    CrossingTime,
}

/// The size of the scene and the values that projection and movement are
/// tuned by.
#[derive(Clone, Copy, Debug, PartialEq, Eq, Structural)]
pub struct Settings {
    /// Width of the scene, in scene units.
    pub scene_width: i32,
    /// Height of the scene, which is also the tallest column.
    pub scene_height: i32,
    /// How far from the border the camera is kept: at least one unit, so
    /// that it never stands on the border.
    pub margin: i32,
    /// Height of the column of a wall that is one diagonal away.
    pub min_height: i32,
    /// Seconds that the camera takes to cross the diagonal.
    pub crossing_time: i32,
}

impl Settings {
    /// The sides are within the limits, the margin is at least one unit and
    /// at most half a side, the far column is no higher than the scene, and
    /// the crossing time is positive.
    pub open spec fn wf(self) -> bool {
        &&& 2 <= self.scene_width <= MAX_EXTENT
        &&& 2 <= self.scene_height <= MAX_EXTENT
        &&& 1 <= self.margin
        &&& 2 * self.margin <= self.scene_width
        &&& 2 * self.margin <= self.scene_height
        &&& 0 <= self.min_height <= self.scene_height
        &&& 1 <= self.crossing_time
    }

    /// Whether these values are ones that `new` accepts.
    pub fn is_valid(&self) -> (r: bool)
        ensures
            r == self.wf(),
    {
        2 <= self.scene_width && self.scene_width <= MAX_EXTENT && 2 <= self.scene_height
            && self.scene_height <= MAX_EXTENT && 1 <= self.margin && self.margin
            <= self.scene_width / 2 && self.margin <= self.scene_height / 2 && 0
            <= self.min_height && self.min_height <= self.scene_height && 1 <= self.crossing_time
    }

    /// The error that `new` gives for these values, if any: the first that
    /// applies, in the order of the variants.
    pub open spec fn fault(
        scene_width: i32,
        scene_height: i32,
        margin: i32,
        min_height: i32,
        crossing_time: i32,
    ) -> Option<SettingsError> {
        if !(2 <= scene_width <= MAX_EXTENT && 2 <= scene_height <= MAX_EXTENT) {
            Some(SettingsError::Extent)
        } else if !(1 <= margin && 2 * margin <= scene_width && 2 * margin <= scene_height) {
            Some(SettingsError::Margin)
        } else if !(0 <= min_height <= scene_height) {
            Some(SettingsError::MinHeight)
        } else if crossing_time < 1 {
            Some(SettingsError::CrossingTime)
        } else {
            None
        }
    }

    /// Checks the values and keeps them.
    pub fn new(
        scene_width: i32,
        scene_height: i32,
        margin: i32,
        min_height: i32,
        crossing_time: i32,
    ) -> (r: Result<Settings, SettingsError>)
        ensures
            r == match Self::fault(scene_width, scene_height, margin, min_height, crossing_time) {
                Some(e) => Err::<Settings, SettingsError>(e),
                None => Ok(
                    Settings { scene_width, scene_height, margin, min_height, crossing_time },
                ),
            },
            r is Ok ==> r->Ok_0.wf(),
    {
        if scene_width < 2 || scene_width > MAX_EXTENT || scene_height < 2 || scene_height
            > MAX_EXTENT {
            Err(SettingsError::Extent)
        } else if margin < 1 || margin > scene_width / 2 || margin > scene_height / 2 {
            Err(SettingsError::Margin)
        } else if min_height < 0 || min_height > scene_height {
            Err(SettingsError::MinHeight)
        } else if crossing_time < 1 {
            Err(SettingsError::CrossingTime)
        } else {
            Ok(Settings { scene_width, scene_height, margin, min_height, crossing_time })
        }
    }

    /// A square scene of the given side, with the margin at a twentieth of a
    /// thousandth of the side and at least one unit, the far column at a
    /// twentieth of the height and twenty seconds to cross the diagonal.
    pub fn square(side: i32) -> (r: Result<Settings, SettingsError>)
        ensures
            r == if 2 <= side <= MAX_EXTENT {
                Ok::<Settings, SettingsError>(
                    Settings {
                        scene_width: side,
                        scene_height: side,
                        margin: if side < 20_000 {
                            1i32
                        } else {
                            (side / 20_000) as i32
                        },
                        min_height: (side / 20) as i32,
                        crossing_time: 20,
                    },
                )
            } else {
                Err(SettingsError::Extent)
            },
            r is Ok ==> r->Ok_0.wf(),
    {
        if side < 2 || side > MAX_EXTENT {
            Err(SettingsError::Extent)
        } else {
            let margin: i32 = if side < 20_000 {
                1
            } else {
                side / 20_000
            };
            Ok(
                Settings {
                    scene_width: side,
                    scene_height: side,
                    margin,
                    min_height: side / 20,
                    crossing_time: 20,
                },
            )
        }
    }

    /// The length of the scene's diagonal, rounded down.
    pub open spec fn spec_diagonal(self) -> int {
        sqrt_floor(
            (self.scene_width * self.scene_width + self.scene_height * self.scene_height) as nat,
        ) as int
    }

    /// The length of the scene's diagonal, rounded down.
    pub fn diagonal(&self) -> (d: i64)
        requires
            self.wf(),
        ensures
            d == self.spec_diagonal(),
            1 <= d <= 2 * MAX_EXTENT,
    {
        let w: u128 = self.scene_width as u128;
        let h: u128 = self.scene_height as u128;
        assert(1 <= w * w + h * h <= 2 * MAX_EXTENT * MAX_EXTENT) by (nonlinear_arith)
            requires
                1 <= w <= MAX_EXTENT,
                1 <= h <= MAX_EXTENT,
        ;
        let d: u64 = isqrt(w * w + h * h);
        assert(1 <= d <= 2 * MAX_EXTENT) by (nonlinear_arith)
            requires
                d * d <= w * w + h * h < (d + 1) * (d + 1),
                1 <= w * w + h * h <= 2 * MAX_EXTENT * MAX_EXTENT,
        ;
        d as i64
    }
}

} // verus!
