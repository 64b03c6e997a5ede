//! Tunable constants of the simulation, in fixed-point milli-units.

use vstd::prelude::*;

verus! {

/// Fixed-point scale: this many fixed-point units make one world unit.
pub const SCALE: i64 = 1000;

/// One full turn, in milli-degrees.
pub const FULL_TURN: i64 = 360 * SCALE;

/// Half a turn, in milli-degrees.
pub const HALF_TURN: i64 = 180 * SCALE;

/// A quarter turn, in milli-degrees.
pub const QUARTER_TURN: i64 = 90 * SCALE;

/// The ball's nominal diameter (used as both width and height).
pub const BALL_RADIUS: i64 = 10 * SCALE;

/// The ball's nominal scalar speed per tick.
pub const BALL_VELOCITY: i64 = 4 * SCALE;

/// Factor applied to the paddle's speed when the speed-up feature is on.
pub const BALL_MAX_SPEEDUP: i64 = 1 * SCALE;

/// Whether a face hit transfers paddle speed to the ball (off by default).
pub const BALL_SPEEDUP_ENABLED: bool = false;

/// Largest angle (milli-degrees) a face hit can send the ball back at.
pub const MAX_RETURN_ANGLE: i64 = 65 * SCALE;

/// Paddle height.
pub const PLAYER_HEIGHT: i64 = 100 * SCALE;

/// Paddle width.
pub const PLAYER_WIDTH: i64 = 15 * SCALE;

/// Horizontal distance from a paddle's center to its wall.
pub const PLAYER_WALL_DISTANCE: i64 = 50 * SCALE;

/// Maximum paddle speed per tick, approached through the inertial ramp.
pub const PLAYER_VELOCITY: i64 = 3 * SCALE;

/// Per-tick decay ratio of the paddle's remaining speed deficit: each tick the
/// deficit is multiplied by `INERTIA_DECAY_NUM / INERTIA_DECAY_DEN` (about
/// 0.95, an inertia constant of one twentieth per tick).
pub const INERTIA_DECAY_NUM: i64 = 951229;

/// Denominator of the per-tick decay ratio.
pub const INERTIA_DECAY_DEN: i64 = 1000000;

/// Bound on the magnitude of any coordinate the library works with.
pub const MAX_COORD: i64 = 1000000000000;

/// Bound on entity and field dimensions.
pub const MAX_DIM: i64 = 1000000000000;

/// Bound on the magnitude of any per-tick speed.
pub const MAX_VEL: i64 = 1000000000;

/// Bound on the magnitude of any orientation value ever stored or normalized.
pub const MAX_ORIENT: i64 = 1000000000000000000;

} // verus!
