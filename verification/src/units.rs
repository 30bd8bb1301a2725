//! The fixed-point scale and the constants of the game's physics.

use vstd::prelude::*;

verus! {

/// Sub-pixel units per pixel. Lengths and positions count these units;
/// velocities count units per tick.
pub const UNITS_PER_PIXEL: i64 = 10;

/// What every tick takes from the vertical velocity: a tenth of a pixel per tick.
pub const GRAVITY: i64 = 1;

/// Horizontal speed that a left or right intent gives a grounded body: two pixels per tick.
pub const WALK_SPEED: i64 = 20;

/// Vertical speed that an up intent gives a grounded body: three pixels per tick.
pub const JUMP_SPEED: i64 = 30;

/// Height of the nominal floor surface: a body whose centre is at or below
/// it counts as grounded.
pub const GROUND_LEVEL: i64 = -1050;

/// How far above an obstacle's centre a body is put when it lands on the
/// obstacle's top: fifteen pixels, whatever the two extents are.
pub const TOP_SNAP_OFFSET: i64 = 150;

} // verus!
