//! The fixed numbers of the game, in thousandths (see `units`).

use vstd::prelude::*;

verus! {

/// Width of the arena: 800 pixels.
pub const WIDTH: i64 = 800_000;

/// Height of the arena: 800 pixels.
pub const HEIGHT: i64 = 800_000;

/// Distance kept between a freshly spawned power-up and either side wall.
pub const SPRITE_SPAWN_MARGIN: i64 = 100_000;

/// Distance kept between a freshly spawned power-up and the top and bottom edges.
pub const SPRITE_SPAWN_INSET: i64 = 50_000;

/// Side of the square that a power-up occupies.
pub const POWERUP_SIZE: i64 = 32_000;

/// Height of a paddle at the start of a round.
pub const PADDLE_HEIGHT: i64 = 80_000;

/// Width of a paddle.
pub const PADDLE_WIDTH: i64 = 16_000;

/// Distance a paddle travels per frame at the start of a round.
pub const PADDLE_SPEED: i64 = 5_000;

/// Distance between a side wall and the paddle in front of it.
pub const LANE_OFFSET: i64 = 50_000;

/// Radius of the ball.
pub const BALL_RADIUS: i64 = 10_000;

/// Speed of the ball when it is served, and the least speed after a paddle hit.
pub const SERVE_SPEED: i64 = 3_000;

/// Speed that a hit adds per unit of collision offset: a hit at the very edge
/// of a paddle doubles the serve speed.
pub const SPEED_GAIN: i64 = 3;

/// Distance between the serving paddle and the ball that waits to be served.
pub const SERVE_GAP: i64 = 20_000;

/// Steepest angle at which a paddle sends the ball away: 75 degrees.
pub const MAX_DEFLECTION: i64 = 75_000;

/// Half a turn, the angle of a ball that flies to the left.
pub const HALF_TURN: i64 = 180_000;

/// A quarter of a turn.
pub const QUARTER_TURN: i64 = 90_000;

/// A full turn.
pub const FULL_TURN: i64 = 360_000;

/// What `Enlarge` adds to a paddle's height and `Shrink` takes away.
pub const RESIZE_STEP: i64 = 20_000;

/// What `SpeedUp` adds to a paddle's speed and `SlowDown` takes away.
pub const SPEED_STEP: i64 = 2_000;

/// Points that win the match.
pub const WIN_SCORE: u32 = 10;

/// Time between two power-up spawns.
pub const SPAWN_INTERVAL: u64 = 10_000;

/// Largest magnitude of a coordinate, size, speed or angle for which a whole
/// frame is simulated without leaving the range of `i64`.
pub const LIMIT: i64 = 1_000_000_000_000;

/// Largest number of active power-ups for which a whole frame is simulated.
pub const POWERUP_LIMIT: usize = 1_000_000;

} // verus!
