//! A verified core for a brick-breaking arcade game.
//!
//! A ball bounces between a movable paddle, the arena walls, and a grid of
//! destructible bricks.  The crate holds the per-frame logic: paddle control
//! from an input axis, ball integration from velocity, and the collision
//! resolver that reflects the ball and removes struck bricks.  Window setup,
//! rendering, asset loading and input bindings are left to the caller, which
//! hands the core an elapsed time, an axis value, and the entities to mutate.
//!
//! All geometry is exact fixed-point arithmetic:
//! - positions and lengths are `i64` values in micro-units
//!   (one stage unit is `1_000_000` micro-units);
//! - velocities are `i64` values in micro-units per millisecond
//!   (one stage unit per second is `1_000` micro-units per millisecond);
//! - elapsed time is an `i64` count of milliseconds.
//!
//! With these scales, advancing a position by `velocity * dt` needs no
//! division, so every contract states the result exactly.

pub mod ball;
pub mod bounce;
pub mod breakout;
pub mod geometry;
pub mod paddle;
pub mod stage;
