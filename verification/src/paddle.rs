//! The paddle controller: maps an input axis value and the elapsed time into
//! a clamped horizontal position update for the paddle.

use vstd::prelude::*;

use crate::breakout::{Config, Paddle, DT_LIMIT};

verus! {

/// Axis values are thousandths of the full deflection: `1000` stands for the
/// whole unit axis value; anything larger is clamped defensively.
pub const AXIS_SCALE: i64 = 1_000;

/// The input axis value clamped to `[-1000, 1000]`.
pub open spec fn clamp_axis(axis: int) -> int {
    if axis > AXIS_SCALE {
        AXIS_SCALE as int
    } else if axis < -AXIS_SCALE {
        -AXIS_SCALE
    } else {
        axis
    }
}

/// The paddle centre after a movement by a non-zero axis value: the position
/// shifted by `velocity * dt * axis / 1000`, then clamped into
/// `[width / 2, stage_width - width / 2]` (first the upper bound, then the
/// lower one, as the resolver's arena demands a paddle no wider than the
/// stage).  The shift magnitude is divided and its sign restored, so the
/// rounding is symmetric for both directions.
pub open spec fn paddle_target(p: Paddle, cfg: Config, axis: int, dt: int) -> int {
    let a = clamp_axis(axis);
    let mag = p.velocity * dt * (if a >= 0 { a } else { -a }) / (AXIS_SCALE as int);
    let moved = if a >= 0 { p.x + mag } else { p.x - mag };
    let hi = cfg.stage_width - p.width / 2;
    let lo = p.width / 2;
    let capped = if moved < hi { moved } else { hi };
    if capped > lo { capped } else { lo }
}

/// Whatever the axis value and the elapsed time, the paddle's target
/// position keeps the whole paddle inside the stage: the target never passes
/// `width / 2` on the left nor `stage_width - width / 2` on the right.
pub proof fn lemma_paddle_always_clamped(p: Paddle, cfg: Config, axis: int, dt: int)
    requires
        0 < p.width,
        p.width % 2 == 0,
        p.width <= cfg.stage_width,
    ensures
        p.width / 2 <= paddle_target(p, cfg, axis, dt) <= cfg.stage_width - p.width / 2,
{
    assert(2 * (p.width as int / 2) == p.width as int);
}

/// The per-frame paddle movement system.
pub struct PaddleSystem;

impl PaddleSystem {
    /// Moves the paddle by the axis value scaled with its speed and the
    /// elapsed time, clamped to keep the whole paddle inside the stage.  An
    /// absent axis binding or a zero axis value leaves the paddle untouched;
    /// only the position changes, never size or speed.
    pub fn run(&self, cfg: &Config, paddle: &mut Paddle, axis: Option<i64>, dt: i64)
        requires
            cfg.wf(),
            old(paddle).wf(),
            old(paddle).width <= cfg.stage_width,
            0 <= dt <= DT_LIMIT,
        ensures
            final(paddle).wf(),
            axis matches Some(a) ==> (a != 0 ==> final(paddle).x as int == paddle_target(
                *old(paddle), *cfg, a as int, dt as int,
            )),
            axis matches Some(a) ==> (a != 0 ==> old(paddle).width / 2 <= final(paddle).x
                <= cfg.stage_width - old(paddle).width / 2),
            axis is None ==> *final(paddle) == *old(paddle),
            axis matches Some(a) ==> (a == 0 ==> *final(paddle) == *old(paddle)),
            final(paddle).y == old(paddle).y,
            final(paddle).velocity == old(paddle).velocity,
            final(paddle).width == old(paddle).width,
            final(paddle).height == old(paddle).height,
    {
        if let Some(raw) = axis {
            if raw != 0 {
                let a = if raw > AXIS_SCALE {
                    AXIS_SCALE
                } else if raw < -AXIS_SCALE {
                    -AXIS_SCALE
                } else {
                    raw
                };
                let a_mag = if a >= 0 { a } else { -a };
                proof {
                    assert(0 <= paddle.velocity * dt <= 60_000_000_000_000) by (nonlinear_arith)
                        requires
                            0 <= paddle.velocity <= 1_000_000_000,
                            0 <= dt <= 60_000,
                    ;
                    assert(0 <= paddle.velocity * dt * a_mag <= 60_000_000_000_000_000)
                        by (nonlinear_arith)
                        requires
                            0 <= paddle.velocity * dt <= 60_000_000_000_000,
                            0 <= a_mag <= 1_000,
                    ;
                    vstd::arithmetic::div_mod::lemma_div_pos_is_pos(
                        paddle.velocity * dt * a_mag, AXIS_SCALE as int,
                    );
                    vstd::arithmetic::div_mod::lemma_div_nonincreasing(
                        paddle.velocity * dt * a_mag, AXIS_SCALE as int,
                    );
                }
                let mag = paddle.velocity * dt * a_mag / AXIS_SCALE;
                let moved = if a >= 0 { paddle.x + mag } else { paddle.x - mag };
                let hi = cfg.stage_width - paddle.width / 2;
                let lo = paddle.width / 2;
                let capped = if moved < hi { moved } else { hi };
                let clamped = if capped > lo { capped } else { lo };
                paddle.x = clamped;
            }
        }
    }
}

} // verus!
