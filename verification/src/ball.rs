//! The ball integrator: pure translation of every ball by its velocity and
//! the elapsed time, independently on each axis.  No velocity changes here.

use vstd::prelude::*;

use crate::breakout::{Ball, Velocity, DT_LIMIT, POS_LIMIT, VEL_LIMIT};

verus! {

/// The per-frame ball movement system.
pub struct MoveBallSystem;

impl MoveBallSystem {
    /// Moves every ball according to its velocity and the time passed:
    /// `x += vx * dt` and `y += vy * dt`, exactly.  The caller keeps the
    /// results inside the geometry's coordinate range; a ball that would
    /// leave it (after long neglect of the session) is the caller's concern,
    /// as is a ball that left the stage.
    #[verifier::loop_isolation(false)]
    pub fn run(&self, balls: &mut Vec<Ball>, velocities: &Vec<Velocity>, dt: i64)
        requires
            old(balls)@.len() == velocities@.len(),
            0 <= dt <= DT_LIMIT,
            forall|j: int| 0 <= j < old(balls)@.len() ==> (#[trigger] old(balls)@[j]).wf(),
            forall|j: int| 0 <= j < velocities@.len() ==> (#[trigger] velocities@[j]).bounded(),
            forall|j: int| 0 <= j < old(balls)@.len()
                ==> -POS_LIMIT <= old(balls)@[j].x + (#[trigger] velocities@[j]).x * dt
                    <= POS_LIMIT,
            forall|j: int| 0 <= j < old(balls)@.len()
                ==> -POS_LIMIT <= old(balls)@[j].y + (#[trigger] velocities@[j]).y * dt
                    <= POS_LIMIT,
        ensures
            final(balls)@.len() == old(balls)@.len(),
            forall|j: int| 0 <= j < final(balls)@.len() ==> (#[trigger] final(balls)@[j]).x
                == old(balls)@[j].x + velocities@[j].x * dt,
            forall|j: int| 0 <= j < final(balls)@.len() ==> (#[trigger] final(balls)@[j]).y
                == old(balls)@[j].y + velocities@[j].y * dt,
            forall|j: int| 0 <= j < final(balls)@.len() ==> (#[trigger] final(balls)@[j]).radius
                == old(balls)@[j].radius,
            forall|j: int| 0 <= j < final(balls)@.len() ==> (#[trigger] final(balls)@[j]).wf(),
    {
        let mut i: usize = 0;
        while i < balls.len()
            invariant
                balls@.len() == old(balls)@.len(),
                i <= balls@.len(),
                forall|j: int| i <= j < balls@.len() ==> #[trigger] balls@[j]
                    == old(balls)@[j],
                forall|j: int| 0 <= j < i ==> (#[trigger] balls@[j]).x == old(balls)@[j].x
                    + velocities@[j].x * dt,
                forall|j: int| 0 <= j < i ==> (#[trigger] balls@[j]).y == old(balls)@[j].y
                    + velocities@[j].y * dt,
                forall|j: int| 0 <= j < i ==> (#[trigger] balls@[j]).radius
                    == old(balls)@[j].radius,
                forall|j: int| 0 <= j < i ==> (#[trigger] balls@[j]).wf(),
            decreases balls@.len() - i,
        {
            let b = balls[i];
            let v = velocities[i];
            proof {
                assert(-VEL_LIMIT * DT_LIMIT <= v.x * dt <= VEL_LIMIT * DT_LIMIT)
                    by (nonlinear_arith)
                    requires
                        -VEL_LIMIT <= v.x <= VEL_LIMIT,
                        0 <= dt <= DT_LIMIT,
                ;
                assert(-VEL_LIMIT * DT_LIMIT <= v.y * dt <= VEL_LIMIT * DT_LIMIT)
                    by (nonlinear_arith)
                    requires
                        -VEL_LIMIT <= v.y <= VEL_LIMIT,
                        0 <= dt <= DT_LIMIT,
                ;
            }
            let moved = Ball { x: b.x + v.x * dt, y: b.y + v.y * dt, radius: b.radius };
            balls.set(i, moved);
            i = i + 1;
        }
    }
}

} // verus!
