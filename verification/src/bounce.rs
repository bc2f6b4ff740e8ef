//! The collision resolver: per frame and per ball it tests the arena walls,
//! the paddle and all live bricks, and resolves at most one meaningful
//! directional correction against a brick by flipping velocity components and
//! removing the struck brick.
//!
//! Within one pass over a ball, the wall checks and the paddle check may each
//! fire and combine, while the brick scan is skipped entirely once any
//! collision (wall, paddle or an earlier brick) was recorded: the collided
//! flag keeps one ball from destroying two bricks in one frame.

use vstd::prelude::*;

use crate::breakout::{Ball, Brick, Config, Paddle, Velocity, POS_LIMIT, VEL_LIMIT};
use crate::geometry::{in_rect, in_tri, point_in_rect, point_in_tri, tri_d, tri_s_num, tri_t_num};

verus! {

/// Speed of every paddle bounce, in micro-units per millisecond
/// (80 stage units per second).
pub const BOUNCE_SPEED: i64 = 80_000;

/// The per-frame collision system.
pub struct BounceSystem;

/// Where on a brick's expanded hit rectangle the ball's centre lies.
#[derive(Clone, Copy, Debug, PartialEq, Eq, Structural)]
pub enum BounceEdge {
    Left,
    Right,
    Bottom,
    Top,
    Outside,
}

/// Classifies the ball's centre against a brick's hit rectangle: the brick's
/// axis-aligned rectangle expanded on every side by the ball radius,
/// partitioned into a left and a right corner triangle (each reaching half a
/// brick height inward) and a top and a bottom half; the triangles are tried
/// first, so a corner hit resolves toward the side.
pub open spec fn brick_edge(
    brick_width: int, brick_height: int, brick_x: int, brick_y: int,
    ball_r: int, ball_x: int, ball_y: int,
) -> BounceEdge {
    let half_brick_height = brick_height / 2;
    let brick_left = brick_x - brick_width / 2;
    let brick_bottom = brick_y - half_brick_height;
    let brick_right = brick_left + brick_width;
    let brick_top = brick_bottom + brick_height;
    let left = brick_left - ball_r;
    let bottom = brick_bottom - ball_r;
    let right = brick_right + ball_r;
    let top = brick_top + ball_r;
    if in_tri(ball_x, ball_y, left, top, left + half_brick_height, brick_y, left, bottom) {
        BounceEdge::Left
    } else if in_tri(
        ball_x, ball_y, right, top, right - half_brick_height, brick_y, right, bottom,
    ) {
        BounceEdge::Right
    } else if in_rect(ball_x, ball_y, left, brick_y, right, top) {
        BounceEdge::Top
    } else if in_rect(ball_x, ball_y, left, bottom, right, brick_y) {
        BounceEdge::Bottom
    } else {
        BounceEdge::Outside
    }
}

/// The executable edge classifier.
pub fn in_brick_hitbox(
    brick_width: i64, brick_height: i64, brick_x: i64, brick_y: i64,
    ball_r: i64, ball_x: i64, ball_y: i64,
) -> (e: BounceEdge)
    requires
        0 < brick_width <= POS_LIMIT,
        0 < brick_height <= POS_LIMIT,
        -POS_LIMIT <= brick_x <= POS_LIMIT,
        -POS_LIMIT <= brick_y <= POS_LIMIT,
        0 < ball_r <= POS_LIMIT,
        -POS_LIMIT <= ball_x <= POS_LIMIT,
        -POS_LIMIT <= ball_y <= POS_LIMIT,
    ensures
        e == brick_edge(
            brick_width as int, brick_height as int, brick_x as int, brick_y as int,
            ball_r as int, ball_x as int, ball_y as int,
        ),
{
    let half_brick_height = brick_height / 2;
    let brick_left = brick_x - brick_width / 2;
    let brick_bottom = brick_y - half_brick_height;
    let brick_right = brick_left + brick_width;
    let brick_top = brick_bottom + brick_height;

    let left = brick_left - ball_r;
    let bottom = brick_bottom - ball_r;
    let right = brick_right + ball_r;
    let top = brick_top + ball_r;

    if point_in_tri(
        ball_x, ball_y, left, top, left + half_brick_height, brick_y, left, bottom,
    ) {
        BounceEdge::Left
    } else if point_in_tri(
        ball_x, ball_y, right, top, right - half_brick_height, brick_y, right, bottom,
    ) {
        BounceEdge::Right
    } else if point_in_rect(ball_x, ball_y, left, brick_y, right, top) {
        BounceEdge::Top
    } else if point_in_rect(ball_x, ball_y, left, bottom, right, brick_y) {
        BounceEdge::Bottom
    } else {
        BounceEdge::Outside
    }
}

/// The signed horizontal and vertical components of a paddle bounce for a
/// given milli-ratio (the impact offset as thousandths of the full quarter
/// turn).  Each pair satisfies `x * x + y * y == BOUNCE_SPEED * BOUNCE_SPEED`
/// exactly; the chain picks the representable direction nearest to the angle
/// `ratio * 90 degrees / 1000`, and offsets beyond the quarter turn take the
/// final, horizontal direction.
pub open spec fn deflect_velocity(ratio: int) -> (int, int) {
    let m = if ratio >= 0 { ratio } else { -ratio };
    let pair: (int, int) = if m <= 90 {
        (0, 80_000)
    } else if m <= 204 {
        (22_400, 76_800)
    } else if m <= 295 {
        (28_160, 74_880)
    } else if m <= 385 {
        (43_008, 67_456)
    } else if m <= 500 {
        (48_000, 64_000)
    } else if m <= 614 {
        (64_000, 48_000)
    } else if m <= 704 {
        (67_456, 43_008)
    } else if m <= 795 {
        (74_880, 28_160)
    } else if m <= 909 {
        (76_800, 22_400)
    } else {
        (80_000, 0)
    };
    // a positive ratio means the ball struck left of the paddle centre and
    // leaves toward the left
    (if ratio >= 0 { -pair.0 } else { pair.0 }, pair.1)
}

/// The executable deflection table.
pub fn deflect(ratio: i64) -> (v: Velocity)
    requires
        -4_000_000_000_000_000 <= ratio <= 4_000_000_000_000_000,
    ensures
        v.x as int == deflect_velocity(ratio as int).0,
        v.y as int == deflect_velocity(ratio as int).1,
        v.bounded(),
{
    let m = if ratio >= 0 { ratio } else { -ratio };
    let (sx, sy): (i64, i64) = if m <= 90 {
        (0, 80_000)
    } else if m <= 204 {
        (22_400, 76_800)
    } else if m <= 295 {
        (28_160, 74_880)
    } else if m <= 385 {
        (43_008, 67_456)
    } else if m <= 500 {
        (48_000, 64_000)
    } else if m <= 614 {
        (64_000, 48_000)
    } else if m <= 704 {
        (67_456, 43_008)
    } else if m <= 795 {
        (74_880, 28_160)
    } else if m <= 909 {
        (76_800, 22_400)
    } else {
        (80_000, 0)
    };
    Velocity { x: if ratio >= 0 { -sx } else { sx }, y: sy }
}

/// Whether the ball's centre lies in the paddle's hit rectangle: the paddle
/// rectangle's left, right and top edges shifted outward by the ball radius,
/// the bottom edge left in place.
pub open spec fn paddle_hit(paddle: Paddle, ball: Ball) -> bool {
    let paddle_left = paddle.x - paddle.width / 2;
    in_rect(
        ball.x as int,
        ball.y as int,
        paddle_left - ball.radius,
        paddle.y as int,
        paddle_left + paddle.width + ball.radius,
        paddle.y + paddle.height / 2 + ball.radius,
    )
}

/// The impact offset of a paddle hit as a milli-ratio: `0.8` of the offset
/// from the paddle centre, over half the paddle width, in thousandths.
/// The magnitude is divided, then the sign restored, so the rounding of the
/// division is symmetric around the centre.
pub open spec fn paddle_ratio(paddle: Paddle, ball: Ball) -> int {
    let d = paddle.x - ball.x;
    if d >= 0 {
        1600 * d / paddle.width as int
    } else {
        -(1600 * -d / paddle.width as int)
    }
}

/// The velocity after the wall checks: the top wall flips a rising `y`
/// component; the right wall flips a `x` component moving out, else the left
/// wall flips a `x` component moving out.  There is no bottom wall: a ball
/// falling below the stage is the caller's concern.
pub open spec fn wall_velocity(cfg: Config, ball: Ball, v: Velocity) -> (int, int) {
    let vy: int = if ball.y >= cfg.stage_height - ball.radius && v.y > 0 { -v.y } else { v.y as int };
    let vx: int = if ball.x >= cfg.stage_width - ball.radius && v.x > 0 {
        -v.x
    } else if ball.x <= ball.radius && v.x < 0 {
        -v.x
    } else {
        v.x as int
    };
    (vx, vy)
}

/// Whether any wall check fires.
pub open spec fn wall_collides(cfg: Config, ball: Ball, v: Velocity) -> bool {
    ||| ball.y >= cfg.stage_height - ball.radius && v.y > 0
    ||| ball.x >= cfg.stage_width - ball.radius && v.x > 0
    ||| ball.x <= ball.radius && v.x < 0
}

/// Where the ball's centre lies on a brick's hit rectangle.
pub open spec fn edge_of(ball: Ball, b: Brick) -> BounceEdge {
    brick_edge(
        b.width as int, b.height as int, b.x as int, b.y as int,
        ball.radius as int, ball.x as int, ball.y as int,
    )
}

/// Whether a brick hit on this edge flips the horizontal component: the ball
/// must be moving toward the struck side.
pub open spec fn brick_hit_vx(e: BounceEdge, vx: int) -> bool {
    (vx < 0 && e == BounceEdge::Right) || (vx > 0 && e == BounceEdge::Left)
}

/// Whether a brick hit on this edge flips the vertical component.
pub open spec fn brick_hit_vy(e: BounceEdge, vy: int) -> bool {
    (vy > 0 && e == BounceEdge::Bottom) || (vy < 0 && e == BounceEdge::Top)
}

/// Whether the ball, moving with `(vx, vy)`, bounces off this brick.
pub open spec fn brick_fires(ball: Ball, vx: int, vy: int, b: Brick) -> bool {
    brick_hit_vx(edge_of(ball, b), vx) || brick_hit_vy(edge_of(ball, b), vy)
}

/// The brick scan: walks the live bricks in order and resolves the first one
/// the ball bounces off, flipping the matching velocity components and
/// removing that brick; every other brick is kept in order.  Returns the new
/// velocity, the remaining bricks, and whether a brick was struck.
pub open spec fn scan_bricks(ball: Ball, vx: int, vy: int, bricks: Seq<Brick>) -> (
    int, int, Seq<Brick>, bool,
)
    decreases bricks.len(),
{
    if bricks.len() == 0 {
        (vx, vy, bricks, false)
    } else {
        let b = bricks[0];
        let hx = brick_hit_vx(edge_of(ball, b), vx);
        let hy = brick_hit_vy(edge_of(ball, b), vy);
        if hx || hy {
            (if hx { -vx } else { vx }, if hy { -vy } else { vy }, bricks.drop_first(), true)
        } else {
            let rest = scan_bricks(ball, vx, vy, bricks.drop_first());
            (rest.0, rest.1, seq![b] + rest.2, rest.3)
        }
    }
}

/// A scan that finds no bounce among the first `i` bricks equals the scan of
/// the rest, with the skipped prefix kept in place.
proof fn lemma_scan_skip(ball: Ball, vx: int, vy: int, bricks: Seq<Brick>, i: int)
    requires
        0 <= i <= bricks.len(),
        forall|j: int| 0 <= j < i ==> !brick_fires(ball, vx, vy, #[trigger] bricks[j]),
    ensures
        scan_bricks(ball, vx, vy, bricks).0 == scan_bricks(
            ball, vx, vy, bricks.subrange(i, bricks.len() as int),
        ).0,
        scan_bricks(ball, vx, vy, bricks).1 == scan_bricks(
            ball, vx, vy, bricks.subrange(i, bricks.len() as int),
        ).1,
        scan_bricks(ball, vx, vy, bricks).2 == bricks.subrange(0, i) + scan_bricks(
            ball, vx, vy, bricks.subrange(i, bricks.len() as int),
        ).2,
        scan_bricks(ball, vx, vy, bricks).3 == scan_bricks(
            ball, vx, vy, bricks.subrange(i, bricks.len() as int),
        ).3,
    decreases i,
{
    if i == 0 {
        assert(bricks.subrange(0, bricks.len() as int) =~= bricks);
        assert(bricks.subrange(0, 0) + scan_bricks(ball, vx, vy, bricks).2 =~= scan_bricks(
            ball, vx, vy, bricks,
        ).2);
    } else {
        let rest = bricks.drop_first();
        assert(!brick_fires(ball, vx, vy, bricks[0]));
        assert(forall|j: int| 0 <= j < i - 1 ==> !brick_fires(ball, vx, vy, #[trigger] rest[j]));
        lemma_scan_skip(ball, vx, vy, rest, i - 1);
        assert(rest.subrange(i - 1, rest.len() as int) =~= bricks.subrange(
            i, bricks.len() as int,
        ));
        let tail = scan_bricks(ball, vx, vy, bricks.subrange(i, bricks.len() as int));
        assert(seq![bricks[0]] + (rest.subrange(0, i - 1) + tail.2) =~= bricks.subrange(0, i)
            + tail.2);
    }
}

/// The full resolution of one ball against walls, paddle and bricks, as the
/// resolver performs it: the wall checks first, then the paddle check
/// against the wall-adjusted velocity, and the brick scan only when neither
/// recorded a collision.  Returns the ball's new velocity and the bricks
/// that remain live.
pub open spec fn resolve_one(
    cfg: Config, ball: Ball, v: Velocity, paddle: Paddle, bricks: Seq<Brick>,
) -> (int, int, Seq<Brick>) {
    let wv = wall_velocity(cfg, ball, v);
    let pf = paddle_hit(paddle, ball) && wv.1 < 0;
    let pv: (int, int) = if pf { deflect_velocity(paddle_ratio(paddle, ball)) } else { wv };
    if wall_collides(cfg, ball, v) || pf {
        (pv.0, pv.1, bricks)
    } else {
        let s = scan_bricks(ball, pv.0, pv.1, bricks);
        (s.0, s.1, s.2)
    }
}

/// Resolves one ball for this frame: flips velocity components on wall,
/// paddle and brick hits, removes a struck brick from the live set, and
/// returns the new velocity.  At most one brick is removed, and only when no
/// wall or paddle collision was recorded first.
#[verifier::loop_isolation(false)]
pub fn resolve_ball(
    cfg: &Config, ball: &Ball, vel: Velocity, paddle: &Paddle, bricks: &mut Vec<Brick>,
) -> (nv: Velocity)
    requires
        cfg.wf(),
        ball.wf(),
        vel.bounded(),
        paddle.wf(),
        forall|j: int| 0 <= j < old(bricks)@.len() ==> (#[trigger] old(bricks)@[j]).wf(),
    ensures
        nv.x as int == resolve_one(*cfg, *ball, vel, *paddle, old(bricks)@).0,
        nv.y as int == resolve_one(*cfg, *ball, vel, *paddle, old(bricks)@).1,
        final(bricks)@ == resolve_one(*cfg, *ball, vel, *paddle, old(bricks)@).2,
        nv.bounded(),
        forall|j: int| 0 <= j < final(bricks)@.len() ==> (#[trigger] final(bricks)@[j]).wf(),
{
    let mut v = vel;
    let mut collided = false;

    // bound at the top of the arena
    if ball.y >= cfg.stage_height - ball.radius && v.y > 0 {
        v.y = -v.y;
        collided = true;
    }

    // bound at the sides of the arena
    if ball.x >= cfg.stage_width - ball.radius && v.x > 0 {
        v.x = -v.x;
        collided = true;
    } else if ball.x <= ball.radius && v.x < 0 {
        v.x = -v.x;
        collided = true;
    }

    // bounce at the paddle: the hit rectangle is the paddle rectangle with
    // its left, right and top edges pushed out by the ball radius
    let paddle_left = paddle.x - paddle.width / 2;
    if point_in_rect(
        ball.x,
        ball.y,
        paddle_left - ball.radius,
        paddle.y,
        paddle_left + paddle.width + ball.radius,
        paddle.y + paddle.height / 2 + ball.radius,
    ) && v.y < 0 {
        let d = paddle.x - ball.x;
        proof {
            if d >= 0 {
                vstd::arithmetic::div_mod::lemma_div_pos_is_pos(1600 * d, paddle.width as int);
                vstd::arithmetic::div_mod::lemma_div_nonincreasing(1600 * d, paddle.width as int);
            } else {
                vstd::arithmetic::div_mod::lemma_div_pos_is_pos(1600 * -d, paddle.width as int);
                vstd::arithmetic::div_mod::lemma_div_nonincreasing(1600 * -d, paddle.width as int);
            }
        }
        let ratio = if d >= 0 { 1600 * d / paddle.width } else { -(1600 * -d / paddle.width) };
        v = deflect(ratio);
        collided = true;
    }

    // bounce at the bricks, skipped entirely once anything collided
    if !collided {
        let ghost orig = bricks@;
        let mut i: usize = 0;
        let mut fired = false;
        let mut hx = false;
        let mut hy = false;
        while i < bricks.len() && !fired
            invariant
                bricks@ == orig,
                i <= orig.len(),
                forall|j: int| 0 <= j < i ==> !brick_fires(
                    *ball, v.x as int, v.y as int, #[trigger] orig[j],
                ),
                fired ==> i < orig.len() && hx == brick_hit_vx(
                    edge_of(*ball, orig[i as int]), v.x as int,
                ) && hy == brick_hit_vy(edge_of(*ball, orig[i as int]), v.y as int) && (hx || hy),
            decreases orig.len() - i, (if fired { 0int } else { 1int }),
        {
            let b = bricks[i];
            let e = in_brick_hitbox(b.width, b.height, b.x, b.y, ball.radius, ball.x, ball.y);
            // test if the ball is going towards the brick
            hx = (v.x < 0 && e == BounceEdge::Right) || (v.x > 0 && e == BounceEdge::Left);
            hy = (v.y > 0 && e == BounceEdge::Bottom) || (v.y < 0 && e == BounceEdge::Top);
            if hx || hy {
                fired = true;
            } else {
                i = i + 1;
            }
        }
        proof {
            lemma_scan_skip(*ball, v.x as int, v.y as int, orig, i as int);
        }
        if fired {
            if hx {
                v.x = -v.x;
            }
            if hy {
                v.y = -v.y;
            }
            bricks.remove(i);
            proof {
                assert(orig.subrange(i as int, orig.len() as int).drop_first() =~= orig.subrange(
                    i + 1, orig.len() as int,
                ));
                assert(bricks@ =~= orig.subrange(0, i as int) + orig.subrange(
                    i as int, orig.len() as int,
                ).drop_first());
            }
        } else {
            proof {
                assert(bricks@ =~= orig.subrange(0, i as int) + scan_bricks(
                    *ball, v.x as int, v.y as int, orig.subrange(i as int, orig.len() as int),
                ).2);
            }
        }
    }
    v
}

/// The brick scan never destroys more than one brick: it leaves the live set
/// unchanged or removes exactly one brick from it.
proof fn lemma_scan_removes_at_most_one(ball: Ball, vx: int, vy: int, bricks: Seq<Brick>)
    ensures
        scan_bricks(ball, vx, vy, bricks).2 == bricks || exists|i: int|
            0 <= i < bricks.len() && scan_bricks(ball, vx, vy, bricks).2 == bricks.remove(i),
    decreases bricks.len(),
{
    if bricks.len() > 0 {
        let b = bricks[0];
        let hx = brick_hit_vx(edge_of(ball, b), vx);
        let hy = brick_hit_vy(edge_of(ball, b), vy);
        if hx || hy {
            assert(bricks.drop_first() =~= bricks.remove(0));
        } else {
            let tail = bricks.drop_first();
            lemma_scan_removes_at_most_one(ball, vx, vy, tail);
            let rest = scan_bricks(ball, vx, vy, tail);
            if rest.2 == tail {
                assert(seq![b] + tail =~= bricks);
            } else {
                let i = choose|i: int| 0 <= i < tail.len() && rest.2 == tail.remove(i);
                assert(seq![b] + tail.remove(i) =~= bricks.remove(i + 1));
            }
        }
    }
}

/// After one resolver pass over one ball, at most one brick is destroyed:
/// the live set is unchanged or exactly one brick is removed from it.  When
/// a wall or paddle collision was recorded in the same pass, no brick is
/// destroyed at all; wall and paddle bounces never touch the brick set.
pub proof fn lemma_at_most_one_brick(
    cfg: Config, ball: Ball, v: Velocity, paddle: Paddle, bricks: Seq<Brick>,
)
    ensures
        resolve_one(cfg, ball, v, paddle, bricks).2 == bricks || exists|i: int|
            0 <= i < bricks.len() && resolve_one(cfg, ball, v, paddle, bricks).2 == bricks.remove(
                i,
            ),
        wall_collides(cfg, ball, v) || (paddle_hit(paddle, ball) && wall_velocity(
            cfg, ball, v,
        ).1 < 0) ==> resolve_one(cfg, ball, v, paddle, bricks).2 == bricks,
{
    let wv = wall_velocity(cfg, ball, v);
    let pf = paddle_hit(paddle, ball) && wv.1 < 0;
    if !(wall_collides(cfg, ball, v) || pf) {
        let pv: (int, int) = if pf { deflect_velocity(paddle_ratio(paddle, ball)) } else { wv };
        lemma_scan_removes_at_most_one(ball, pv.0, pv.1, bricks);
    }
}

/// Wall reflection is exact: a ball at the right wall moving outward leaves
/// with its horizontal component negated and, when the top wall does not
/// fire in the same pass, its vertical component kept.
pub proof fn lemma_wall_reflection(cfg: Config, ball: Ball, v: Velocity)
    requires
        ball.x >= cfg.stage_width - ball.radius,
        v.x > 0,
        !(ball.y >= cfg.stage_height - ball.radius && v.y > 0),
    ensures
        wall_velocity(cfg, ball, v).0 == -v.x,
        wall_velocity(cfg, ball, v).1 == v.y,
{
}

/// Wall bounces preserve the squared speed exactly: each check at most
/// negates one component.
pub proof fn lemma_wall_speed_preserved(cfg: Config, ball: Ball, v: Velocity)
    ensures
        ({
            let w = wall_velocity(cfg, ball, v);
            w.0 * w.0 + w.1 * w.1 == v.x * v.x + v.y * v.y
        }),
{
    assert((-(v.x as int)) * (-(v.x as int)) == (v.x as int) * (v.x as int)) by (nonlinear_arith);
    assert((-(v.y as int)) * (-(v.y as int)) == (v.y as int) * (v.y as int)) by (nonlinear_arith);
}

/// A paddle bounce leaves at speed exactly `BOUNCE_SPEED`, whatever the
/// incoming speed and wherever the ball struck: every entry of the
/// deflection table lies on the circle of that radius.
pub proof fn lemma_paddle_bounce_speed(ratio: int)
    ensures
        ({
            let d = deflect_velocity(ratio);
            d.0 * d.0 + d.1 * d.1 == BOUNCE_SPEED * BOUNCE_SPEED
        }),
{
    let d = deflect_velocity(ratio);
    let a = if d.0 >= 0 { d.0 } else { -d.0 };
    assert(d.0 * d.0 == a * a) by (nonlinear_arith)
        requires
            a == if d.0 >= 0 { d.0 } else { -d.0 },
    ;
    assert((a == 0 && d.1 == 80_000) || (a == 22_400 && d.1 == 76_800) || (a == 28_160 && d.1
        == 74_880) || (a == 43_008 && d.1 == 67_456) || (a == 48_000 && d.1 == 64_000) || (a
        == 64_000 && d.1 == 48_000) || (a == 67_456 && d.1 == 43_008) || (a == 74_880 && d.1
        == 28_160) || (a == 76_800 && d.1 == 22_400) || (a == 80_000 && d.1 == 0));
    assert(a * a + d.1 * d.1 == 80_000 * 80_000) by (nonlinear_arith)
        requires
            (a == 0 && d.1 == 80_000) || (a == 22_400 && d.1 == 76_800) || (a == 28_160 && d.1
                == 74_880) || (a == 43_008 && d.1 == 67_456) || (a == 48_000 && d.1 == 64_000) || (
            a == 64_000 && d.1 == 48_000) || (a == 67_456 && d.1 == 43_008) || (a == 74_880 && d.1
                == 28_160) || (a == 76_800 && d.1 == 22_400) || (a == 80_000 && d.1 == 0),
    ;
}

/// A dead-centre paddle hit leaves straight up: offset zero gives the
/// vertical table entry, and a ball exactly under the paddle centre has
/// offset zero.
pub proof fn lemma_paddle_bounce_centered(paddle: Paddle, ball: Ball)
    requires
        paddle.x == ball.x,
        paddle.width > 0,
    ensures
        paddle_ratio(paddle, ball) == 0,
        deflect_velocity(paddle_ratio(paddle, ball)).0 == 0,
        deflect_velocity(paddle_ratio(paddle, ball)).1 == BOUNCE_SPEED,
{
    assert(1600 * 0 == 0);
    vstd::arithmetic::div_mod::lemma_div_of0(paddle.width as int);
}

/// A ball approaching a brick from directly below, centred on the brick's
/// width, is classified BOTTOM, never a side.  It holds whenever the corner
/// triangles, which reach half a brick height inward from the hit
/// rectangle's sides, stop short of the centre column; a brick at least as
/// wide as it is tall satisfies that for every positive radius.
pub proof fn lemma_below_centre_is_bottom(b: Brick, radius: int, y: int)
    requires
        b.wf(),
        0 < radius,
        b.height / 2 < b.width / 2 + radius,
        b.y - b.height / 2 - radius <= y < b.y,
    ensures
        brick_edge(
            b.width as int, b.height as int, b.x as int, b.y as int, radius, b.x as int, y,
        ) == BounceEdge::Bottom,
{
    let w = b.width as int;
    let h = b.height as int;
    let bx = b.x as int;
    let cy = b.y as int;
    let hh = h / 2;
    let halfw = w / 2;
    let l = bx - halfw - radius;
    let bot = cy - hh - radius;
    let rgt = l + w + 2 * radius;
    let top = bot + h + 2 * radius;
    assert(2 * hh == h && 2 * halfw == w);
    assert(top == cy + hh + radius && rgt == bx + halfw + radius);

    // the left corner triangle does not reach the centre column
    let dl = tri_d(l, top, l + hh, cy, l, bot);
    assert(dl == hh * (bot - top)) by (nonlinear_arith)
        requires
            dl == -cy * l + top * (-(l + hh) + l) + l * (cy - bot) + (l + hh) * bot,
    ;
    let s_left = tri_s_num(bx, y, l, top, l, bot);
    let t_left = tri_t_num(bx, y, l, top, l + hh, cy);
    assert(s_left == (top - bot) * (l - bx)) by (nonlinear_arith)
        requires
            s_left == top * l - l * bot + (bot - top) * bx + (l - l) * y,
    ;
    assert(t_left == (cy - top) * (l - bx) + hh * (y - top)) by (nonlinear_arith)
        requires
            t_left == l * cy - top * (l + hh) + (top - cy) * bx + (l + hh - l) * y,
    ;
    assert(!(t_left <= 0 && s_left + t_left >= dl)) by (nonlinear_arith)
        requires
            dl == hh * (bot - top),
            s_left == (top - bot) * (l - bx),
            t_left == (cy - top) * (l - bx) + hh * (y - top),
            top == cy + hh + radius,
            bot == cy - hh - radius,
            l == bx - halfw - radius,
            0 < hh,
            0 < radius,
            hh < halfw + radius,
            y < cy,
    ;
    assert(dl < 0) by (nonlinear_arith)
        requires
            dl == hh * (bot - top),
            bot < top,
            0 < hh,
    ;
    assert(!in_tri(bx, y, l, top, l + hh, cy, l, bot));

    // nor does the right corner triangle
    let dr = tri_d(rgt, top, rgt - hh, cy, rgt, bot);
    let s_right = tri_s_num(bx, y, rgt, top, rgt, bot);
    let t_right = tri_t_num(bx, y, rgt, top, rgt - hh, cy);
    assert(dr == hh * (top - bot)) by (nonlinear_arith)
        requires
            dr == -cy * rgt + top * (-(rgt - hh) + rgt) + rgt * (cy - bot) + (rgt - hh) * bot,
    ;
    assert(s_right == (top - bot) * (rgt - bx)) by (nonlinear_arith)
        requires
            s_right == top * rgt - rgt * bot + (bot - top) * bx + (rgt - rgt) * y,
    ;
    assert(t_right == (cy - top) * (rgt - bx) + hh * (top - y)) by (nonlinear_arith)
        requires
            t_right == rgt * cy - top * (rgt - hh) + (top - cy) * bx + (rgt - hh - rgt) * y,
    ;
    assert(!(t_right >= 0 && s_right + t_right <= dr)) by (nonlinear_arith)
        requires
            dr == hh * (top - bot),
            s_right == (top - bot) * (rgt - bx),
            t_right == (cy - top) * (rgt - bx) + hh * (top - y),
            top == cy + hh + radius,
            bot == cy - hh - radius,
            rgt == bx + halfw + radius,
            0 < hh,
            0 < radius,
            hh < halfw + radius,
            y < cy,
    ;
    assert(dr > 0) by (nonlinear_arith)
        requires
            dr == hh * (top - bot),
            bot < top,
            0 < hh,
    ;
    assert(!in_tri(bx, y, rgt, top, rgt - hh, cy, rgt, bot));

    // below the centre line means outside the top band, inside the bottom one
    assert(!in_rect(bx, y, l, cy, rgt, top));
    assert(in_rect(bx, y, l, bot, rgt, cy));
}

/// The whole frame's resolution from the `i`-th ball on: each ball is
/// resolved in turn against the bricks the earlier balls left live.
pub open spec fn resolve_frame(
    cfg: Config, balls: Seq<Ball>, vels: Seq<Velocity>, paddle: Paddle, bricks: Seq<Brick>,
    i: int,
) -> (Seq<Velocity>, Seq<Brick>)
    decreases balls.len() - i,
{
    if i < 0 || i >= balls.len() || vels.len() != balls.len() {
        (vels, bricks)
    } else {
        let r = resolve_one(cfg, balls[i], vels[i], paddle, bricks);
        resolve_frame(
            cfg,
            balls,
            vels.update(i, Velocity { x: r.0 as i64, y: r.1 as i64 }),
            paddle,
            r.2,
            i + 1,
        )
    }
}

impl BounceSystem {
    /// Checks every ball for collisions and bounces it off accordingly,
    /// updating its velocity in place and removing the bricks that were
    /// struck.  The balls are resolved in order, each seeing the bricks the
    /// earlier ones left live.
    #[verifier::loop_isolation(false)]
    pub fn run(
        &self, cfg: &Config, balls: &Vec<Ball>, velocities: &mut Vec<Velocity>, paddle: &Paddle,
        bricks: &mut Vec<Brick>,
    )
        requires
            cfg.wf(),
            paddle.wf(),
            balls@.len() == old(velocities)@.len(),
            forall|j: int| 0 <= j < balls@.len() ==> (#[trigger] balls@[j]).wf(),
            forall|j: int|
                0 <= j < old(velocities)@.len() ==> (#[trigger] old(velocities)@[j]).bounded(),
            forall|j: int| 0 <= j < old(bricks)@.len() ==> (#[trigger] old(bricks)@[j]).wf(),
        ensures
            final(velocities)@ == resolve_frame(
                *cfg, balls@, old(velocities)@, *paddle, old(bricks)@, 0,
            ).0,
            final(bricks)@ == resolve_frame(
                *cfg, balls@, old(velocities)@, *paddle, old(bricks)@, 0,
            ).1,
            final(velocities)@.len() == balls@.len(),
            forall|j: int|
                0 <= j < final(velocities)@.len() ==> (#[trigger] final(velocities)@[j]).bounded(),
            forall|j: int| 0 <= j < final(bricks)@.len() ==> (#[trigger] final(bricks)@[j]).wf(),
    {
        let mut i: usize = 0;
        while i < balls.len()
            invariant
                i <= balls@.len(),
                velocities@.len() == balls@.len(),
                forall|j: int|
                    0 <= j < velocities@.len() ==> (#[trigger] velocities@[j]).bounded(),
                forall|j: int| 0 <= j < bricks@.len() ==> (#[trigger] bricks@[j]).wf(),
                resolve_frame(*cfg, balls@, velocities@, *paddle, bricks@, i as int)
                    == resolve_frame(*cfg, balls@, old(velocities)@, *paddle, old(bricks)@, 0),
            decreases balls@.len() - i,
        {
            let ball = balls[i];
            let vel = velocities[i];
            let ghost before_vels = velocities@;
            let ghost before_bricks = bricks@;
            let nv = resolve_ball(cfg, &ball, vel, paddle, bricks);
            velocities.set(i, nv);
            proof {
                let r = resolve_one(*cfg, balls@[i as int], before_vels[i as int], *paddle,
                    before_bricks);
                assert(nv == (Velocity { x: r.0 as i64, y: r.1 as i64 }));
                assert(velocities@ == before_vels.update(
                    i as int, Velocity { x: r.0 as i64, y: r.1 as i64 },
                ));
            }
            i = i + 1;
        }
    }
}

} // verus!
