use breakout::bounce::{in_brick_hitbox, resolve_ball, BounceEdge, BounceSystem};
use breakout::breakout::{initialize_paddle, Ball, Brick, Config, Paddle, Velocity};

fn default_paddle() -> Paddle {
    initialize_paddle(&Config::default())
}

fn ball_at(x: i64, y: i64) -> Ball {
    Ball { x, y, radius: 2_000_000 }
}

fn brick_at(x: i64, y: i64) -> Brick {
    Brick { x, y, width: 16_000_000, height: 6_000_000, variant: 0 }
}

#[test]
fn right_wall_reflects_exactly() {
    let cfg = Config::default();
    let paddle = default_paddle();
    let mut bricks: Vec<Brick> = Vec::new();
    // at the right wall, moving outward, far from top wall and paddle
    let ball = ball_at(318_000_000, 90_000_000);
    let v = Velocity { x: 40_000, y: 70_000 };
    let nv = resolve_ball(&cfg, &ball, v, &paddle, &mut bricks);
    assert_eq!(nv.x, -40_000);
    assert_eq!(nv.y, 70_000);
    // speed magnitude is preserved exactly
    assert_eq!(nv.x * nv.x + nv.y * nv.y, v.x * v.x + v.y * v.y);
}

#[test]
fn left_wall_reflects_exactly() {
    let cfg = Config::default();
    let paddle = default_paddle();
    let mut bricks: Vec<Brick> = Vec::new();
    let ball = ball_at(1_500_000, 90_000_000);
    let nv = resolve_ball(&cfg, &ball, Velocity { x: -40_000, y: 70_000 }, &paddle, &mut bricks);
    assert_eq!(nv.x, 40_000);
    assert_eq!(nv.y, 70_000);
}

#[test]
fn top_wall_flips_vertical() {
    let cfg = Config::default();
    let paddle = default_paddle();
    let mut bricks: Vec<Brick> = Vec::new();
    let ball = ball_at(160_000_000, 179_000_000);
    let nv = resolve_ball(&cfg, &ball, Velocity { x: 40_000, y: 70_000 }, &paddle, &mut bricks);
    assert_eq!(nv.x, 40_000);
    assert_eq!(nv.y, -70_000);
}

#[test]
fn wall_needs_outward_motion() {
    let cfg = Config::default();
    let paddle = default_paddle();
    let mut bricks: Vec<Brick> = Vec::new();
    // at the right wall but already moving back in: no flip
    let ball = ball_at(318_000_000, 90_000_000);
    let nv = resolve_ball(&cfg, &ball, Velocity { x: -40_000, y: 70_000 }, &paddle, &mut bricks);
    assert_eq!(nv.x, -40_000);
    assert_eq!(nv.y, 70_000);
}

#[test]
fn paddle_centre_bounce_goes_straight_up() {
    let cfg = Config::default();
    let paddle = default_paddle();
    let mut bricks: Vec<Brick> = Vec::new();
    // dead centre over the paddle, falling
    let ball = ball_at(paddle.x, 8_000_000);
    let nv = resolve_ball(&cfg, &ball, Velocity { x: 33_000, y: -50_000 }, &paddle, &mut bricks);
    assert_eq!(nv.x, 0);
    assert_eq!(nv.y, 80_000);
}

#[test]
fn paddle_bounce_speed_is_always_80() {
    let cfg = Config::default();
    let paddle = default_paddle();
    // several impact offsets, several incoming speeds
    for (dx, vx, vy) in [
        (0i64, 5_000i64, -5_000i64),
        (4_000_000, 40_000, -70_000),
        (-4_000_000, 200_000, -900_000),
        (10_000_000, 1_000, -144_000),
        (-10_000_000, 0, -50_000),
        (15_000_000, 70_000, -70_000),
    ] {
        let mut bricks: Vec<Brick> = Vec::new();
        let ball = ball_at(paddle.x - dx, 8_000_000);
        let nv = resolve_ball(&cfg, &ball, Velocity { x: vx, y: vy }, &paddle, &mut bricks);
        assert_eq!(
            nv.x * nv.x + nv.y * nv.y,
            80_000i64 * 80_000,
            "offset {} must leave at speed 80",
            dx
        );
    }
}

#[test]
fn paddle_bounce_direction_follows_offset() {
    let cfg = Config::default();
    let paddle = default_paddle();
    // struck left of centre: leaves to the left
    let mut bricks: Vec<Brick> = Vec::new();
    let ball = ball_at(paddle.x - 10_000_000, 8_000_000);
    let nv = resolve_ball(&cfg, &ball, Velocity { x: 40_000, y: -70_000 }, &paddle, &mut bricks);
    assert_eq!(nv.x, -48_000);
    assert_eq!(nv.y, 64_000);
    // struck right of centre: leaves to the right
    let mut bricks: Vec<Brick> = Vec::new();
    let ball = ball_at(paddle.x + 10_000_000, 8_000_000);
    let nv = resolve_ball(&cfg, &ball, Velocity { x: 40_000, y: -70_000 }, &paddle, &mut bricks);
    assert_eq!(nv.x, 48_000);
    assert_eq!(nv.y, 64_000);
}

#[test]
fn paddle_ignores_rising_ball() {
    let cfg = Config::default();
    let paddle = default_paddle();
    let mut bricks: Vec<Brick> = Vec::new();
    let ball = ball_at(paddle.x, 8_000_000);
    let nv = resolve_ball(&cfg, &ball, Velocity { x: 33_000, y: 50_000 }, &paddle, &mut bricks);
    assert_eq!(nv.x, 33_000);
    assert_eq!(nv.y, 50_000);
}

#[test]
fn approach_from_below_is_bottom() {
    // centred under the brick, just inside the expanded rectangle
    let e = in_brick_hitbox(16_000_000, 6_000_000, 88_000_000, 177_000_000, 2_000_000, 88_000_000, 172_000_000);
    assert!(e == BounceEdge::Bottom);
}

#[test]
fn approach_from_the_left_is_left() {
    // level with the brick centre, just left of the expanded rectangle edge
    let e = in_brick_hitbox(16_000_000, 6_000_000, 88_000_000, 177_000_000, 2_000_000, 78_500_000, 177_000_000);
    assert!(e == BounceEdge::Left);
}

#[test]
fn far_away_is_outside() {
    let e = in_brick_hitbox(16_000_000, 6_000_000, 88_000_000, 177_000_000, 2_000_000, 10_000_000, 10_000_000);
    assert!(e == BounceEdge::Outside);
}

#[test]
fn head_on_brick_hit_flips_and_destroys() {
    // the stage scenario: one brick from code 3 at (row 0, column 5), the
    // ball head on from below with no horizontal velocity
    let cfg = Config::default();
    let paddle = default_paddle();
    let mut bricks = vec![Brick { variant: 2, ..brick_at(88_000_000, 177_000_000) }];
    let ball = ball_at(88_000_000, 172_000_000);
    let nv = resolve_ball(&cfg, &ball, Velocity { x: 0, y: 50_000 }, &paddle, &mut bricks);
    assert_eq!(nv.x, 0);
    assert_eq!(nv.y, -50_000);
    assert_eq!(bricks.len(), 0);
}

#[test]
fn destroyed_brick_stays_gone() {
    let cfg = Config::default();
    let paddle = default_paddle();
    let mut bricks = vec![brick_at(88_000_000, 177_000_000)];
    let ball = ball_at(88_000_000, 172_000_000);
    let v1 = resolve_ball(&cfg, &ball, Velocity { x: 0, y: 50_000 }, &paddle, &mut bricks);
    assert_eq!(bricks.len(), 0);
    assert_eq!(v1.y, -50_000);
    // the next frame sees no brick at the former position: nothing collides
    let v2 = resolve_ball(&cfg, &ball, Velocity { x: 0, y: 50_000 }, &paddle, &mut bricks);
    assert_eq!(v2.x, 0);
    assert_eq!(v2.y, 50_000);
    assert_eq!(bricks.len(), 0);
}

#[test]
fn at_most_one_brick_per_pass() {
    // two bricks in the same spot: one pass may destroy only the first
    let cfg = Config::default();
    let paddle = default_paddle();
    let mut bricks = vec![brick_at(88_000_000, 177_000_000), brick_at(88_000_000, 177_000_000)];
    let ball = ball_at(88_000_000, 172_000_000);
    let nv = resolve_ball(&cfg, &ball, Velocity { x: 0, y: 50_000 }, &paddle, &mut bricks);
    assert_eq!(bricks.len(), 1);
    assert_eq!(nv.y, -50_000);
}

#[test]
fn wall_collision_shields_bricks() {
    // a ball that bounced off the top wall skips the brick scan this frame
    let cfg = Config::default();
    let paddle = default_paddle();
    let mut bricks = vec![brick_at(88_000_000, 177_000_000)];
    let ball = ball_at(88_000_000, 179_000_000);
    let nv = resolve_ball(&cfg, &ball, Velocity { x: 0, y: 50_000 }, &paddle, &mut bricks);
    assert_eq!(nv.y, -50_000);
    assert_eq!(bricks.len(), 1);
}

#[test]
fn side_brick_hit_flips_horizontal_only() {
    let cfg = Config::default();
    let paddle = default_paddle();
    let mut bricks = vec![brick_at(88_000_000, 90_000_000)];
    // level with the brick centre, to its left, moving right
    let ball = ball_at(78_500_000, 90_000_000);
    let nv = resolve_ball(&cfg, &ball, Velocity { x: 40_000, y: 1_000 }, &paddle, &mut bricks);
    assert_eq!(nv.x, -40_000);
    assert_eq!(nv.y, 1_000);
    assert_eq!(bricks.len(), 0);
}

#[test]
fn earlier_ball_shields_later_ball() {
    // both balls aim at the same brick; the first destroys it, so the second
    // sees an empty live set in the same frame and flies on
    let cfg = Config::default();
    let paddle = default_paddle();
    let balls = vec![ball_at(88_000_000, 172_000_000), ball_at(88_000_000, 171_000_000)];
    let mut velocities = vec![Velocity { x: 0, y: 50_000 }, Velocity { x: 0, y: 50_000 }];
    let mut bricks = vec![brick_at(88_000_000, 177_000_000)];
    let system = BounceSystem;
    system.run(&cfg, &balls, &mut velocities, &paddle, &mut bricks);
    assert_eq!(velocities[0], Velocity { x: 0, y: -50_000 });
    assert_eq!(velocities[1], Velocity { x: 0, y: 50_000 });
    assert_eq!(bricks.len(), 0);
}

#[test]
fn bounce_system_resolves_each_ball() {
    let cfg = Config::default();
    let paddle = default_paddle();
    let balls = vec![ball_at(318_000_000, 90_000_000), ball_at(88_000_000, 172_000_000)];
    let mut velocities = vec![Velocity { x: 40_000, y: 0 }, Velocity { x: 0, y: 50_000 }];
    let mut bricks = vec![brick_at(88_000_000, 177_000_000)];
    let system = BounceSystem;
    system.run(&cfg, &balls, &mut velocities, &paddle, &mut bricks);
    assert_eq!(velocities[0], Velocity { x: -40_000, y: 0 });
    assert_eq!(velocities[1], Velocity { x: 0, y: -50_000 });
    assert_eq!(bricks.len(), 0);
}
