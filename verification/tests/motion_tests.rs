use breakout::ball::MoveBallSystem;
use breakout::breakout::{initialize_ball, initialize_paddle, Ball, Config, Velocity};
use breakout::paddle::PaddleSystem;

#[test]
fn ball_moves_by_velocity_times_time() {
    let mut balls = vec![Ball { x: 10_000_000, y: 20_000_000, radius: 2_000_000 }];
    let velocities = vec![Velocity { x: 40_000, y: 70_000 }];
    let system = MoveBallSystem;
    system.run(&mut balls, &velocities, 100);
    assert_eq!(balls[0].x, 14_000_000);
    assert_eq!(balls[0].y, 27_000_000);
    assert_eq!(balls[0].radius, 2_000_000);
}

#[test]
fn ball_moves_independently_per_axis() {
    let mut balls = vec![
        Ball { x: 0, y: 0, radius: 2_000_000 },
        Ball { x: 5_000_000, y: 5_000_000, radius: 2_000_000 },
    ];
    let velocities = vec![Velocity { x: -30_000, y: 0 }, Velocity { x: 0, y: -10_000 }];
    let system = MoveBallSystem;
    system.run(&mut balls, &velocities, 50);
    assert_eq!(balls[0].x, -1_500_000);
    assert_eq!(balls[0].y, 0);
    assert_eq!(balls[1].x, 5_000_000);
    assert_eq!(balls[1].y, 4_500_000);
}

#[test]
fn zero_time_moves_nothing() {
    let mut balls = vec![Ball { x: 10_000_000, y: 20_000_000, radius: 2_000_000 }];
    let velocities = vec![Velocity { x: 40_000, y: 70_000 }];
    let system = MoveBallSystem;
    system.run(&mut balls, &velocities, 0);
    assert_eq!(balls[0].x, 10_000_000);
    assert_eq!(balls[0].y, 20_000_000);
}

#[test]
fn paddle_moves_with_axis() {
    let cfg = Config::default();
    let mut paddle = initialize_paddle(&cfg);
    let system = PaddleSystem;
    // full deflection right for 100 ms at 120 units per second: 12 units
    system.run(&cfg, &mut paddle, Some(1_000), 100);
    assert_eq!(paddle.x, 172_000_000);
    // half deflection left for 100 ms: 6 units back
    system.run(&cfg, &mut paddle, Some(-500), 100);
    assert_eq!(paddle.x, 166_000_000);
}

#[test]
fn paddle_is_clamped_at_the_right_edge() {
    let cfg = Config::default();
    let mut paddle = initialize_paddle(&cfg);
    let system = PaddleSystem;
    // a very large elapsed time cannot push the paddle past the wall
    system.run(&cfg, &mut paddle, Some(1_000), 60_000);
    assert_eq!(paddle.x, 304_000_000);
}

#[test]
fn paddle_is_clamped_at_the_left_edge() {
    let cfg = Config::default();
    let mut paddle = initialize_paddle(&cfg);
    let system = PaddleSystem;
    system.run(&cfg, &mut paddle, Some(-1_000), 60_000);
    assert_eq!(paddle.x, 16_000_000);
}

#[test]
fn absent_axis_is_a_no_op() {
    let cfg = Config::default();
    let mut paddle = initialize_paddle(&cfg);
    let before = paddle;
    let system = PaddleSystem;
    system.run(&cfg, &mut paddle, None, 1_000);
    assert_eq!(paddle, before);
}

#[test]
fn zero_axis_is_a_no_op() {
    let cfg = Config::default();
    let mut paddle = initialize_paddle(&cfg);
    let before = paddle;
    let system = PaddleSystem;
    system.run(&cfg, &mut paddle, Some(0), 1_000);
    assert_eq!(paddle, before);
}

#[test]
fn out_of_range_axis_is_clamped_defensively() {
    let cfg = Config::default();
    let mut full = initialize_paddle(&cfg);
    let mut wild = initialize_paddle(&cfg);
    let system = PaddleSystem;
    system.run(&cfg, &mut full, Some(1_000), 100);
    system.run(&cfg, &mut wild, Some(2_000), 100);
    assert_eq!(wild.x, full.x);
}

#[test]
fn paddle_movement_only_changes_position() {
    let cfg = Config::default();
    let mut paddle = initialize_paddle(&cfg);
    let before = paddle;
    let system = PaddleSystem;
    system.run(&cfg, &mut paddle, Some(700), 250);
    assert_eq!(paddle.y, before.y);
    assert_eq!(paddle.width, before.width);
    assert_eq!(paddle.height, before.height);
    assert_eq!(paddle.velocity, before.velocity);
}

#[test]
fn initial_entities_match_the_arena() {
    let cfg = Config::default();
    let paddle = initialize_paddle(&cfg);
    assert_eq!(paddle.x, 160_000_000);
    assert_eq!(paddle.y, 6_000_000);
    assert_eq!(paddle.width, 32_000_000);
    assert_eq!(paddle.height, 4_000_000);
    assert_eq!(paddle.velocity, 120_000);
    let (ball, velocity) = initialize_ball(&cfg);
    assert_eq!(ball.x, 160_000_000);
    assert_eq!(ball.y, 6_000_000);
    assert_eq!(ball.radius, 2_000_000);
    assert_eq!(velocity, Velocity { x: 40_000, y: 70_000 });
}
