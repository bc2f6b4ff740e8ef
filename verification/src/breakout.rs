//! Entities, the arena configuration, and the setup functions that place the
//! paddle, the ball and the bricks at the start of a session.

use vstd::prelude::*;

use crate::stage::{Stage, STAGE_COLS, STAGE_ROWS};

verus! {

/// Micro-units in one stage unit.
pub const UNIT: i64 = 1_000_000;

/// Largest coordinate or length, in micro-units, that the geometry accepts.
/// Products of two such values, and sums of a few products, stay far inside
/// `i128`; linear expressions stay far inside `i64`.
pub const POS_LIMIT: i64 = 1_000_000_000_000;

/// Largest velocity component, in micro-units per millisecond, that the
/// systems accept.
pub const VEL_LIMIT: i64 = 1_000_000_000;

/// Largest per-frame elapsed time, in milliseconds, that the systems accept
/// (one minute).
pub const DT_LIMIT: i64 = 60_000;

/// Stage width, in micro-units (320 stage units).
pub const STAGE_WIDTH: i64 = 320_000_000;
/// Stage height, in micro-units (180 stage units).
pub const STAGE_HEIGHT: i64 = 180_000_000;
/// Paddle width, in micro-units (32 stage units).
pub const PADDLE_WIDTH: i64 = 32_000_000;
/// Paddle height, in micro-units (4 stage units).
pub const PADDLE_HEIGHT: i64 = 4_000_000;
/// Paddle speed, in micro-units per millisecond (120 stage units per second).
pub const PADDLE_VELOCITY: i64 = 120_000;
/// Initial horizontal ball velocity (40 stage units per second).
pub const BALL_VELOCITY_X: i64 = 40_000;
/// Initial vertical ball velocity (70 stage units per second).
pub const BALL_VELOCITY_Y: i64 = 70_000;
/// Nominal top speed (150 stage units per second).  A design target only:
/// the resolver does not cap speeds with it.
pub const MAX_VELOCITY: i64 = 150_000;
/// Ball radius, in micro-units (2 stage units).
pub const BALL_RADIUS: i64 = 2_000_000;
/// Brick width, in micro-units (16 stage units).
pub const BRICK_WIDTH: i64 = 16_000_000;
/// Brick height, in micro-units (6 stage units).
pub const BRICK_HEIGHT: i64 = 6_000_000;
/// Grid codes above this mark no brick.
pub const BRICK_MAX: usize = 8;

/// Height of the paddle's resting line above the stage floor, in micro-units.
pub const PADDLE_BASE_Y: i64 = 2_000_000;
/// Height of the ball's starting point above the stage floor, in micro-units.
pub const BALL_START_Y: i64 = 6_000_000;

/// The arena configuration: stage size, entity sizes and speeds, all in the
/// fixed-point scales of the crate root.  Passing it explicitly (instead of
/// reading global constants) lets a caller run alternate arena sizes.
pub struct Config {
    /// Stage width in micro-units.
    pub stage_width: i64,
    /// Stage height in micro-units.
    pub stage_height: i64,
    /// Paddle width in micro-units.
    pub paddle_width: i64,
    /// Paddle height in micro-units.
    pub paddle_height: i64,
    /// Paddle speed in micro-units per millisecond.
    pub paddle_velocity: i64,
    /// Initial horizontal ball velocity in micro-units per millisecond.
    pub ball_velocity_x: i64,
    /// Initial vertical ball velocity in micro-units per millisecond.
    pub ball_velocity_y: i64,
    /// Nominal top speed in micro-units per millisecond; never enforced.
    pub max_velocity: i64,
    /// Ball radius in micro-units.
    pub ball_radius: i64,
    /// Brick width in micro-units.
    pub brick_width: i64,
    /// Brick height in micro-units.
    pub brick_height: i64,
}

impl Config {
    /// A usable arena: positive sizes (even, so that halving is exact),
    /// a paddle no wider than the stage, and everything within the limits
    /// that keep the geometry's arithmetic exact.
    pub open spec fn wf(self) -> bool {
        &&& 0 < self.stage_width <= POS_LIMIT
        &&& self.stage_width % 2 == 0
        &&& 0 < self.stage_height <= POS_LIMIT
        &&& 0 < self.paddle_width <= self.stage_width
        &&& self.paddle_width % 2 == 0
        &&& 0 < self.paddle_height <= POS_LIMIT
        &&& self.paddle_height % 2 == 0
        &&& 0 < self.ball_radius <= POS_LIMIT
        &&& 0 < self.brick_width <= POS_LIMIT
        &&& self.brick_width % 2 == 0
        &&& 0 < self.brick_height <= POS_LIMIT
        &&& self.brick_height % 2 == 0
        &&& self.brick_width * (STAGE_COLS as int) <= self.stage_width
        &&& self.brick_height * (STAGE_ROWS as int) <= self.stage_height
        &&& PADDLE_BASE_Y + self.paddle_height <= self.stage_height
        &&& BALL_START_Y <= self.stage_height
        &&& 0 <= self.paddle_velocity <= VEL_LIMIT
        &&& -VEL_LIMIT <= self.ball_velocity_x <= VEL_LIMIT
        &&& -VEL_LIMIT <= self.ball_velocity_y <= VEL_LIMIT
        &&& 0 <= self.max_velocity <= VEL_LIMIT
    }
}

impl Default for Config {
    /// The standard arena.
    fn default() -> (c: Config)
        ensures
            c.wf(),
            c.stage_width == STAGE_WIDTH,
            c.stage_height == STAGE_HEIGHT,
            c.paddle_width == PADDLE_WIDTH,
            c.paddle_height == PADDLE_HEIGHT,
            c.paddle_velocity == PADDLE_VELOCITY,
            c.ball_velocity_x == BALL_VELOCITY_X,
            c.ball_velocity_y == BALL_VELOCITY_Y,
            c.max_velocity == MAX_VELOCITY,
            c.ball_radius == BALL_RADIUS,
            c.brick_width == BRICK_WIDTH,
            c.brick_height == BRICK_HEIGHT,
    {
        Config {
            stage_width: STAGE_WIDTH,
            stage_height: STAGE_HEIGHT,
            paddle_width: PADDLE_WIDTH,
            paddle_height: PADDLE_HEIGHT,
            paddle_velocity: PADDLE_VELOCITY,
            ball_velocity_x: BALL_VELOCITY_X,
            ball_velocity_y: BALL_VELOCITY_Y,
            max_velocity: MAX_VELOCITY,
            ball_radius: BALL_RADIUS,
            brick_width: BRICK_WIDTH,
            brick_height: BRICK_HEIGHT,
        }
    }
}

/// A ball: centre position and radius, in micro-units.
#[derive(Clone, Copy, Debug, PartialEq, Eq, Structural)]
pub struct Ball {
    pub x: i64,
    pub y: i64,
    pub radius: i64,
}

impl Ball {
    /// Position within the geometry's limits, radius positive.
    pub open spec fn wf(self) -> bool {
        &&& -POS_LIMIT <= self.x <= POS_LIMIT
        &&& -POS_LIMIT <= self.y <= POS_LIMIT
        &&& 0 < self.radius <= POS_LIMIT
    }
}

/// A velocity vector, in micro-units per millisecond.
#[derive(Clone, Copy, Debug, PartialEq, Eq, Structural)]
pub struct Velocity {
    pub x: i64,
    pub y: i64,
}

impl Velocity {
    /// Both components within the limit that keeps reflections exact.
    pub open spec fn bounded(self) -> bool {
        &&& -VEL_LIMIT <= self.x <= VEL_LIMIT
        &&& -VEL_LIMIT <= self.y <= VEL_LIMIT
    }
}

/// The paddle: centre position, size, and movement speed.
#[derive(Clone, Copy, Debug, PartialEq, Eq, Structural)]
pub struct Paddle {
    /// Centre x, in micro-units.
    pub x: i64,
    /// Centre y, in micro-units.
    pub y: i64,
    /// Movement speed, in micro-units per millisecond.
    pub velocity: i64,
    /// Width in micro-units.
    pub width: i64,
    /// Height in micro-units.
    pub height: i64,
}

impl Paddle {
    /// Position within limits, sizes positive and even, speed non-negative.
    pub open spec fn wf(self) -> bool {
        &&& -POS_LIMIT <= self.x <= POS_LIMIT
        &&& -POS_LIMIT <= self.y <= POS_LIMIT
        &&& 0 <= self.velocity <= VEL_LIMIT
        &&& 0 < self.width <= POS_LIMIT
        &&& self.width % 2 == 0
        &&& 0 < self.height <= POS_LIMIT
        &&& self.height % 2 == 0
    }
}

/// A brick: centre position, size, and the visual variant a renderer shows.
#[derive(Clone, Copy, Debug, PartialEq, Eq, Structural)]
pub struct Brick {
    /// Centre x, in micro-units.
    pub x: i64,
    /// Centre y, in micro-units.
    pub y: i64,
    /// Width in micro-units.
    pub width: i64,
    /// Height in micro-units.
    pub height: i64,
    /// Visual variant, `0..8`; the resolver never reads it.
    pub variant: usize,
}

impl Brick {
    /// Position within limits, sizes positive and even.
    pub open spec fn wf(self) -> bool {
        &&& -POS_LIMIT <= self.x <= POS_LIMIT
        &&& -POS_LIMIT <= self.y <= POS_LIMIT
        &&& 0 < self.width <= POS_LIMIT
        &&& self.width % 2 == 0
        &&& 0 < self.height <= POS_LIMIT
        &&& self.height % 2 == 0
    }
}

/// Creates the paddle, centred on the bottom of the stage area.
pub fn initialize_paddle(cfg: &Config) -> (p: Paddle)
    requires
        cfg.wf(),
    ensures
        p.wf(),
        p.x == cfg.stage_width / 2,
        p.y == PADDLE_BASE_Y + cfg.paddle_height,
        p.velocity == cfg.paddle_velocity,
        p.width == cfg.paddle_width,
        p.height == cfg.paddle_height,
{
    Paddle {
        x: cfg.stage_width / 2,
        y: PADDLE_BASE_Y + cfg.paddle_height,
        velocity: cfg.paddle_velocity,
        width: cfg.paddle_width,
        height: cfg.paddle_height,
    }
}

/// Creates the ball just above the paddle line, with the configured initial
/// velocity.
pub fn initialize_ball(cfg: &Config) -> (r: (Ball, Velocity))
    requires
        cfg.wf(),
    ensures
        r.0.wf(),
        r.1.bounded(),
        r.0.x == cfg.stage_width / 2,
        r.0.y == BALL_START_Y,
        r.0.radius == cfg.ball_radius,
        r.1.x == cfg.ball_velocity_x,
        r.1.y == cfg.ball_velocity_y,
{
    let ball = Ball { x: cfg.stage_width / 2, y: BALL_START_Y, radius: cfg.ball_radius };
    let vel = Velocity { x: cfg.ball_velocity_x, y: cfg.ball_velocity_y };
    (ball, vel)
}

/// The bricks a grid row places, from column `c` on: one brick per code in
/// `1..=BRICK_MAX`, centred at `brick_width / 2 + c * brick_width` on the
/// given row line, with visual variant `code - 1`; other codes place none.
pub open spec fn row_bricks(cfg: Config, row: Seq<usize>, y: int, c: int) -> Seq<Brick>
    decreases row.len() - c,
{
    if c < 0 || c >= row.len() {
        Seq::empty()
    } else {
        let rest = row_bricks(cfg, row, y, c + 1);
        let code = row[c];
        if 0 < code <= BRICK_MAX {
            seq![
                Brick {
                    x: (cfg.brick_width / 2 + c * cfg.brick_width) as i64,
                    y: y as i64,
                    width: cfg.brick_width,
                    height: cfg.brick_height,
                    variant: (code - 1) as usize,
                },
            ] + rest
        } else {
            rest
        }
    }
}

/// The bricks a grid places, from row `r` on: rows run top to bottom, the
/// first row centred half a brick height below the stage top.
pub open spec fn stage_bricks(cfg: Config, grid: Seq<Seq<usize>>, r: int) -> Seq<Brick>
    decreases grid.len() - r,
{
    if r < 0 || r >= grid.len() {
        Seq::empty()
    } else {
        row_bricks(
            cfg,
            grid[r],
            cfg.stage_height - cfg.brick_height / 2 - r * cfg.brick_height,
            0,
        ) + stage_bricks(cfg, grid, r + 1)
    }
}

/// Creates the brick entities a stage grid describes, in reading order.
#[verifier::loop_isolation(false)]
pub fn initialize_stage(cfg: &Config, stage: &Stage) -> (bricks: Vec<Brick>)
    requires
        cfg.wf(),
        stage.wf(),
    ensures
        bricks@ == stage_bricks(*cfg, stage.grid(), 0),
        forall|j: int| 0 <= j < bricks@.len() ==> (#[trigger] bricks@[j]).wf(),
{
    let mut bricks: Vec<Brick> = Vec::new();
    let mut y: i64 = cfg.stage_height - cfg.brick_height / 2;
    let mut r: usize = 0;
    proof {
        assert(bricks@ + stage_bricks(*cfg, stage.grid(), 0) =~= stage_bricks(
            *cfg, stage.grid(), 0,
        ));
    }
    while r < stage.bricks.len()
        invariant
            r <= STAGE_ROWS,
            stage.bricks@.len() == STAGE_ROWS,
            y == cfg.stage_height - cfg.brick_height / 2 - r * cfg.brick_height,
            bricks@ + stage_bricks(*cfg, stage.grid(), r as int) == stage_bricks(
                *cfg, stage.grid(), 0,
            ),
            forall|j: int| 0 <= j < bricks@.len() ==> (#[trigger] bricks@[j]).wf(),
        decreases STAGE_ROWS - r,
    {
        proof {
            assert(stage.grid()[r as int] == stage.bricks@[r as int]@);
            assert(0 <= (r as int) * cfg.brick_height
                && (r as int) * cfg.brick_height + cfg.brick_height <= (STAGE_ROWS as int)
                * cfg.brick_height) by (nonlinear_arith)
                requires
                    0 <= (r as int),
                    (r as int) < (STAGE_ROWS as int),
                    0 < cfg.brick_height,
            ;
            assert((bricks@ + row_bricks(*cfg, stage.grid()[r as int], y as int, 0))
                + stage_bricks(*cfg, stage.grid(), r as int + 1) =~= bricks@ + (row_bricks(
                *cfg, stage.grid()[r as int], y as int, 0,
            ) + stage_bricks(*cfg, stage.grid(), r as int + 1)));
        }
        let row = &stage.bricks[r];
        let mut x: i64 = cfg.brick_width / 2;
        let mut c: usize = 0;
        while c < row.len()
            invariant
                c <= STAGE_COLS,
                row@.len() == STAGE_COLS,
                row@ == stage.grid()[r as int],
                x == cfg.brick_width / 2 + c * cfg.brick_width,
                bricks@ + row_bricks(*cfg, stage.grid()[r as int], y as int, c as int)
                    + stage_bricks(*cfg, stage.grid(), r as int + 1) == stage_bricks(
                    *cfg, stage.grid(), 0,
                ),
                forall|j: int| 0 <= j < bricks@.len() ==> (#[trigger] bricks@[j]).wf(),
            decreases STAGE_COLS - c,
        {
            proof {
                assert(0 <= (c as int) * cfg.brick_width
                    && (c as int) * cfg.brick_width + cfg.brick_width <= (STAGE_COLS as int)
                    * cfg.brick_width && (c as int + 1) * cfg.brick_width == (c as int)
                    * cfg.brick_width + cfg.brick_width) by (nonlinear_arith)
                    requires
                        0 <= (c as int),
                        (c as int) < (STAGE_COLS as int),
                        0 < cfg.brick_width,
                ;
            }
            let code = row[c];
            if code > 0 && code <= BRICK_MAX {
                let b = Brick {
                    x,
                    y,
                    width: cfg.brick_width,
                    height: cfg.brick_height,
                    variant: code - 1,
                };
                let ghost before = bricks@;
                bricks.push(b);
                proof {
                    assert(bricks@ + row_bricks(
                        *cfg, stage.grid()[r as int], y as int, c as int + 1,
                    ) =~= before + (seq![b] + row_bricks(
                        *cfg, stage.grid()[r as int], y as int, c as int + 1,
                    )));
                }
            }
            x = x + cfg.brick_width;
            c = c + 1;
        }
        proof {
            assert((r as int + 1) * cfg.brick_height == (r as int) * cfg.brick_height
                + cfg.brick_height) by (nonlinear_arith);
            assert(bricks@ + Seq::<Brick>::empty() + stage_bricks(
                *cfg, stage.grid(), r as int + 1,
            ) =~= bricks@ + stage_bricks(*cfg, stage.grid(), r as int + 1));
        }
        y = y - cfg.brick_height;
        r = r + 1;
    }
    proof {
        assert(bricks@ + Seq::<Brick>::empty() =~= bricks@);
    }
    bricks
}

} // verus!
