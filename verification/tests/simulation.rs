use rustout::ball::Ball;
use rustout::blocks::{Block, Blocks};
use rustout::context::Context;
use rustout::entity::Entity;
use rustout::geometry::{Rect, Vec2};
use rustout::player::Player;
use rustout::SCALE;

// A square drawable area 20 units on a side, so the ball's edge is exactly
// one unit (65536) and the area center sits at (655360, 655360).
fn ctx(dt: i64) -> Context {
    Context {
        dt,
        drawable_area: Rect {
            min: Vec2 { x: 0, y: 0 },
            max: Vec2 { x: 1310720, y: 1310720 },
        },
        left_down: false,
        right_down: false,
    }
}

fn ball_at(pos_x: i64, pos_y: i64, dir_x: i64, dir_y: i64) -> Ball {
    Ball {
        pos: Vec2 { x: pos_x, y: pos_y },
        dir: Vec2 { x: dir_x, y: dir_y },
        dead: false,
        started: true,
    }
}

fn no_blocks() -> Blocks {
    Blocks { blocks: Vec::new() }
}

fn block_at(x: i64, y: i64) -> Block {
    Block {
        pos: Vec2 { x, y },
        size: Vec2 { x: 60000, y: 60000 },
        alive: true,
    }
}

#[test]
fn straight_boundary_bounce_reflects_and_clamps() {
    // Ball at the boundary center moving straight up; one tick overshoots
    // the top edge by 1308 subunits (about 0.02 units).
    let c = ctx(31195);
    let mut ball = ball_at(0, 0, 0, -SCALE);
    let mut blocks = no_blocks();
    let player = Player {
        pos: Vec2 { x: 0, y: 0 },
    };
    ball.update(&c, &mut blocks, &player);
    assert_eq!(ball.dir.x, 0);
    assert_eq!(ball.dir.y, SCALE);
    assert!(!ball.dead);
    // The corrected box's top edge sits exactly on the boundary's top edge.
    let bb = ball.get_bounding_box(&c);
    assert_eq!(bb.top(), 0);
}

#[test]
fn terminal_exit_sets_dead_and_keeps_direction() {
    let c = ctx(31195);
    let mut ball = ball_at(-400000, 0, 0, SCALE);
    let mut blocks = no_blocks();
    let player = Player {
        pos: Vec2 { x: 0, y: 0 },
    };
    ball.update(&c, &mut blocks, &player);
    assert!(ball.dead);
    assert_eq!(ball.dir.x, 0);
    assert_eq!(ball.dir.y, SCALE);
}

#[test]
fn dead_ball_never_moves_again() {
    let c = ctx(31195);
    let mut ball = ball_at(123, 456, 0, SCALE);
    ball.dead = true;
    let mut blocks = Blocks {
        blocks: vec![block_at(200000, 200000)],
    };
    let player = Player {
        pos: Vec2 { x: 0, y: 0 },
    };
    for _ in 0..3 {
        ball.update(&c, &mut blocks, &player);
        assert_eq!(ball.pos.x, 123);
        assert_eq!(ball.pos.y, 456);
        assert_eq!(ball.dir.y, SCALE);
        assert!(ball.dead);
        assert!(blocks.blocks[0].alive);
    }
}

#[test]
fn unlaunched_ball_tracks_paddle() {
    let c = ctx(31195);
    let mut ball = Ball {
        pos: Vec2 { x: 0, y: 0 },
        dir: Vec2 { x: 0, y: 0 },
        dead: false,
        started: false,
    };
    let mut blocks = no_blocks();
    let player = Player {
        pos: Vec2 { x: 77777, y: 0 },
    };
    ball.update(&c, &mut blocks, &player);
    assert_eq!(ball.pos.x, 77777);
    // Half the boundary's bottom minus two ball sizes.
    assert_eq!(ball.pos.y, 655360 - 2 * 65536);
    assert_eq!(ball.dir.x, 0);
    assert_eq!(ball.dir.y, 0);
}

#[test]
fn launch_direction_is_unit_and_steered() {
    let c = ctx(0);
    let mut ball = Ball {
        pos: Vec2 { x: 0, y: 0 },
        dir: Vec2 { x: 0, y: 0 },
        dead: false,
        started: false,
    };
    ball.launch(&c);
    assert!(ball.started);
    assert!(ball.dir.x > 0);
    assert!(ball.dir.y < 0);
    let mag = ball.dir.x * ball.dir.x + ball.dir.y * ball.dir.y;
    assert!((mag - SCALE * SCALE).abs() <= 16 * SCALE);

    let mut steered = Ball {
        pos: Vec2 { x: 0, y: 0 },
        dir: Vec2 { x: 0, y: 0 },
        dead: false,
        started: false,
    };
    let left = Context {
        left_down: true,
        ..ctx(0)
    };
    steered.launch(&left);
    assert!(steered.dir.x < 0);
    assert!(steered.dir.y < 0);
}

#[test]
fn full_obstacle_clear_one_strike_per_tick() {
    // Three obstacles, each struck exactly once across three ticks; the
    // aggregate all-dead fold (owned by the caller) then holds.
    let c = ctx(0);
    let mut blocks = Blocks {
        blocks: vec![
            block_at(200000, 200000),
            block_at(500000, 200000),
            block_at(800000, 200000),
        ],
    };
    let player = Player {
        pos: Vec2 { x: 0, y: 0 },
    };
    let mut ball = ball_at(0, 0, 0, -SCALE);
    let centers = [200000i64, 500000, 800000];
    for (i, bx) in centers.iter().enumerate() {
        ball.pos = Vec2 {
            x: bx - 655360,
            y: 240000 - 655360,
        };
        ball.update(&c, &mut blocks, &player);
        for (j, blk) in blocks.blocks.iter().enumerate() {
            assert_eq!(blk.alive, j > i, "tick {i}: block {j}");
        }
    }
    assert!(blocks.blocks.iter().all(|b| !b.alive));
}

#[test]
fn two_blocks_same_side_reflect_axis_once() {
    // Two blocks struck on the same side in one tick: the struck sides are
    // de-duplicated, so the vertical axis reflects exactly once.
    let c = ctx(0);
    let mut blocks = Blocks {
        blocks: vec![block_at(640000, 170000), block_at(670000, 170000)],
    };
    let player = Player {
        pos: Vec2 { x: 0, y: 0 },
    };
    let mut ball = ball_at(0, 230000 - 655360, 0, -SCALE);
    ball.update(&c, &mut blocks, &player);
    assert!(!blocks.blocks[0].alive);
    assert!(!blocks.blocks[1].alive);
    assert_eq!(ball.dir.y, SCALE);
    assert_eq!(ball.dir.x, 0);
}

#[test]
fn dead_obstacle_is_idempotent() {
    // A dead block overlapping the ball neither bounces it nor revives.
    let c = ctx(0);
    let mut blocks = Blocks {
        blocks: vec![Block {
            alive: false,
            ..block_at(655360, 600000)
        }],
    };
    let player = Player {
        pos: Vec2 { x: 0, y: 0 },
    };
    let mut ball = ball_at(0, 600000 - 655360 + 30000, 0, -SCALE);
    for _ in 0..4 {
        ball.update(&c, &mut blocks, &player);
        assert!(!blocks.blocks[0].alive);
        assert_eq!(ball.dir.y, -SCALE);
    }
}

#[test]
fn left_boundary_exit_bounces_rightward() {
    let c = ctx(0);
    let mut ball = ball_at(-700000, 0, -SCALE, 0);
    let mut blocks = no_blocks();
    let player = Player {
        pos: Vec2 { x: 0, y: 0 },
    };
    ball.update(&c, &mut blocks, &player);
    assert_eq!(ball.dir.x, SCALE);
    let bb = ball.get_bounding_box(&c);
    assert_eq!(bb.left(), 0);
}

#[test]
fn paddle_steering_depends_on_strike_offset() {
    let c = ctx(0);
    let player = Player {
        pos: Vec2 { x: 0, y: 0 },
    };
    // Paddle center is at (655360, 1271399).  Strike left of the paddle
    // center: the outgoing direction gains a negative horizontal component
    // where a centered strike keeps it at zero.
    let mut left_hit = ball_at(-100000, 1261399 - 655360, 0, -SCALE);
    let mut blocks = no_blocks();
    left_hit.update(&c, &mut blocks, &player);
    assert!(left_hit.dir.x < 0);
    assert!(left_hit.dir.y < 0);
    let mag = left_hit.dir.x * left_hit.dir.x + left_hit.dir.y * left_hit.dir.y;
    assert!((mag - SCALE * SCALE).abs() <= 16 * SCALE);

    let mut center_hit = ball_at(0, 1261399 - 655360, 0, -SCALE);
    center_hit.update(&c, &mut blocks, &player);
    assert_eq!(center_hit.dir.x, 0);
    assert!(left_hit.dir.x.abs() > center_hit.dir.x.abs());
}

#[test]
fn reset_restores_initial_state_and_revives_blocks() {
    let c = ctx(0);
    let mut blocks = Blocks {
        blocks: vec![block_at(200000, 200000), block_at(500000, 200000)],
    };
    blocks.blocks[0].alive = false;
    let mut player = Player {
        pos: Vec2 { x: 5000, y: 0 },
    };
    let mut ball = ball_at(1, 2, 0, SCALE);
    ball.dead = true;

    ball.reset();
    player.reset();
    blocks.reset();

    assert_eq!(ball.pos, Vec2 { x: 0, y: 0 });
    assert_eq!(ball.dir, Vec2 { x: 0, y: 0 });
    assert!(!ball.dead);
    assert!(!ball.started);
    assert_eq!(player.pos, Vec2 { x: 0, y: 0 });
    assert!(blocks.blocks.iter().all(|b| b.alive));
    // Geometry survives the reset.
    assert_eq!(blocks.blocks[1].pos, Vec2 { x: 500000, y: 200000 });
    let _ = c;
}

#[test]
fn player_held_keys_cancel_and_clamp() {
    let area_second = 65536;
    let both = Context {
        left_down: true,
        right_down: true,
        ..ctx(area_second)
    };
    let mut player = Player {
        pos: Vec2 { x: 0, y: 0 },
    };
    player.update(&both);
    assert_eq!(player.pos.x, 0);

    let right = Context {
        right_down: true,
        ..ctx(area_second)
    };
    player.update(&right);
    // One full second at one area-width per second runs into the clamp.
    assert_eq!(player.pos.x, 498076);
    let bb = player.get_bounding_box(&right);
    assert_eq!(bb.right(), 1310720);
}

#[test]
fn default_states_are_initial() {
    let ball = Ball::default();
    assert_eq!(ball.pos, Vec2 { x: 0, y: 0 });
    assert_eq!(ball.dir, Vec2 { x: 0, y: 0 });
    assert!(!ball.dead);
    assert!(!ball.started);
    let player = Player::default();
    assert_eq!(player.pos, Vec2 { x: 0, y: 0 });
    let blocks = Blocks::default();
    assert!(blocks.blocks.is_empty());
}

#[test]
fn zero_size_obstacle_handled_without_panic() {
    // Degenerate zero-size blocks: one sitting exactly on the ball's right
    // edge only touches and is not struck; one strictly inside the ball's
    // box is struck and resolved like any other block.  Neither panics.
    let c = ctx(0);
    let mut blocks = Blocks {
        blocks: vec![
            Block {
                pos: Vec2 { x: 688128, y: 655360 },
                size: Vec2 { x: 0, y: 0 },
                alive: true,
            },
            Block {
                pos: Vec2 { x: 655360, y: 640000 },
                size: Vec2 { x: 0, y: 0 },
                alive: true,
            },
        ],
    };
    let player = Player {
        pos: Vec2 { x: 0, y: 0 },
    };
    let mut ball = ball_at(0, 0, 0, -SCALE);
    ball.update(&c, &mut blocks, &player);
    assert!(blocks.blocks[0].alive);
    assert!(!blocks.blocks[1].alive);
}

#[test]
fn zero_size_area_does_not_panic() {
    let c = Context {
        dt: 2185,
        drawable_area: Rect {
            min: Vec2 { x: 500, y: 500 },
            max: Vec2 { x: 500, y: 500 },
        },
        left_down: false,
        right_down: false,
    };
    let mut blocks = no_blocks();
    let mut player = Player {
        pos: Vec2 { x: 0, y: 0 },
    };
    let mut ball = ball_at(0, 0, 0, -SCALE);
    player.update(&c);
    ball.update(&c, &mut blocks, &player);
}

#[test]
fn player_step_is_width_scaled_time() {
    let right = Context {
        right_down: true,
        ..ctx(655)
    };
    let mut player = Player {
        pos: Vec2 { x: 0, y: 0 },
    };
    player.update(&right);
    // width * dt / SCALE = 20 * 655.
    assert_eq!(player.pos.x, 13100);
}
