use breakout_core::body::{Body, Slot};
use breakout_core::clock::Clock;
use breakout_core::geom::{scale_velocity, Vec2i};
use breakout_core::world::{paddle_step, Input, World, PADDLE_MAX_X, PADDLE_MIN_X};

fn slot(x: i64, y: i64, hx: i64, hy: i64, vel: Option<(i64, i64)>, destructible: bool) -> Slot {
    Slot {
        body: Body {
            position: Vec2i { x, y },
            half_extent: Vec2i { x: hx, y: hy },
            velocity: vel.map(|(vx, vy)| Vec2i { x: vx, y: vy }),
            destructible,
        },
        alive: true,
    }
}

/// A small world: paddle far out of the way at slot 0, ball at slot 1, the
/// given extra bodies after them.
fn small_world(ball: Slot, extra: Vec<Slot>, dt_ms: u64) -> World {
    let mut bodies = vec![slot(0, -5000, 60, 10, None, false), ball];
    bodies.extend(extra);
    World {
        bodies,
        paddle: 0,
        ball: 1,
        score: 0,
        events: Vec::new(),
        dt_ms,
    }
}

fn ball_vel(w: &World) -> (i64, i64) {
    let v = w.bodies[w.ball].body.velocity.unwrap();
    (v.x, v.y)
}

#[test]
fn velocity_scaling_truncates_toward_zero() {
    assert_eq!(scale_velocity(500, 16), 8);
    assert_eq!(scale_velocity(-500, 16), -8);
    assert_eq!(scale_velocity(999, 1), 0);
    assert_eq!(scale_velocity(200, 1000), 200);
    assert_eq!(scale_velocity(0, 1000), 0);
}

#[test]
fn paddle_step_moves_and_clamps() {
    // 500 units per second for 16 ms is 8 units.
    assert_eq!(paddle_step(0, false, true, 16), 8);
    assert_eq!(paddle_step(0, true, false, 16), -8);
    // Both keys held cancel out; neither held stands still.
    assert_eq!(paddle_step(100, true, true, 16), 100);
    assert_eq!(paddle_step(100, false, false, 16), 100);
    // A full second of travel runs into the clamp.
    assert_eq!(paddle_step(0, false, true, 1000), PADDLE_MAX_X);
    assert_eq!(paddle_step(0, true, false, 1000), PADDLE_MIN_X);
}

#[test]
fn paddle_at_right_boundary_stays_put() {
    // Paddle already at the right clamp boundary, move-right held for one
    // tick: the position does not change.
    let mut w = World::new(16);
    let p = w.paddle;
    w.bodies[p].body.position.x = PADDLE_MAX_X;
    w.tick(Input { left: false, right: true });
    assert_eq!(w.bodies[p].body.position.x, PADDLE_MAX_X);
}

#[test]
fn paddle_never_leaves_clamp_range() {
    let mut w = World::new(1000);
    let p = w.paddle;
    for _ in 0..20 {
        w.tick(Input { left: true, right: false });
        let x = w.bodies[p].body.position.x;
        assert!(PADDLE_MIN_X <= x && x <= PADDLE_MAX_X);
    }
    assert_eq!(w.bodies[p].body.position.x, PADDLE_MIN_X);
}

#[test]
fn standard_world_layout() {
    let w = World::new(16);
    assert_eq!(w.body_count(), 70);
    assert_eq!(w.score(), 0);
    assert_eq!(w.paddle, 0);
    assert_eq!(w.ball, 1);
    // Paddle above the bottom wall.
    assert_eq!(w.bodies[0].body.position, Vec2i { x: 0, y: -240 });
    assert_eq!(w.bodies[0].body.half_extent, Vec2i { x: 60, y: 10 });
    // Ball launched down-right.
    assert_eq!(w.bodies[1].body.position, Vec2i { x: 0, y: -50 });
    assert_eq!(w.bodies[1].body.velocity, Some(Vec2i { x: 200, y: -200 }));
    // Walls: left, right, bottom, top.
    assert_eq!(w.bodies[2].body.position, Vec2i { x: -450, y: 0 });
    assert_eq!(w.bodies[2].body.half_extent, Vec2i { x: 5, y: 305 });
    assert_eq!(w.bodies[5].body.position, Vec2i { x: 0, y: 300 });
    assert_eq!(w.bodies[5].body.half_extent, Vec2i { x: 455, y: 5 });
    // An 8 by 8 brick grid, all live and destructible.
    let bricks: Vec<&Slot> = w.bodies[6..].iter().collect();
    assert_eq!(bricks.len(), 64);
    for b in &bricks {
        assert!(b.alive && b.body.destructible);
        assert_eq!(b.body.half_extent, Vec2i { x: 50, y: 15 });
    }
    assert_eq!(w.bodies[6].body.position, Vec2i { x: -380, y: -15 });
    assert_eq!(w.bodies[69].body.position, Vec2i { x: 355, y: 230 });
    // Nothing but bricks is destructible.
    for s in &w.bodies[..6] {
        assert!(!s.body.destructible);
    }
}

#[test]
fn wall_strike_flips_upward_motion_down() {
    // Ball just under the top wall moving up-right: the resolver flips the
    // y component and leaves x alone.
    let ball = slot(0, 285, 15, 15, Some((200, 300)), false);
    let wall = slot(0, 300, 455, 5, None, false);
    let mut w = small_world(ball, vec![wall], 16);
    w.check_ball_collisions();
    assert_eq!(ball_vel(&w), (200, -300));
    assert_eq!(w.score(), 0);
    assert_eq!(w.drain_events(), 1);
}

#[test]
fn ball_level_with_wall_centre_keeps_velocity() {
    // The ball's centre on the wall's centre line reads as face `Top`, and
    // an upward velocity already points away from that face: no flip.
    let ball = slot(0, 300, 15, 15, Some((200, 300)), false);
    let wall = slot(0, 300, 455, 5, None, false);
    let mut w = small_world(ball, vec![wall], 16);
    w.check_ball_collisions();
    assert_eq!(ball_vel(&w), (200, 300));
}

#[test]
fn repeated_overlap_does_not_flip_twice() {
    // Still overlapping the wall on the next tick, now moving away: the
    // directional guard keeps the velocity as it is.
    let ball = slot(0, 285, 15, 15, Some((200, 300)), false);
    let wall = slot(0, 300, 455, 5, None, false);
    let mut w = small_world(ball, vec![wall], 16);
    w.check_ball_collisions();
    assert_eq!(ball_vel(&w), (200, -300));
    w.check_ball_collisions();
    assert_eq!(ball_vel(&w), (200, -300));
}

#[test]
fn speed_magnitude_survives_resolution() {
    let ball = slot(0, 285, 15, 15, Some((200, 300)), false);
    let wall = slot(0, 300, 455, 5, None, false);
    let mut w = small_world(ball, vec![wall], 16);
    let (vx0, vy0) = ball_vel(&w);
    w.tick(Input { left: false, right: false });
    let (vx1, vy1) = ball_vel(&w);
    assert_eq!(vx1 * vx1 + vy1 * vy1, vx0 * vx0 + vy0 * vy0);
}

#[test]
fn fully_overlapped_brick_is_left_alone() {
    // Ball wholly inside a large destructible body: `Inside`, so no
    // velocity change, no destruction, no score increment.
    let ball = slot(0, 0, 15, 15, Some((50, 60)), false);
    let brick = slot(0, 0, 100, 100, None, true);
    let mut w = small_world(ball, vec![brick], 16);
    w.check_ball_collisions();
    assert_eq!(ball_vel(&w), (50, 60));
    assert_eq!(w.score(), 0);
    assert!(w.bodies[2].alive);
    // The overlap still counts as a collision for the audio collaborator.
    assert_eq!(w.drain_events(), 1);
}

#[test]
fn brick_is_destroyed_and_scored_once() {
    // A stationary ball lodged against a brick: the first pass destroys and
    // scores it, the second finds the slot dead and does nothing.
    let ball = slot(95, 0, 15, 15, Some((0, 0)), false);
    let brick = slot(100, 0, 10, 40, None, true);
    let mut w = small_world(ball, vec![brick], 16);
    w.check_ball_collisions();
    assert_eq!(w.score(), 1);
    assert!(!w.bodies[2].alive);
    assert_eq!(w.drain_events(), 1);
    w.check_ball_collisions();
    assert_eq!(w.score(), 1);
    assert!(!w.bodies[2].alive);
    assert_eq!(w.drain_events(), 0);
}

#[test]
fn five_ticks_five_bricks() {
    // 30 bricks, one struck per tick for 5 ticks: the scoreboard reads 5
    // and exactly 25 bricks remain.
    let ball = slot(0, 0, 15, 15, Some((100, 0)), false);
    let mut extra = Vec::new();
    for k in 0..5i64 {
        // Tall slim bricks along the ball's path, one reached per tick.
        extra.push(slot(100 + 100 * k, 0, 10, 40, None, true));
    }
    for k in 0..25i64 {
        extra.push(slot(100 * k, 10_000, 10, 40, None, true));
    }
    let mut w = small_world(ball, extra, 1000);
    for _ in 0..5 {
        w.tick(Input { left: false, right: false });
    }
    assert_eq!(w.score(), 5);
    let remaining = w
        .bodies
        .iter()
        .filter(|s| s.alive && s.body.destructible)
        .count();
    assert_eq!(remaining, 25);
    assert_eq!(w.drain_events(), 5);
}

#[test]
fn score_never_decreases_over_a_run() {
    let mut w = World::new(16);
    let mut last = w.score();
    for _ in 0..200 {
        w.tick(Input { left: false, right: false });
        assert!(w.score() >= last);
        last = w.score();
    }
}

#[test]
fn ball_bounces_inside_arena_walls() {
    // Ball, paddle and the four standard walls, run for a while: the
    // ball's box stays within the outer rectangle of the four walls.
    let ball = slot(0, -50, 15, 15, Some((200, -200)), false);
    let walls = vec![
        slot(-450, 0, 5, 305, None, false),
        slot(450, 0, 5, 305, None, false),
        slot(0, -300, 455, 5, None, false),
        slot(0, 300, 455, 5, None, false),
    ];
    let mut w = small_world(ball, walls, 16);
    w.bodies[0].body.position = Vec2i { x: 0, y: -240 };
    for _ in 0..600 {
        w.tick(Input { left: false, right: false });
        let b = w.bodies[w.ball].body;
        assert!(b.position.x - b.half_extent.x >= -455);
        assert!(b.position.x + b.half_extent.x <= 455);
        assert!(b.position.y - b.half_extent.y >= -305);
        assert!(b.position.y + b.half_extent.y <= 305);
    }
}

#[test]
fn ready_to_tick_accepts_standard_world() {
    let w = World::new(16);
    assert!(w.ready_to_tick());
}

#[test]
fn ready_to_tick_rejects_broken_worlds() {
    let mut w = World::new(16);
    w.dt_ms = 0;
    assert!(!w.ready_to_tick());
    let mut w2 = World::new(16);
    w2.bodies[1].body.velocity = None;
    assert!(!w2.ready_to_tick());
    let mut w3 = World::new(16);
    w3.bodies[1].body.position.x = i64::MAX / 2;
    assert!(!w3.ready_to_tick());
}

#[test]
fn clock_accumulates_whole_ticks() {
    let mut c = Clock::new(16);
    assert_eq!(c.advance(100), 6);
    assert_eq!(c.accumulator_ms, 4);
    assert_eq!(c.advance(12), 1);
    assert_eq!(c.accumulator_ms, 0);
    assert_eq!(c.advance(5), 0);
    assert_eq!(c.accumulator_ms, 5);
}
