//! The world: the body store, the scoreboard, the collision-event queue and
//! the fixed-timestep tick that runs controller, integrator, detector and
//! resolver as one atomic step.

use vstd::prelude::*;
use crate::geom::{
    Vec2i, clamped, iabs, scaled, wf_coord, wf_dt, wf_vel, DT_LIMIT, POS_LIMIT,
};
use crate::body::{
    Body, Slot, lemma_live_brick_count_kill, lemma_live_brick_count_le, lemma_live_brick_count_mono,
    lemma_live_brick_count_nonneg, lemma_live_brick_count_update_same, live_brick_count,
};
use crate::detect::{face_of, Face};
use crate::resolve::{
    lemma_scan_accounting, lemma_scan_speed, resolve_velocity, scan_prefix, ScanState,
};

verus! {

// Arena geometry, in world units. The four walls form a fixed rectangle.
pub const LEFT_WALL_X: i64 = -450;
pub const RIGHT_WALL_X: i64 = 450;
pub const BOTTOM_WALL_Y: i64 = -300;
pub const TOP_WALL_Y: i64 = 300;
pub const WALL_THICKNESS: i64 = 10;

// The paddle: a 120 by 20 box moving at 500 units per second, clamped so it
// never overlaps a side wall: 450 - (10 + 120) / 2 = 385 on either side.
pub const PADDLE_HALF_WIDTH: i64 = 60;
pub const PADDLE_HALF_HEIGHT: i64 = 10;
pub const PADDLE_SPEED: i64 = 500;
pub const PADDLE_MIN_X: i64 = -385;
pub const PADDLE_MAX_X: i64 = 385;
pub const PADDLE_START_Y: i64 = -240;

// The ball: a 30 by 30 box, launched down-right at 400 units per second
// along the diagonal.
pub const BALL_HALF: i64 = 15;
pub const BALL_START_X: i64 = 0;
pub const BALL_START_Y: i64 = -50;
pub const BALL_START_VX: i64 = 200;
pub const BALL_START_VY: i64 = -200;

// The brick grid: 100 by 30 bricks, 5 apart, 20 in from the side walls and
// the ceiling, 270 above the bottom wall.
pub const BRICK_HALF_WIDTH: i64 = 50;
pub const BRICK_HALF_HEIGHT: i64 = 15;
pub const BRICK_GAP: i64 = 5;
pub const BRICK_SIDE_GAP: i64 = 20;
pub const BRICK_CEILING_GAP: i64 = 20;
pub const BRICK_PADDLE_GAP: i64 = 270;

/// The snapshot of held directional keys delivered once per tick.
#[derive(Clone, Copy, Debug)]
pub struct Input {
    pub left: bool,
    pub right: bool,
}

/// A collision happened this tick; the audio collaborator drains these and
/// plays a clip per event. No payload.
#[derive(Clone, Copy, Debug)]
pub struct CollisionEvent {}

/// Net direction of the held keys: both or neither cancel out.
pub open spec fn paddle_direction(left: bool, right: bool) -> int {
    (if right { 1int } else { 0int }) - (if left { 1int } else { 0int })
}

/// Where the paddle ends up: moved by `direction * speed * dt` and clamped
/// into the arena.
pub open spec fn paddle_target(x: int, left: bool, right: bool, dt_ms: int) -> int {
    clamped(
        x + scaled(paddle_direction(left, right) * PADDLE_SPEED, dt_ms),
        PADDLE_MIN_X as int,
        PADDLE_MAX_X as int,
    )
}

/// The paddle controller on one coordinate: computes `paddle_target`.
/// The result always lies within the clamp bounds.
pub fn paddle_step(x: i64, left: bool, right: bool, dt_ms: u64) -> (r: i64)
    requires
        wf_coord(x as int),
        dt_ms <= DT_LIMIT,
    ensures
        r as int == paddle_target(x as int, left, right, dt_ms as int),
        PADDLE_MIN_X <= r <= PADDLE_MAX_X,
{
    let mut dir: i64 = 0;
    if left {
        dir = dir - 1;
    }
    if right {
        dir = dir + 1;
    }
    let delta = crate::geom::scale_velocity(dir * PADDLE_SPEED, dt_ms);
    crate::geom::clamp_i64(x + delta, PADDLE_MIN_X, PADDLE_MAX_X)
}

/// Where a slot's x coordinate lands after one tick of integration: moved by
/// `velocity * dt` when the slot is live and velocity-bearing, else unmoved.
pub open spec fn integrated_x(s: Slot, dt_ms: int) -> int {
    match s.body.velocity {
        Some(v) => if s.alive {
            s.body.position.x + scaled(v.x as int, dt_ms)
        } else {
            s.body.position.x as int
        },
        None => s.body.position.x as int,
    }
}

pub open spec fn integrated_y(s: Slot, dt_ms: int) -> int {
    match s.body.velocity {
        Some(v) => if s.alive {
            s.body.position.y + scaled(v.y as int, dt_ms)
        } else {
            s.body.position.y as int
        },
        None => s.body.position.y as int,
    }
}

/// A slot after integration. Under `can_integrate` the casts are exact.
pub open spec fn integrated_slot(s: Slot, dt_ms: int) -> Slot {
    Slot {
        body: Body {
            position: Vec2i {
                x: integrated_x(s, dt_ms) as i64,
                y: integrated_y(s, dt_ms) as i64,
            },
            ..s.body
        },
        ..s
    }
}

/// The whole store after integration.
pub open spec fn integrated_seq(bodies: Seq<Slot>, dt_ms: int) -> Seq<Slot> {
    Seq::new(bodies.len(), |i: int| integrated_slot(bodies[i], dt_ms))
}

/// The store after the paddle controller has run.
pub open spec fn paddle_moved_seq(bodies: Seq<Slot>, paddle: int, input: Input, dt_ms: int) -> Seq<Slot> {
    let p = bodies[paddle];
    bodies.update(paddle, Slot {
        body: Body {
            position: Vec2i {
                x: paddle_target(p.body.position.x as int, input.left, input.right, dt_ms) as i64,
                y: p.body.position.y,
            },
            ..p.body
        },
        ..p
    })
}

/// The whole simulation state: the body store, the indices of the two
/// singleton bodies, the scoreboard, the event queue and the tick period.
pub struct World {
    pub bodies: Vec<Slot>,
    pub paddle: usize,
    pub ball: usize,
    pub score: u64,
    pub events: Vec<CollisionEvent>,
    pub dt_ms: u64,
}

impl World {
    /// Well-formedness: the store is seeded with one paddle and one ball,
    /// both live and indestructible, the ball velocity-bearing and the
    /// paddle not; every body is within the coordinate bounds; and the
    /// scoreboard has headroom for every brick still standing.
    pub open spec fn wf(self) -> bool {
        &&& (self.paddle as int) < self.bodies@.len()
        &&& (self.ball as int) < self.bodies@.len()
        &&& self.paddle != self.ball
        &&& forall|i: int| 0 <= i < self.bodies@.len() ==> self.bodies@[i].wf()
        &&& self.bodies@[self.ball as int].alive
        &&& self.bodies@[self.ball as int].body.velocity is Some
        &&& !self.bodies@[self.ball as int].body.destructible
        &&& self.bodies@[self.paddle as int].alive
        &&& self.bodies@[self.paddle as int].body.velocity is None
        &&& !self.bodies@[self.paddle as int].body.destructible
        &&& wf_dt(self.dt_ms as int)
        &&& self.score + live_brick_count(self.bodies@, self.bodies@.len() as int) <= u64::MAX
    }

    /// Integration keeps every coordinate inside the working range this
    /// tick (a machine limit: positions live in `i64`).
    pub open spec fn can_integrate(self) -> bool {
        forall|i: int| 0 <= i < self.bodies@.len() ==> {
            &&& wf_coord(integrated_x(self.bodies@[i], self.dt_ms as int))
            &&& wf_coord(integrated_y(self.bodies@[i], self.dt_ms as int))
        }
    }

    pub open spec fn ball_body(self) -> Body {
        self.bodies@[self.ball as int].body
    }

    /// The ball's velocity (zero if, contrary to well-formedness, it has
    /// none).
    pub open spec fn ball_velocity(self) -> Vec2i {
        match self.ball_body().velocity {
            Some(v) => v,
            None => Vec2i { x: 0, y: 0 },
        }
    }

    /// The scan state a tick's collision pass starts from.
    pub open spec fn scan_init(self) -> ScanState {
        ScanState {
            vx: self.ball_velocity().x as int,
            vy: self.ball_velocity().y as int,
            score: self.score as int,
            pending: Seq::empty(),
            events: 0,
        }
    }

    /// The scan state after the ball has been checked against every slot of
    /// this world's store, in store order.
    pub open spec fn scan_result(self) -> ScanState {
        scan_prefix(
            self.ball_body(),
            self.ball as int,
            self.bodies@,
            self.scan_init(),
            self.bodies@.len() as int,
        )
    }

    /// The paddle controller: moves the paddle by the held keys and clamps
    /// it into the arena. Nothing else changes.
    pub fn move_paddle(&mut self, input: Input)
        requires
            old(self).wf(),
        ensures
            final(self).wf(),
            final(self).bodies@ == paddle_moved_seq(
                old(self).bodies@, old(self).paddle as int, input, old(self).dt_ms as int),
            final(self).paddle == old(self).paddle,
            final(self).ball == old(self).ball,
            final(self).score == old(self).score,
            final(self).events@ == old(self).events@,
            final(self).dt_ms == old(self).dt_ms,
            final(self).bodies@.len() == old(self).bodies@.len(),
            forall|i: int| 0 <= i < final(self).bodies@.len() && i != old(self).paddle as int
                ==> final(self).bodies@[i] == old(self).bodies@[i],
            PADDLE_MIN_X <= final(self).bodies@[old(self).paddle as int].body.position.x <= PADDLE_MAX_X,
            final(self).bodies@[old(self).paddle as int].body.position.x as int
                == paddle_target(
                    old(self).bodies@[old(self).paddle as int].body.position.x as int,
                    input.left, input.right, old(self).dt_ms as int),
    {
        let i = self.paddle;
        let mut s = self.bodies[i];
        s.body.position.x = paddle_step(s.body.position.x, input.left, input.right, self.dt_ms);
        self.bodies.set(i, s);
        proof {
            lemma_live_brick_count_update_same(
                old(self).bodies@, i as int, s, old(self).bodies@.len() as int);
            assert(self.bodies@ =~= paddle_moved_seq(
                old(self).bodies@, old(self).paddle as int, input, old(self).dt_ms as int));
        }
    }

    /// The movement integrator: advances every live velocity-bearing body by
    /// `velocity * dt`. Order does not matter — the updates are independent.
    pub fn apply_velocity(&mut self)
        requires
            old(self).wf(),
            old(self).can_integrate(),
        ensures
            final(self).wf(),
            final(self).bodies@ == integrated_seq(old(self).bodies@, old(self).dt_ms as int),
            final(self).paddle == old(self).paddle,
            final(self).ball == old(self).ball,
            final(self).score == old(self).score,
            final(self).events@ == old(self).events@,
            final(self).dt_ms == old(self).dt_ms,
            final(self).bodies@.len() == old(self).bodies@.len(),
    {
        let ghost w0 = *self;
        let n = self.bodies.len();
        let mut i: usize = 0;
        while i < n
            invariant
                w0.wf(),
                w0.can_integrate(),
                i <= n,
                n == w0.bodies@.len(),
                self.bodies@.len() == n,
                self.paddle == w0.paddle,
                self.ball == w0.ball,
                self.score == w0.score,
                self.events@ == w0.events@,
                self.dt_ms == w0.dt_ms,
                forall|j: int| 0 <= j < i ==> self.bodies@[j]
                    == integrated_slot(w0.bodies@[j], w0.dt_ms as int),
                forall|j: int| i <= j < n ==> self.bodies@[j] == w0.bodies@[j],
            decreases n - i,
        {
            let s = self.bodies[i];
            match s.body.velocity {
                Some(v) => {
                    if s.alive {
                        proof {
                            crate::geom::lemma_scaled_bound(v.x as int, self.dt_ms as int);
                            crate::geom::lemma_scaled_bound(v.y as int, self.dt_ms as int);
                        }
                        let dx = crate::geom::scale_velocity(v.x, self.dt_ms);
                        let dy = crate::geom::scale_velocity(v.y, self.dt_ms);
                        let mut s2 = s;
                        s2.body.position.x = s.body.position.x + dx;
                        s2.body.position.y = s.body.position.y + dy;
                        self.bodies.set(i, s2);
                    }
                }
                None => {}
            }
            proof {
                assert(self.bodies@[i as int] == integrated_slot(w0.bodies@[i as int], w0.dt_ms as int));
            }
            i = i + 1;
        }
        proof {
            assert(self.bodies@ =~= integrated_seq(w0.bodies@, w0.dt_ms as int));
            assert forall|j: int| 0 <= j < n implies #[trigger] self.bodies@[j].wf() by {
                assert(w0.bodies@[j].wf());
            }
            lemma_count_integrated(w0.bodies@, w0.dt_ms as int, n as int);
        }
    }
    /// The store as the collision pass will see it: paddle moved by the
    /// controller, then every live velocity-bearing body integrated.
    pub open spec fn pre_scan_seq(self, input: Input) -> Seq<Slot> {
        integrated_seq(
            paddle_moved_seq(self.bodies@, self.paddle as int, input, self.dt_ms as int),
            self.dt_ms as int,
        )
    }

    /// The scan state after a whole tick's collision pass. Neither the
    /// controller nor the integrator touches the ball's velocity or the
    /// score, so the scan starts from this world's own init state.
    pub open spec fn tick_scan(self, input: Input) -> ScanState {
        let b2 = self.pre_scan_seq(input);
        scan_prefix(b2[self.ball as int].body, self.ball as int, b2, self.scan_init(), b2.len() as int)
    }

    /// The collision detector and resolver, one atomic pass: the ball is
    /// checked against every other live slot in store order; on overlap its
    /// velocity is reflected with the directional guard, a destructible body
    /// struck on a directional face is scored and scheduled, and one event
    /// is emitted per collision. Scheduled bodies are removed only after the
    /// scan completes, so the scan sees a stable store.
    ///
    /// Simultaneous overlaps are resolved independently, in store order;
    /// when the ball overlaps two bodies at once the final velocity can
    /// depend on that order. This is a known limitation of the single-pass
    /// scan, not a guarantee worth relying on.
    pub fn check_ball_collisions(&mut self)
        requires
            old(self).wf(),
        ensures
            final(self).wf(),
            final(self).paddle == old(self).paddle,
            final(self).ball == old(self).ball,
            final(self).dt_ms == old(self).dt_ms,
            final(self).bodies@.len() == old(self).bodies@.len(),
            ({
                let st = old(self).scan_result();
                &&& final(self).score as int == st.score
                &&& st.score == old(self).score + st.pending.len()
                &&& final(self).events@.len() == old(self).events@.len() + st.events
                &&& final(self).ball_velocity().x as int == st.vx
                &&& final(self).ball_velocity().y as int == st.vy
                &&& forall|i: int| 0 <= i < final(self).bodies@.len() ==> {
                    &&& (#[trigger] final(self).bodies@[i]).body.position
                        == old(self).bodies@[i].body.position
                    &&& final(self).bodies@[i].body.half_extent == old(self).bodies@[i].body.half_extent
                    &&& final(self).bodies@[i].body.destructible == old(self).bodies@[i].body.destructible
                    &&& final(self).bodies@[i].alive
                        == (old(self).bodies@[i].alive && !st.pending.contains(i))
                    &&& (i != old(self).ball as int
                        ==> final(self).bodies@[i].body.velocity == old(self).bodies@[i].body.velocity)
                }
            }),
            final(self).score >= old(self).score,
            iabs(final(self).ball_velocity().x as int) == iabs(old(self).ball_velocity().x as int),
            iabs(final(self).ball_velocity().y as int) == iabs(old(self).ball_velocity().y as int),
    {
        let ghost w0 = *self;
        let bi = self.ball;
        let ball = self.bodies[bi].body;
        let (mut vx, mut vy): (i64, i64) = match ball.velocity {
            Some(v) => (v.x, v.y),
            None => (0, 0),
        };
        let mut pending: Vec<usize> = Vec::new();
        let n = self.bodies.len();
        let mut i: usize = 0;
        while i < n
            invariant
                w0.wf(),
                i <= n,
                n == w0.bodies@.len(),
                bi == w0.ball,
                ball == w0.ball_body(),
                self.bodies@ == w0.bodies@,
                self.paddle == w0.paddle,
                self.ball == w0.ball,
                self.dt_ms == w0.dt_ms,
                ({
                    let st = scan_prefix(ball, bi as int, w0.bodies@, w0.scan_init(), i as int);
                    &&& vx as int == st.vx
                    &&& vy as int == st.vy
                    &&& self.score as int == st.score
                    &&& st.score <= w0.score + live_brick_count(w0.bodies@, i as int)
                    &&& pending@.len() == st.pending.len()
                    &&& forall|j: int| 0 <= j < pending@.len() ==> pending@[j] as int == st.pending[j]
                    &&& self.events@.len() == w0.events@.len() + st.events
                }),
                wf_vel(vx as int),
                wf_vel(vy as int),
            decreases n - i,
        {
            let ghost st_pre = scan_prefix(ball, bi as int, w0.bodies@, w0.scan_init(), i as int);
            if i != bi {
                let s = self.bodies[i];
                if s.alive {
                    match crate::detect::detect(&ball, &s.body) {
                        None => {}
                        Some(f) => {
                            resolve_velocity(f, &mut vx, &mut vy);
                            let inside = f == Face::Inside;
                            if s.body.destructible && !inside {
                                proof {
                                    lemma_live_brick_count_mono(
                                        w0.bodies@, i as int + 1, n as int);
                                    lemma_live_brick_count_nonneg(w0.bodies@, i as int);
                                }
                                self.score = self.score + 1;
                                pending.push(i);
                            }
                            self.events.push(CollisionEvent {});
                        }
                    }
                }
            }
            proof {
                assert(scan_prefix(ball, bi as int, w0.bodies@, w0.scan_init(), i + 1)
                    == crate::resolve::scan_step(st_pre, ball, w0.bodies@[i as int], i as int, bi as int));
            }
            i = i + 1;
        }
        let ghost st = w0.scan_result();
        proof {
            lemma_scan_accounting(ball, bi as int, w0.bodies@, w0.scan_init(), n as int);
            lemma_scan_speed(ball, bi as int, w0.bodies@, w0.scan_init(), n as int);
        }
        let mut bs = self.bodies[bi];
        bs.body.velocity = Some(Vec2i { x: vx, y: vy });
        self.bodies.set(bi, bs);
        proof {
            lemma_live_brick_count_update_same(w0.bodies@, bi as int, bs, n as int);
        }
        let ghost mid = self.bodies@;
        let m = pending.len();
        let mut t: usize = 0;
        while t < m
            invariant
                w0.wf(),
                t <= m,
                n == w0.bodies@.len(),
                bi == w0.ball,
                st == w0.scan_result(),
                m == pending@.len(),
                pending@.len() == st.pending.len(),
                forall|j: int| 0 <= j < m ==> pending@[j] as int == st.pending[j],
                forall|j: int| 0 <= j < m ==> {
                    &&& 0 <= st.pending[j] < n
                    &&& st.pending[j] != bi as int
                    &&& w0.bodies@[st.pending[j]].alive
                    &&& w0.bodies@[st.pending[j]].body.destructible
                },
                forall|j1: int, j2: int| 0 <= j1 < j2 < m ==> st.pending[j1] < st.pending[j2],
                mid.len() == n,
                forall|idx: int| 0 <= idx < n && idx != bi as int ==> mid[idx] == w0.bodies@[idx],
                mid[bi as int].alive == w0.bodies@[bi as int].alive,
                mid[bi as int].body.destructible == w0.bodies@[bi as int].body.destructible,
                self.paddle == w0.paddle,
                self.ball == w0.ball,
                self.dt_ms == w0.dt_ms,
                self.score as int == st.score,
                self.events@.len() == w0.events@.len() + st.events,
                self.bodies@.len() == n,
                forall|idx: int| 0 <= idx < n ==> #[trigger] self.bodies@[idx]
                    == if scheduled_before(st.pending, t as int, idx) {
                        (Slot { body: mid[idx].body, alive: false })
                    } else {
                        mid[idx]
                    },
                live_brick_count(self.bodies@, n as int)
                    == live_brick_count(mid, n as int) - t,
            decreases m - t,
        {
            let k = pending[t];
            let ghost before = self.bodies@;
            proof {
                assert(!scheduled_before(st.pending, t as int, k as int));
                assert(self.bodies@[k as int] == mid[k as int]);
            }
            let mut s = self.bodies[k];
            s.alive = false;
            self.bodies.set(k, s);
            proof {
                lemma_live_brick_count_kill(before, k as int, s, n as int);
                assert forall|idx: int| 0 <= idx < n implies #[trigger] self.bodies@[idx]
                    == if scheduled_before(st.pending, t + 1, idx) {
                        (Slot { body: mid[idx].body, alive: false })
                    } else {
                        mid[idx]
                    } by {
                    if idx == k as int {
                        assert(scheduled_before(st.pending, t + 1, idx));
                    } else {
                        assert(scheduled_before(st.pending, t + 1, idx)
                            == scheduled_before(st.pending, t as int, idx));
                    }
                }
            }
            t = t + 1;
        }
        proof {
            assert forall|idx: int| 0 <= idx < n implies
                (scheduled_before(st.pending, m as int, idx) == st.pending.contains(idx)) by {}
            assert(!st.pending.contains(bi as int));
            assert(self.bodies@[bi as int] == mid[bi as int]);
            assert(!st.pending.contains(w0.paddle as int));
            lemma_live_brick_count_nonneg(self.bodies@, n as int);
        }
    }

    /// World initialization: seeds the store with the paddle, the ball, the
    /// four walls and the brick grid, in that order, with the scoreboard at
    /// zero and the event queue empty. The grid's rows and columns are
    /// however many bricks with their gaps fit between the walls, the
    /// ceiling gap and the paddle gap.
    pub fn new(dt_ms: u64) -> (w: World)
        requires
            wf_dt(dt_ms as int),
        ensures
            w.wf(),
            w.can_integrate(),
            w.dt_ms == dt_ms,
            w.score == 0,
            w.events@.len() == 0,
            w.paddle == 0,
            w.ball == 1,
            w.bodies@.len() == 70,
            w.bodies@[0] == standard_paddle(),
            w.bodies@[1] == standard_ball(),
            forall|k: int| 0 <= k < 4 ==> w.bodies@[2 + k] == standard_wall(k),
            forall|r: int, c: int| 0 <= r < 8 && 0 <= c < 8
                ==> w.bodies@[6 + r * 8 + c] == standard_brick(r, c),
    {
        let mut bodies: Vec<Slot> = Vec::new();
        bodies.push(Slot {
            body: Body {
                position: Vec2i { x: 0, y: PADDLE_START_Y },
                half_extent: Vec2i { x: PADDLE_HALF_WIDTH, y: PADDLE_HALF_HEIGHT },
                velocity: None,
                destructible: false,
            },
            alive: true,
        });
        bodies.push(Slot {
            body: Body {
                position: Vec2i { x: BALL_START_X, y: BALL_START_Y },
                half_extent: Vec2i { x: BALL_HALF, y: BALL_HALF },
                velocity: Some(Vec2i { x: BALL_START_VX, y: BALL_START_VY }),
                destructible: false,
            },
            alive: true,
        });
        let vertical_half = Vec2i {
            x: WALL_THICKNESS / 2,
            y: (TOP_WALL_Y - BOTTOM_WALL_Y + WALL_THICKNESS) / 2,
        };
        let horizontal_half = Vec2i {
            x: (RIGHT_WALL_X - LEFT_WALL_X + WALL_THICKNESS) / 2,
            y: WALL_THICKNESS / 2,
        };
        bodies.push(Slot {
            body: Body {
                position: Vec2i { x: LEFT_WALL_X, y: 0 },
                half_extent: vertical_half,
                velocity: None,
                destructible: false,
            },
            alive: true,
        });
        bodies.push(Slot {
            body: Body {
                position: Vec2i { x: RIGHT_WALL_X, y: 0 },
                half_extent: vertical_half,
                velocity: None,
                destructible: false,
            },
            alive: true,
        });
        bodies.push(Slot {
            body: Body {
                position: Vec2i { x: 0, y: BOTTOM_WALL_Y },
                half_extent: horizontal_half,
                velocity: None,
                destructible: false,
            },
            alive: true,
        });
        bodies.push(Slot {
            body: Body {
                position: Vec2i { x: 0, y: TOP_WALL_Y },
                half_extent: horizontal_half,
                velocity: None,
                destructible: false,
            },
            alive: true,
        });
        proof {
            assert(bodies@[0] == standard_paddle());
            assert(bodies@[1] == standard_ball());
            assert forall|k: int| 0 <= k < 4 implies bodies@[2 + k] == standard_wall(k) by {
                assert(bodies@[2] == standard_wall(0));
                assert(bodies@[3] == standard_wall(1));
                assert(bodies@[4] == standard_wall(2));
                assert(bodies@[5] == standard_wall(3));
            }
        }
        let total_width: u64 = (RIGHT_WALL_X - LEFT_WALL_X) as u64 - 2 * (BRICK_SIDE_GAP as u64);
        let total_height: u64 = (TOP_WALL_Y - BOTTOM_WALL_Y) as u64
            - (BRICK_CEILING_GAP as u64) - (BRICK_PADDLE_GAP as u64);
        let columns: u64 = total_width / (2 * (BRICK_HALF_WIDTH as u64) + (BRICK_GAP as u64));
        let rows: u64 = total_height / (2 * (BRICK_HALF_HEIGHT as u64) + (BRICK_GAP as u64));
        proof {
            vstd::arithmetic::div_mod::lemma_fundamental_div_mod(860, 105);
            vstd::arithmetic::div_mod::lemma_mod_bound(860, 105);
            vstd::arithmetic::div_mod::lemma_fundamental_div_mod(310, 35);
            vstd::arithmetic::div_mod::lemma_mod_bound(310, 35);
        }
        assert(columns == 8);
        assert(rows == 8);
        let offset_x: i64 = LEFT_WALL_X + BRICK_SIDE_GAP + BRICK_HALF_WIDTH;
        let offset_y: i64 = BOTTOM_WALL_Y + BRICK_PADDLE_GAP + BRICK_HALF_HEIGHT;
        let step_x: i64 = 2 * BRICK_HALF_WIDTH + BRICK_GAP;
        let step_y: i64 = 2 * BRICK_HALF_HEIGHT + BRICK_GAP;
        let mut r: u64 = 0;
        while r < rows
            invariant
                rows == 8,
                columns == 8,
                r <= 8,
                offset_x == -380,
                offset_y == -15,
                step_x == 105,
                step_y == 35,
                bodies@.len() == 6 + r * 8,
                bodies@[0] == standard_paddle(),
                bodies@[1] == standard_ball(),
                forall|k: int| 0 <= k < 4 ==> bodies@[2 + k] == standard_wall(k),
                forall|rr: int, cc: int| 0 <= rr < r && 0 <= cc < 8
                    ==> bodies@[6 + rr * 8 + cc] == standard_brick(rr, cc),
                forall|j: int| 0 <= j < bodies@.len() ==> (#[trigger] bodies@[j]).wf(),
                forall|j: int| 6 <= j < bodies@.len()
                    ==> (#[trigger] bodies@[j]).body.velocity is None,
            decreases 8 - r,
        {
            let mut c: u64 = 0;
            while c < columns
                invariant
                    rows == 8,
                    columns == 8,
                    r < 8,
                    c <= 8,
                    offset_x == -380,
                    offset_y == -15,
                    step_x == 105,
                    step_y == 35,
                    bodies@.len() == 6 + r * 8 + c,
                    bodies@[0] == standard_paddle(),
                    bodies@[1] == standard_ball(),
                    forall|k: int| 0 <= k < 4 ==> bodies@[2 + k] == standard_wall(k),
                    forall|rr: int, cc: int| 0 <= rr < r && 0 <= cc < 8
                        ==> bodies@[6 + rr * 8 + cc] == standard_brick(rr, cc),
                    forall|cc: int| 0 <= cc < c
                        ==> bodies@[6 + r * 8 + cc] == standard_brick(r as int, cc),
                    forall|j: int| 0 <= j < bodies@.len() ==> (#[trigger] bodies@[j]).wf(),
                    forall|j: int| 6 <= j < bodies@.len()
                        ==> (#[trigger] bodies@[j]).body.velocity is None,
                decreases 8 - c,
            {
                let x: i64 = offset_x + (c as i64) * step_x;
                let y: i64 = offset_y + (r as i64) * step_y;
                bodies.push(Slot {
                    body: Body {
                        position: Vec2i { x, y },
                        half_extent: Vec2i { x: BRICK_HALF_WIDTH, y: BRICK_HALF_HEIGHT },
                        velocity: None,
                        destructible: true,
                    },
                    alive: true,
                });
                proof {
                    assert(bodies@[6 + r * 8 + c as int] == standard_brick(r as int, c as int));
                }
                c = c + 1;
            }
            r = r + 1;
        }
        let w = World {
            bodies,
            paddle: 0,
            ball: 1,
            score: 0,
            events: Vec::new(),
            dt_ms,
        };
        proof {
            lemma_live_brick_count_le(w.bodies@, 70);
            assert forall|i: int| 0 <= i < 70 implies {
                &&& wf_coord(#[trigger] integrated_x(w.bodies@[i], dt_ms as int))
                &&& wf_coord(integrated_y(w.bodies@[i], dt_ms as int))
            } by {
                assert(w.bodies@[i].wf());
                if i == 1 {
                    assert(w.bodies@[1] == standard_ball());
                    crate::geom::lemma_scaled_bound(BALL_START_VX as int, dt_ms as int);
                    crate::geom::lemma_scaled_bound(BALL_START_VY as int, dt_ms as int);
                } else if i < 6 {
                    if i >= 2 {
                        assert(w.bodies@[i] == standard_wall(i - 2));
                    }
                    assert(w.bodies@[i].body.velocity is None);
                } else {
                    assert(w.bodies@[i].body.velocity is None);
                }
            }
        }
        w
    }

    /// One simulation tick: controller, integrator, detector and resolver,
    /// in that order, as one atomic step. The postcondition gives the tick's
    /// whole effect: where each body stands, the ball's reflected velocity,
    /// which bodies were removed, and how score and event queue moved; the
    /// paddle ends clamped inside the arena, the ball's speed keeps its
    /// magnitude, removed bodies stay removed and the score never falls.
    pub fn tick(&mut self, input: Input)
        requires
            old(self).wf(),
            old(self).can_integrate(),
        ensures
            final(self).wf(),
            final(self).paddle == old(self).paddle,
            final(self).ball == old(self).ball,
            final(self).dt_ms == old(self).dt_ms,
            final(self).bodies@.len() == old(self).bodies@.len(),
            ({
                let b2 = old(self).pre_scan_seq(input);
                let st = old(self).tick_scan(input);
                &&& final(self).score as int == st.score
                &&& st.score == old(self).score + st.pending.len()
                &&& final(self).events@.len() == old(self).events@.len() + st.events
                &&& final(self).ball_velocity().x as int == st.vx
                &&& final(self).ball_velocity().y as int == st.vy
                &&& forall|i: int| 0 <= i < final(self).bodies@.len() ==> {
                    &&& final(self).bodies@[i].body.position == b2[i].body.position
                    &&& final(self).bodies@[i].body.half_extent
                        == old(self).bodies@[i].body.half_extent
                    &&& final(self).bodies@[i].body.destructible
                        == old(self).bodies@[i].body.destructible
                    &&& final(self).bodies@[i].alive
                        == (old(self).bodies@[i].alive && !st.pending.contains(i))
                    &&& (i != old(self).ball as int
                        ==> final(self).bodies@[i].body.velocity == old(self).bodies@[i].body.velocity)
                }
            }),
            PADDLE_MIN_X <= final(self).bodies@[old(self).paddle as int].body.position.x
                <= PADDLE_MAX_X,
            iabs(final(self).ball_velocity().x as int) == iabs(old(self).ball_velocity().x as int),
            iabs(final(self).ball_velocity().y as int) == iabs(old(self).ball_velocity().y as int),
            final(self).score >= old(self).score,
            forall|i: int| 0 <= i < old(self).bodies@.len() && !old(self).bodies@[i].alive
                ==> !final(self).bodies@[i].alive,
    {
        let ghost w0 = *self;
        self.move_paddle(input);
        let ghost w1 = *self;
        proof {
            assert forall|i: int| 0 <= i < self.bodies@.len() implies {
                &&& wf_coord(#[trigger] integrated_x(self.bodies@[i], self.dt_ms as int))
                &&& wf_coord(integrated_y(self.bodies@[i], self.dt_ms as int))
            } by {
                if i == w0.paddle as int {
                    assert(w1.bodies@[i].body.velocity is None);
                } else {
                    assert(w1.bodies@[i] == w0.bodies@[i]);
                    assert(wf_coord(integrated_x(w0.bodies@[i], w0.dt_ms as int)));
                    assert(wf_coord(integrated_y(w0.bodies@[i], w0.dt_ms as int)));
                }
            }
        }
        self.apply_velocity();
        let ghost w2 = *self;
        proof {
            assert(w2.bodies@ == w0.pre_scan_seq(input));
            assert(w2.ball_body() == w0.pre_scan_seq(input)[w0.ball as int].body);
            assert(w2.bodies@[w0.ball as int].body.velocity
                == w0.bodies@[w0.ball as int].body.velocity);
            assert(w2.scan_init() == w0.scan_init());
            assert(w2.scan_result() == w0.tick_scan(input));
        }
        self.check_ball_collisions();
        proof {
            let b1 = paddle_moved_seq(w0.bodies@, w0.paddle as int, input, w0.dt_ms as int);
            let b2 = w0.pre_scan_seq(input);
            assert forall|i: int| 0 <= i < self.bodies@.len() implies {
                &&& #[trigger] self.bodies@[i].body.half_extent == w0.bodies@[i].body.half_extent
                &&& self.bodies@[i].body.destructible == w0.bodies@[i].body.destructible
                &&& self.bodies@[i].alive
                    == (w0.bodies@[i].alive && !w0.tick_scan(input).pending.contains(i))
                &&& (i != w0.ball as int
                    ==> self.bodies@[i].body.velocity == w0.bodies@[i].body.velocity)
            } by {
                assert(b2[i] == integrated_slot(b1[i], w0.dt_ms as int));
                if i != w0.paddle as int {
                    assert(b1[i] == w0.bodies@[i]);
                } else {
                    assert(b1[i].body.half_extent == w0.bodies@[i].body.half_extent);
                    assert(b1[i].body.destructible == w0.bodies@[i].body.destructible);
                    assert(b1[i].body.velocity == w0.bodies@[i].body.velocity);
                    assert(b1[i].alive == w0.bodies@[i].alive);
                }
                assert(w2.bodies@[i] == b2[i]);
                assert(b2[i].body.half_extent == w0.bodies@[i].body.half_extent);
                assert(b2[i].body.destructible == w0.bodies@[i].body.destructible);
                assert(b2[i].body.velocity == b1[i].body.velocity);
                assert(b2[i].alive == w0.bodies@[i].alive);
                assert(self.bodies@[i].body.half_extent == w2.bodies@[i].body.half_extent);
                assert(self.bodies@[i].body.destructible == w2.bodies@[i].body.destructible);
                assert(self.bodies@[i].alive
                    == (w2.bodies@[i].alive && !w2.scan_result().pending.contains(i)));
                assert(i != w0.ball as int
                    ==> self.bodies@[i].body.velocity == w2.bodies@[i].body.velocity);
            }
            let pi = w0.paddle as int;
            assert(b2[pi] == integrated_slot(b1[pi], w0.dt_ms as int));
            assert(b1[pi].body.velocity is None);
            assert(b2[pi].body.position.x == b1[pi].body.position.x);
            assert(self.bodies@[pi].body.position == b2[pi].body.position);
            assert(PADDLE_MIN_X <= b1[pi].body.position.x <= PADDLE_MAX_X);
        }
    }

    /// Single destruction, at tick level: the bodies a tick schedules for
    /// removal are pairwise distinct (strictly increasing store indices),
    /// each one a live destructible body struck on a directional face, and
    /// the scoreboard rises by exactly one per scheduled body. Together
    /// with `tick`'s postcondition — a removed slot is dead afterwards and
    /// a dead slot is never scheduled again — a destructible body is
    /// removed at most once over the simulation's lifetime.
    pub proof fn lemma_single_destruction(self, input: Input)
        ensures
            ({
                let b2 = self.pre_scan_seq(input);
                let st = self.tick_scan(input);
                &&& st.score == self.score + st.pending.len()
                &&& forall|j1: int, j2: int| 0 <= j1 < j2 < st.pending.len()
                    ==> st.pending[j1] < st.pending[j2]
                &&& forall|j: int| 0 <= j < st.pending.len() ==> {
                    &&& 0 <= st.pending[j] < b2.len()
                    &&& st.pending[j] != self.ball as int
                    &&& b2[st.pending[j]].alive
                    &&& b2[st.pending[j]].body.destructible
                    &&& match face_of(b2[self.ball as int].body, b2[st.pending[j]].body) {
                        Some(f) => crate::resolve::strikes(f),
                        None => false,
                    }
                }
            }),
    {
        let b2 = self.pre_scan_seq(input);
        lemma_scan_accounting(
            b2[self.ball as int].body, self.ball as int, b2, self.scan_init(), b2.len() as int);
    }

    /// Scoreboard read-out for the text-rendering collaborator.
    pub fn score(&self) -> (r: u64)
        ensures
            r == self.score,
    {
        self.score
    }

    /// Size of the store, dead slots included, for the render collaborator.
    pub fn body_count(&self) -> (r: usize)
        ensures
            r == self.bodies@.len(),
    {
        self.bodies.len()
    }

    /// The slot at `i`: a read-only snapshot entry for the render
    /// collaborator.
    pub fn slot(&self, i: usize) -> (r: Slot)
        requires
            i < self.bodies@.len(),
        ensures
            r == self.bodies@[i as int],
    {
        self.bodies[i]
    }

    /// Empties the event queue and reports how many collisions it held; the
    /// audio collaborator plays one clip per event.
    pub fn drain_events(&mut self) -> (r: usize)
        ensures
            r == old(self).events@.len(),
            final(self).events@.len() == 0,
            final(self).bodies@ == old(self).bodies@,
            final(self).score == old(self).score,
            final(self).paddle == old(self).paddle,
            final(self).ball == old(self).ball,
            final(self).dt_ms == old(self).dt_ms,
    {
        let r = self.events.len();
        self.events = Vec::new();
        r
    }

    /// Decides at run time whether `tick`'s precondition holds, so an
    /// unverified caller can test before stepping the simulation.
    pub fn ready_to_tick(&self) -> (r: bool)
        ensures
            r == (self.wf() && self.can_integrate()),
    {
        let n = self.bodies.len();
        if !(self.paddle < n && self.ball < n && self.paddle != self.ball) {
            return false;
        }
        if !(1 <= self.dt_ms && self.dt_ms <= DT_LIMIT) {
            return false;
        }
        let mut count: u64 = 0;
        let mut i: usize = 0;
        while i < n
            invariant
                i <= n,
                n == self.bodies@.len(),
                (self.paddle as int) < n,
                (self.ball as int) < n,
                self.paddle != self.ball,
                wf_dt(self.dt_ms as int),
                forall|j: int| 0 <= j < i ==> (#[trigger] self.bodies@[j]).wf(),
                forall|j: int| 0 <= j < i ==> {
                    &&& wf_coord(integrated_x(#[trigger] self.bodies@[j], self.dt_ms as int))
                    &&& wf_coord(integrated_y(self.bodies@[j], self.dt_ms as int))
                },
                count == live_brick_count(self.bodies@, i as int),
                count <= i,
            decreases n - i,
        {
            let s = self.bodies[i];
            if !(-POS_LIMIT <= s.body.position.x && s.body.position.x <= POS_LIMIT
                && -POS_LIMIT <= s.body.position.y && s.body.position.y <= POS_LIMIT
                && 0 <= s.body.half_extent.x && s.body.half_extent.x <= crate::geom::EXTENT_LIMIT
                && 0 <= s.body.half_extent.y && s.body.half_extent.y <= crate::geom::EXTENT_LIMIT)
            {
                return false;
            }
            match s.body.velocity {
                Some(v) => {
                    if !(-crate::geom::VEL_LIMIT <= v.x && v.x <= crate::geom::VEL_LIMIT
                        && -crate::geom::VEL_LIMIT <= v.y && v.y <= crate::geom::VEL_LIMIT)
                    {
                        return false;
                    }
                    if s.alive {
                        let dx = crate::geom::scale_velocity(v.x, self.dt_ms);
                        let dy = crate::geom::scale_velocity(v.y, self.dt_ms);
                        if !(-POS_LIMIT <= s.body.position.x + dx
                            && s.body.position.x + dx <= POS_LIMIT
                            && -POS_LIMIT <= s.body.position.y + dy
                            && s.body.position.y + dy <= POS_LIMIT)
                        {
                            return false;
                        }
                    }
                }
                None => {}
            }
            if s.alive && s.body.destructible {
                count = count + 1;
            }
            i = i + 1;
        }
        let bs = self.bodies[self.ball];
        let ball_has_velocity = match bs.body.velocity {
            Some(_) => true,
            None => false,
        };
        if !(bs.alive && ball_has_velocity && !bs.body.destructible) {
            return false;
        }
        let ps = self.bodies[self.paddle];
        let paddle_has_velocity = match ps.body.velocity {
            Some(_) => true,
            None => false,
        };
        if !(ps.alive && !paddle_has_velocity && !ps.body.destructible) {
            return false;
        }
        if self.score > u64::MAX - count {
            return false;
        }
        true
    }
}

/// The paddle of the shipped layout, at rest above the bottom wall.
pub open spec fn standard_paddle() -> Slot {
    Slot {
        body: Body {
            position: Vec2i { x: 0, y: PADDLE_START_Y },
            half_extent: Vec2i { x: PADDLE_HALF_WIDTH, y: PADDLE_HALF_HEIGHT },
            velocity: None,
            destructible: false,
        },
        alive: true,
    }
}

/// The ball of the shipped layout, launched down-right.
pub open spec fn standard_ball() -> Slot {
    Slot {
        body: Body {
            position: Vec2i { x: BALL_START_X, y: BALL_START_Y },
            half_extent: Vec2i { x: BALL_HALF, y: BALL_HALF },
            velocity: Some(Vec2i { x: BALL_START_VX, y: BALL_START_VY }),
            destructible: false,
        },
        alive: true,
    }
}

/// The four walls of the shipped layout: `which` runs left, right, bottom,
/// top. Vertical walls span the arena's height plus one thickness; the
/// horizontal ones its width plus one thickness.
pub open spec fn standard_wall(which: int) -> Slot {
    let vertical_half = Vec2i {
        x: (WALL_THICKNESS / 2) as i64,
        y: ((TOP_WALL_Y - BOTTOM_WALL_Y + WALL_THICKNESS) / 2) as i64,
    };
    let horizontal_half = Vec2i {
        x: ((RIGHT_WALL_X - LEFT_WALL_X + WALL_THICKNESS) / 2) as i64,
        y: (WALL_THICKNESS / 2) as i64,
    };
    let body = if which == 0 {
        Body {
            position: Vec2i { x: LEFT_WALL_X, y: 0 },
            half_extent: vertical_half,
            velocity: None,
            destructible: false,
        }
    } else if which == 1 {
        Body {
            position: Vec2i { x: RIGHT_WALL_X, y: 0 },
            half_extent: vertical_half,
            velocity: None,
            destructible: false,
        }
    } else if which == 2 {
        Body {
            position: Vec2i { x: 0, y: BOTTOM_WALL_Y },
            half_extent: horizontal_half,
            velocity: None,
            destructible: false,
        }
    } else {
        Body {
            position: Vec2i { x: 0, y: TOP_WALL_Y },
            half_extent: horizontal_half,
            velocity: None,
            destructible: false,
        }
    };
    Slot { body: body, alive: true }
}

/// The brick at grid row `r`, column `c` of the shipped layout.
pub open spec fn standard_brick(r: int, c: int) -> Slot {
    Slot {
        body: Body {
            position: Vec2i {
                x: (LEFT_WALL_X + BRICK_SIDE_GAP + BRICK_HALF_WIDTH
                    + c * (2 * BRICK_HALF_WIDTH + BRICK_GAP)) as i64,
                y: (BOTTOM_WALL_Y + BRICK_PADDLE_GAP + BRICK_HALF_HEIGHT
                    + r * (2 * BRICK_HALF_HEIGHT + BRICK_GAP)) as i64,
            },
            half_extent: Vec2i { x: BRICK_HALF_WIDTH, y: BRICK_HALF_HEIGHT },
            velocity: None,
            destructible: true,
        },
        alive: true,
    }
}

/// Whether `idx` appears among the first `t` scheduled removals.
pub open spec fn scheduled_before(pending: Seq<int>, t: int, idx: int) -> bool {
    exists|j: int| 0 <= j < t && pending[j] == idx
}

/// Integration moves bodies but neither kills them nor changes the
/// destructible flag, so the live-brick count is unchanged.
proof fn lemma_count_integrated(bodies: Seq<Slot>, dt_ms: int, n: int)
    requires
        n <= bodies.len(),
    ensures
        live_brick_count(integrated_seq(bodies, dt_ms), n) == live_brick_count(bodies, n),
    decreases n,
{
    if n > 0 {
        lemma_count_integrated(bodies, dt_ms, n - 1);
    }
}

} // verus!
