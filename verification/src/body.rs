//! The body model: every collidable entity (paddle, ball, wall, brick) is a
//! `Body` with a centre position and a half-extent, an optional velocity and
//! a destructible flag. The store keeps bodies in `Slot`s whose `alive` flag
//! is cleared, never set back, when a destructible body is removed.

use vstd::prelude::*;
use crate::geom::{Vec2i, wf_coord, wf_extent, wf_vel};

verus! {

/// A positioned, sized entity. The half-extent is half the width/height, so
/// overlap tests become interval comparisons on `position ± half_extent`.
#[derive(Clone, Copy, Debug)]
pub struct Body {
    pub position: Vec2i,
    pub half_extent: Vec2i,
    /// Units per second; only the ball carries one in the shipped layout, but
    /// any body may.
    pub velocity: Option<Vec2i>,
    /// Destructible bodies (bricks) are removed and scored on their first
    /// directional hit.
    pub destructible: bool,
}

impl Body {
    pub open spec fn wf(self) -> bool {
        &&& wf_coord(self.position.x as int)
        &&& wf_coord(self.position.y as int)
        &&& wf_extent(self.half_extent.x as int)
        &&& wf_extent(self.half_extent.y as int)
        &&& match self.velocity {
            Some(v) => wf_vel(v.x as int) && wf_vel(v.y as int),
            None => true,
        }
    }

    pub open spec fn min_x(self) -> int {
        self.position.x - self.half_extent.x
    }

    pub open spec fn max_x(self) -> int {
        self.position.x + self.half_extent.x
    }

    pub open spec fn min_y(self) -> int {
        self.position.y - self.half_extent.y
    }

    pub open spec fn max_y(self) -> int {
        self.position.y + self.half_extent.y
    }
}

/// One entry of the body store. A removed body leaves its slot in place with
/// `alive` false, so indices stay stable across removals.
#[derive(Clone, Copy, Debug)]
pub struct Slot {
    pub body: Body,
    pub alive: bool,
}

impl Slot {
    pub open spec fn wf(self) -> bool {
        self.body.wf()
    }
}

/// How many of the first `n` slots hold a live destructible body — the
/// number of bricks still standing. The scoreboard can rise by at most this
/// many, which keeps it from overflowing.
pub open spec fn live_brick_count(bodies: Seq<Slot>, n: int) -> int
    decreases n,
{
    if n <= 0 {
        0
    } else {
        live_brick_count(bodies, n - 1)
            + if bodies[n - 1].alive && bodies[n - 1].body.destructible { 1int } else { 0int }
    }
}

pub proof fn lemma_live_brick_count_nonneg(bodies: Seq<Slot>, n: int)
    ensures
        live_brick_count(bodies, n) >= 0,
    decreases n,
{
    if n > 0 {
        lemma_live_brick_count_nonneg(bodies, n - 1);
    }
}

pub proof fn lemma_live_brick_count_le(bodies: Seq<Slot>, n: int)
    ensures
        live_brick_count(bodies, n) <= if n >= 0 { n } else { 0 },
    decreases n,
{
    if n > 0 {
        lemma_live_brick_count_le(bodies, n - 1);
    }
}

pub proof fn lemma_live_brick_count_mono(bodies: Seq<Slot>, i: int, n: int)
    requires
        i <= n,
    ensures
        live_brick_count(bodies, i) <= live_brick_count(bodies, n),
    decreases n - i,
{
    if i < n {
        lemma_live_brick_count_mono(bodies, i, n - 1);
    }
}

/// Replacing a slot without changing whether it is a live destructible body
/// leaves the count alone.
pub proof fn lemma_live_brick_count_update_same(bodies: Seq<Slot>, k: int, s: Slot, n: int)
    requires
        0 <= k < bodies.len(),
        n <= bodies.len(),
        (s.alive && s.body.destructible) == (bodies[k].alive && bodies[k].body.destructible),
    ensures
        live_brick_count(bodies.update(k, s), n) == live_brick_count(bodies, n),
    decreases n,
{
    if n > 0 {
        lemma_live_brick_count_update_same(bodies, k, s, n - 1);
    }
}

/// Clearing the `alive` flag of a live destructible body lowers the count by
/// one; touching a slot at or past `n` leaves the prefix count alone.
pub proof fn lemma_live_brick_count_kill(bodies: Seq<Slot>, k: int, s: Slot, n: int)
    requires
        0 <= k < bodies.len(),
        n <= bodies.len(),
        bodies[k].alive && bodies[k].body.destructible,
        !s.alive,
    ensures
        live_brick_count(bodies.update(k, s), n)
            == live_brick_count(bodies, n) - if k < n { 1int } else { 0int },
    decreases n,
{
    if n > 0 {
        lemma_live_brick_count_kill(bodies, k, s, n - 1);
    }
}

} // verus!
