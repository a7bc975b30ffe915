//! Integer plane geometry: vectors, coordinate bounds, clamping, and the
//! scaling of a velocity (units per second) by a tick period (milliseconds).

use vstd::prelude::*;

verus! {

/// Largest coordinate magnitude the simulation works with. Keeping every
/// position inside this range makes all collision arithmetic fit in `i64`.
pub const POS_LIMIT: i64 = 1_000_000_000;

/// Largest half-extent of a body.
pub const EXTENT_LIMIT: i64 = 1_000_000;

/// Largest velocity component magnitude, in units per second.
pub const VEL_LIMIT: i64 = 1_000_000;

/// Longest tick period, in milliseconds.
pub const DT_LIMIT: u64 = 1_000;

/// Milliseconds per second, the denominator of velocity scaling.
pub const MS_PER_SECOND: u64 = 1_000;

/// A two-dimensional integer vector: a position, a half-extent or a velocity.
#[derive(Clone, Copy, Debug, PartialEq, Eq, Structural)]
pub struct Vec2i {
    pub x: i64,
    pub y: i64,
}

/// Magnitude of an integer.
pub open spec fn iabs(v: int) -> int {
    if v < 0 { -v } else { v }
}

/// `v` clamped into `[lo, hi]` (callers keep `lo <= hi`).
pub open spec fn clamped(v: int, lo: int, hi: int) -> int {
    if v < lo { lo } else if v > hi { hi } else { v }
}

pub open spec fn wf_coord(v: int) -> bool {
    -POS_LIMIT <= v <= POS_LIMIT
}

pub open spec fn wf_extent(v: int) -> bool {
    0 <= v <= EXTENT_LIMIT
}

pub open spec fn wf_vel(v: int) -> bool {
    -VEL_LIMIT <= v <= VEL_LIMIT
}

pub open spec fn wf_dt(dt_ms: int) -> bool {
    1 <= dt_ms <= DT_LIMIT
}

/// Displacement of a body moving at `v` units per second over `dt_ms`
/// milliseconds, rounded toward zero.
pub open spec fn scaled(v: int, dt_ms: int) -> int {
    if v >= 0 {
        (v * dt_ms) / (MS_PER_SECOND as int)
    } else {
        -(((-v) * dt_ms) / (MS_PER_SECOND as int))
    }
}

proof fn lemma_nonneg_scale_bound(v: int, dt_ms: int)
    requires
        0 <= v <= VEL_LIMIT,
        0 <= dt_ms <= DT_LIMIT,
    ensures
        0 <= (v * dt_ms) / (MS_PER_SECOND as int) <= v,
{
    assert(0 <= v * dt_ms <= v * 1000) by (nonlinear_arith)
        requires 0 <= v && 0 <= dt_ms <= 1000;
    assert((v * 1000) / 1000 == v) by (nonlinear_arith)
        requires 0 <= v;
    assert(0 <= (v * dt_ms) / 1000 <= (v * 1000) / 1000) by (nonlinear_arith)
        requires 0 <= v * dt_ms <= v * 1000;
}

/// The displacement is never larger in magnitude than the velocity itself
/// (a tick is at most one second long).
pub proof fn lemma_scaled_bound(v: int, dt_ms: int)
    requires
        wf_vel(v),
        0 <= dt_ms <= DT_LIMIT,
    ensures
        iabs(scaled(v, dt_ms)) <= iabs(v),
        v >= 0 ==> 0 <= scaled(v, dt_ms) <= v,
        v < 0 ==> v <= scaled(v, dt_ms) <= 0,
{
    if v >= 0 {
        lemma_nonneg_scale_bound(v, dt_ms);
    } else {
        lemma_nonneg_scale_bound(-v, dt_ms);
    }
}

/// Computes `scaled(v, dt_ms)`: the distance travelled in one tick.
pub fn scale_velocity(v: i64, dt_ms: u64) -> (r: i64)
    requires
        wf_vel(v as int),
        dt_ms <= DT_LIMIT,
    ensures
        r as int == scaled(v as int, dt_ms as int),
        iabs(r as int) <= iabs(v as int),
{
    proof {
        lemma_scaled_bound(v as int, dt_ms as int);
    }
    if v >= 0 {
        (((v as u64) * dt_ms) / MS_PER_SECOND) as i64
    } else {
        let m: u64 = (-v) as u64;
        -(((m * dt_ms) / MS_PER_SECOND) as i64)
    }
}

/// Computes `clamped(v, lo, hi)`.
pub fn clamp_i64(v: i64, lo: i64, hi: i64) -> (r: i64)
    requires
        lo <= hi,
    ensures
        r as int == clamped(v as int, lo as int, hi as int),
        lo <= r <= hi,
{
    if v < lo {
        lo
    } else if v > hi {
        hi
    } else {
        v
    }
}

} // verus!
