//! Collision resolution: velocity reflection with a directional guard, and
//! the per-tick scan of the ball against every other live body. The scan is
//! modelled by a fold (`scan_prefix`) over the body store; the resolver's
//! loop is proved equal to it, and the laws of the simulation — speed
//! invariance, no-sticking, single destruction — are proved of the fold.

use vstd::prelude::*;
use crate::geom::iabs;
use crate::body::{Body, Slot, live_brick_count};
use crate::detect::{Face, face_of};

verus! {

/// The x component after resolving `f`: flipped only when it points into the
/// struck face, so a component already pointing away is left alone.
pub open spec fn reflect_x(f: Face, vx: int) -> int {
    match f {
        Face::Left => if vx > 0 { -vx } else { vx },
        Face::Right => if vx < 0 { -vx } else { vx },
        _ => vx,
    }
}

/// The y component after resolving `f`.
pub open spec fn reflect_y(f: Face, vy: int) -> int {
    match f {
        Face::Top => if vy < 0 { -vy } else { vy },
        Face::Bottom => if vy > 0 { -vy } else { vy },
        _ => vy,
    }
}

/// A directional face: one that reflects and destroys. `Inside` strikes
/// nothing — it neither turns the ball nor removes a brick.
pub open spec fn strikes(f: Face) -> bool {
    f != Face::Inside
}

/// Speed invariance: reflection only negates a component, never rescales, so
/// each component's magnitude — and with it the speed `|v|`, here as its
/// square — is unchanged by resolving any face.
pub proof fn lemma_speed_invariance(f: Face, vx: int, vy: int)
    ensures
        iabs(reflect_x(f, vx)) == iabs(vx),
        iabs(reflect_y(f, vy)) == iabs(vy),
        reflect_x(f, vx) * reflect_x(f, vx) + reflect_y(f, vy) * reflect_y(f, vy)
            == vx * vx + vy * vy,
{
    let rx = reflect_x(f, vx);
    let ry = reflect_y(f, vy);
    assert(rx == vx || rx == -vx);
    assert(ry == vy || ry == -vy);
    assert(rx * rx == vx * vx) by (nonlinear_arith)
        requires rx == vx || rx == -vx;
    assert(ry * ry == vy * vy) by (nonlinear_arith)
        requires ry == vy || ry == -vy;
}

/// No sticking: a component that already points away from the struck face is
/// not flipped again, so resolving the same face twice equals resolving it
/// once.
pub proof fn lemma_no_sticking(f: Face, vx: int, vy: int)
    ensures
        f == Face::Left && vx <= 0 ==> reflect_x(f, vx) == vx,
        f == Face::Right && vx >= 0 ==> reflect_x(f, vx) == vx,
        f == Face::Top && vy >= 0 ==> reflect_y(f, vy) == vy,
        f == Face::Bottom && vy <= 0 ==> reflect_y(f, vy) == vy,
        reflect_x(f, reflect_x(f, vx)) == reflect_x(f, vx),
        reflect_y(f, reflect_y(f, vy)) == reflect_y(f, vy),
{
}

/// Resolves one detected face against a velocity, in place.
pub fn resolve_velocity(f: Face, vx: &mut i64, vy: &mut i64)
    requires
        crate::geom::wf_vel(*old(vx) as int),
        crate::geom::wf_vel(*old(vy) as int),
    ensures
        *final(vx) as int == reflect_x(f, *old(vx) as int),
        *final(vy) as int == reflect_y(f, *old(vy) as int),
{
    match f {
        Face::Left => {
            if *vx > 0 {
                *vx = -*vx;
            }
        }
        Face::Right => {
            if *vx < 0 {
                *vx = -*vx;
            }
        }
        Face::Top => {
            if *vy < 0 {
                *vy = -*vy;
            }
        }
        Face::Bottom => {
            if *vy > 0 {
                *vy = -*vy;
            }
        }
        Face::Inside => {}
    }
}

/// The running state of one tick's collision scan: the ball's velocity, the
/// scoreboard, the indices scheduled for removal (applied only after the
/// scan completes), and how many collision events were emitted.
pub struct ScanState {
    pub vx: int,
    pub vy: int,
    pub score: int,
    pub pending: Seq<int>,
    pub events: int,
}

/// One step of the scan: the ball against the slot at `idx`. The ball's own
/// slot and dead slots are skipped; on overlap the velocity is reflected, a
/// destructible body struck on a directional face is scheduled and scored,
/// and one collision event is emitted whatever the face.
pub open spec fn scan_step(st: ScanState, ball: Body, slot: Slot, idx: int, ball_idx: int) -> ScanState {
    if idx == ball_idx || !slot.alive {
        st
    } else {
        match face_of(ball, slot.body) {
            None => st,
            Some(f) => {
                let destroyed = slot.body.destructible && strikes(f);
                ScanState {
                    vx: reflect_x(f, st.vx),
                    vy: reflect_y(f, st.vy),
                    score: if destroyed { st.score + 1 } else { st.score },
                    pending: if destroyed { st.pending.push(idx) } else { st.pending },
                    events: st.events + 1,
                }
            }
        }
    }
}

/// The scan folded over the first `n` slots of the store, in store order.
pub open spec fn scan_prefix(ball: Body, ball_idx: int, bodies: Seq<Slot>, init: ScanState, n: int) -> ScanState
    decreases n,
{
    if n <= 0 {
        init
    } else {
        scan_step(scan_prefix(ball, ball_idx, bodies, init, n - 1), ball, bodies[n - 1], n - 1, ball_idx)
    }
}

/// Speed invariance across a whole scan: however many bodies the ball strikes
/// in one tick, each velocity component keeps its magnitude.
pub proof fn lemma_scan_speed(ball: Body, ball_idx: int, bodies: Seq<Slot>, init: ScanState, n: int)
    ensures
        iabs(scan_prefix(ball, ball_idx, bodies, init, n).vx) == iabs(init.vx),
        iabs(scan_prefix(ball, ball_idx, bodies, init, n).vy) == iabs(init.vy),
        scan_prefix(ball, ball_idx, bodies, init, n).vx * scan_prefix(ball, ball_idx, bodies, init, n).vx
            + scan_prefix(ball, ball_idx, bodies, init, n).vy * scan_prefix(ball, ball_idx, bodies, init, n).vy
            == init.vx * init.vx + init.vy * init.vy,
    decreases n,
{
    if n <= 0 {
    } else {
        let prev = scan_prefix(ball, ball_idx, bodies, init, n - 1);
        lemma_scan_speed(ball, ball_idx, bodies, init, n - 1);
        if n - 1 == ball_idx || !bodies[n - 1].alive {
        } else {
            match face_of(ball, bodies[n - 1].body) {
                None => {}
                Some(f) => {
                    lemma_speed_invariance(f, prev.vx, prev.vy);
                }
            }
        }
    }
}

/// Single destruction, within one tick: the removal schedule grows only by
/// indices of live destructible bodies struck on a directional face, each
/// index at most once (the schedule is strictly increasing), and the
/// scoreboard rises by exactly one per scheduled body. Events only grow.
pub proof fn lemma_scan_accounting(ball: Body, ball_idx: int, bodies: Seq<Slot>, init: ScanState, n: int)
    ensures
        ({
            let st = scan_prefix(ball, ball_idx, bodies, init, n);
            &&& st.score - init.score == st.pending.len() - init.pending.len()
            &&& st.pending.len() >= init.pending.len()
            &&& forall|j: int| 0 <= j < init.pending.len() ==> st.pending[j] == init.pending[j]
            &&& forall|j: int| init.pending.len() <= j < st.pending.len() ==> {
                &&& 0 <= st.pending[j] < n
                &&& st.pending[j] != ball_idx
                &&& bodies[st.pending[j]].alive
                &&& bodies[st.pending[j]].body.destructible
                &&& match face_of(ball, bodies[st.pending[j]].body) {
                    Some(f) => strikes(f),
                    None => false,
                }
            }
            &&& forall|j1: int, j2: int|
                init.pending.len() <= j1 < j2 < st.pending.len() ==> st.pending[j1] < st.pending[j2]
            &&& st.pending.len() - init.pending.len() <= live_brick_count(bodies, n)
            &&& st.events >= init.events
        }),
    decreases n,
{
    if n <= 0 {
    } else {
        lemma_scan_accounting(ball, ball_idx, bodies, init, n - 1);
    }
}

/// When every directional x face met by the scan is the same face `xf`, the
/// x component can only stay as it is or come out reflected by `xf`.
pub proof fn lemma_scan_vx_membership(ball: Body, ball_idx: int, bodies: Seq<Slot>, init: ScanState, n: int, xf: Face)
    requires
        xf == Face::Left || xf == Face::Right,
        forall|i: int| 0 <= i < n && i != ball_idx && (#[trigger] bodies[i]).alive ==>
            match face_of(ball, bodies[i].body) {
                None => true,
                Some(f) => f == Face::Top || f == Face::Bottom || f == xf,
            },
    ensures
        scan_prefix(ball, ball_idx, bodies, init, n).vx == init.vx
            || scan_prefix(ball, ball_idx, bodies, init, n).vx == reflect_x(xf, init.vx),
    decreases n,
{
    if n > 0 {
        lemma_scan_vx_membership(ball, ball_idx, bodies, init, n - 1, xf);
    }
}

/// If the scan meets `xf` at some live slot `k`, the x component comes out
/// exactly reflected by `xf`: later meetings of the same face cannot flip it
/// back.
pub proof fn lemma_scan_vx_hit(ball: Body, ball_idx: int, bodies: Seq<Slot>, init: ScanState, n: int, k: int, xf: Face)
    requires
        xf == Face::Left || xf == Face::Right,
        forall|i: int| 0 <= i < n && i != ball_idx && (#[trigger] bodies[i]).alive ==>
            match face_of(ball, bodies[i].body) {
                None => true,
                Some(f) => f == Face::Top || f == Face::Bottom || f == xf,
            },
        0 <= k < n,
        k != ball_idx,
        bodies[k].alive,
        face_of(ball, bodies[k].body) == Some(xf),
    ensures
        scan_prefix(ball, ball_idx, bodies, init, n).vx == reflect_x(xf, init.vx),
    decreases n,
{
    if k == n - 1 {
        lemma_scan_vx_membership(ball, ball_idx, bodies, init, n - 1, xf);
    } else {
        lemma_scan_vx_hit(ball, ball_idx, bodies, init, n - 1, k, xf);
    }
}

/// The y-axis twin of `lemma_scan_vx_membership`.
pub proof fn lemma_scan_vy_membership(ball: Body, ball_idx: int, bodies: Seq<Slot>, init: ScanState, n: int, yf: Face)
    requires
        yf == Face::Top || yf == Face::Bottom,
        forall|i: int| 0 <= i < n && i != ball_idx && (#[trigger] bodies[i]).alive ==>
            match face_of(ball, bodies[i].body) {
                None => true,
                Some(f) => f == Face::Left || f == Face::Right || f == yf,
            },
    ensures
        scan_prefix(ball, ball_idx, bodies, init, n).vy == init.vy
            || scan_prefix(ball, ball_idx, bodies, init, n).vy == reflect_y(yf, init.vy),
    decreases n,
{
    if n > 0 {
        lemma_scan_vy_membership(ball, ball_idx, bodies, init, n - 1, yf);
    }
}

/// The y-axis twin of `lemma_scan_vx_hit`.
pub proof fn lemma_scan_vy_hit(ball: Body, ball_idx: int, bodies: Seq<Slot>, init: ScanState, n: int, k: int, yf: Face)
    requires
        yf == Face::Top || yf == Face::Bottom,
        forall|i: int| 0 <= i < n && i != ball_idx && (#[trigger] bodies[i]).alive ==>
            match face_of(ball, bodies[i].body) {
                None => true,
                Some(f) => f == Face::Left || f == Face::Right || f == yf,
            },
        0 <= k < n,
        k != ball_idx,
        bodies[k].alive,
        face_of(ball, bodies[k].body) == Some(yf),
    ensures
        scan_prefix(ball, ball_idx, bodies, init, n).vy == reflect_y(yf, init.vy),
    decreases n,
{
    if k == n - 1 {
        lemma_scan_vy_membership(ball, ball_idx, bodies, init, n - 1, yf);
    } else {
        lemma_scan_vy_hit(ball, ball_idx, bodies, init, n - 1, k, yf);
    }
}

} // verus!
