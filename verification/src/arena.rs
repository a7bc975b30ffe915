//! Bounded containment: with the four standard walls in place, a tick never
//! lets the ball's bounding box leave the rectangle the walls span. The
//! invariant is that the box lies within the walls' outer rectangle and,
//! wherever it penetrates a wall's inner edge, the velocity already points
//! back inward; one tick of integration and wall resolution re-establishes
//! it, as long as the ball's step is no longer than a wall's thickness and
//! nothing besides the walls overlaps the ball that tick.

use vstd::prelude::*;
use crate::geom::{iabs, scaled, Vec2i};
use crate::body::Body;
use crate::detect::{face_of, Face};
use crate::resolve::{lemma_scan_vx_hit, lemma_scan_vy_hit, reflect_x, reflect_y};
use crate::world::{
    integrated_slot, paddle_moved_seq, standard_wall, Input, World, BALL_HALF,
    BOTTOM_WALL_Y, LEFT_WALL_X, RIGHT_WALL_X, TOP_WALL_Y, WALL_THICKNESS,
};

verus! {

/// The ball's containment invariant against the standard walls: its box
/// lies within the walls' outer rectangle, and wherever it penetrates a
/// wall's inner edge the velocity on that axis points back into the arena.
pub open spec fn ball_contained(x: int, y: int, vx: int, vy: int) -> bool {
    &&& LEFT_WALL_X - WALL_THICKNESS / 2 <= x - BALL_HALF
    &&& x + BALL_HALF <= RIGHT_WALL_X + WALL_THICKNESS / 2
    &&& BOTTOM_WALL_Y - WALL_THICKNESS / 2 <= y - BALL_HALF
    &&& y + BALL_HALF <= TOP_WALL_Y + WALL_THICKNESS / 2
    &&& x - BALL_HALF < LEFT_WALL_X + WALL_THICKNESS / 2 ==> vx > 0
    &&& x + BALL_HALF > RIGHT_WALL_X - WALL_THICKNESS / 2 ==> vx < 0
    &&& y - BALL_HALF < BOTTOM_WALL_Y + WALL_THICKNESS / 2 ==> vy > 0
    &&& y + BALL_HALF > TOP_WALL_Y - WALL_THICKNESS / 2 ==> vy < 0
}

/// Bounded containment: a tick of a world with the standard layout's walls
/// keeps the ball's bounding box inside the arena rectangle. The hypotheses
/// are the containment invariant itself, a step of at most one wall
/// thickness per axis, and a tick in which nothing but the walls overlaps
/// the ball — the invariant holds again afterwards, over the tick's own
/// integrated position and resolved velocity, so it carries from tick to
/// tick.
pub proof fn lemma_bounded_containment(w: World, input: Input)
    requires
        w.wf(),
        w.paddle == 0,
        w.ball == 1,
        w.bodies@.len() >= 6,
        w.bodies@[2] == standard_wall(0),
        w.bodies@[3] == standard_wall(1),
        w.bodies@[4] == standard_wall(2),
        w.bodies@[5] == standard_wall(3),
        w.ball_body().half_extent == (Vec2i { x: BALL_HALF, y: BALL_HALF }),
        iabs(scaled(w.ball_velocity().x as int, w.dt_ms as int)) <= WALL_THICKNESS,
        iabs(scaled(w.ball_velocity().y as int, w.dt_ms as int)) <= WALL_THICKNESS,
        ball_contained(
            w.ball_body().position.x as int,
            w.ball_body().position.y as int,
            w.ball_velocity().x as int,
            w.ball_velocity().y as int,
        ),
        forall|i: int| (i == 0 || 6 <= i < w.bodies@.len())
            && (#[trigger] w.pre_scan_seq(input)[i]).alive
            ==> face_of(w.pre_scan_seq(input)[1].body, w.pre_scan_seq(input)[i].body) is None,
    ensures
        ({
            let b2 = w.pre_scan_seq(input);
            let st = w.tick_scan(input);
            ball_contained(
                b2[1].body.position.x as int,
                b2[1].body.position.y as int,
                st.vx,
                st.vy,
            )
        }),
{
    let dt = w.dt_ms as int;
    let n = w.bodies@.len() as int;
    let b1 = paddle_moved_seq(w.bodies@, 0, input, dt);
    let b2 = w.pre_scan_seq(input);
    let v = w.ball_velocity();
    let x = w.ball_body().position.x as int;
    let y = w.ball_body().position.y as int;
    let dx = scaled(v.x as int, dt);
    let dy = scaled(v.y as int, dt);
    crate::geom::lemma_scaled_bound(v.x as int, dt);
    crate::geom::lemma_scaled_bound(v.y as int, dt);
    vstd::arithmetic::div_mod::lemma_fundamental_div_mod(WALL_THICKNESS as int, 2);
    vstd::arithmetic::div_mod::lemma_mod_bound(WALL_THICKNESS as int, 2);
    vstd::arithmetic::div_mod::lemma_fundamental_div_mod(
        TOP_WALL_Y - BOTTOM_WALL_Y + WALL_THICKNESS, 2);
    vstd::arithmetic::div_mod::lemma_mod_bound(TOP_WALL_Y - BOTTOM_WALL_Y + WALL_THICKNESS, 2);
    vstd::arithmetic::div_mod::lemma_fundamental_div_mod(
        RIGHT_WALL_X - LEFT_WALL_X + WALL_THICKNESS, 2);
    vstd::arithmetic::div_mod::lemma_mod_bound(RIGHT_WALL_X - LEFT_WALL_X + WALL_THICKNESS, 2);
    assert(WALL_THICKNESS / 2 == 5);
    // The ball's slot through the controller and the integrator.
    assert(b1[1] == w.bodies@[1]);
    assert(b2[1] == integrated_slot(b1[1], dt));
    let x2 = x + dx;
    let y2 = y + dy;
    assert(b2[1].body.position.x as int == x2);
    assert(b2[1].body.position.y as int == y2);
    assert(b2[1].body.half_extent == (Vec2i { x: BALL_HALF, y: BALL_HALF }));
    let ball2 = b2[1].body;
    // The walls pass through both phases untouched.
    assert(b1[2] == w.bodies@[2] && b1[3] == w.bodies@[3]
        && b1[4] == w.bodies@[4] && b1[5] == w.bodies@[5]);
    assert(b2[2] == integrated_slot(b1[2], dt));
    assert(b2[3] == integrated_slot(b1[3], dt));
    assert(b2[4] == integrated_slot(b1[4], dt));
    assert(b2[5] == integrated_slot(b1[5], dt));
    assert(b2[2].body == standard_wall(0).body && b2[2].alive);
    assert(b2[3].body == standard_wall(1).body && b2[3].alive);
    assert(b2[4].body == standard_wall(2).body && b2[4].alive);
    assert(b2[5].body == standard_wall(3).body && b2[5].alive);
    assert(b2[2].body.half_extent.y == 305 && b2[2].body.half_extent.x == 5);
    assert(b2[4].body.half_extent.x == 455 && b2[4].body.half_extent.y == 5);
    // The box never leaves the outer rectangle: a penetrating ball is
    // already moving back inward, and any other ball moves at most one
    // wall thickness.
    if x - BALL_HALF < LEFT_WALL_X + 5 {
        assert(v.x > 0 && dx >= 0);
    }
    if x + BALL_HALF > RIGHT_WALL_X - 5 {
        assert(v.x < 0 && dx <= 0);
    }
    if y - BALL_HALF < BOTTOM_WALL_Y + 5 {
        assert(v.y > 0 && dy >= 0);
    }
    if y + BALL_HALF > TOP_WALL_Y - 5 {
        assert(v.y < 0 && dy <= 0);
    }
    assert(LEFT_WALL_X - 5 <= x2 - BALL_HALF);
    assert(x2 + BALL_HALF <= RIGHT_WALL_X + 5);
    assert(BOTTOM_WALL_Y - 5 <= y2 - BALL_HALF);
    assert(y2 + BALL_HALF <= TOP_WALL_Y + 5);
    // What the detector reports for each wall at the integrated position.
    if x2 - BALL_HALF < LEFT_WALL_X + 5 {
        assert(face_of(ball2, b2[2].body) == Some(Face::Right));
    } else {
        assert(face_of(ball2, b2[2].body) is None);
    }
    if x2 + BALL_HALF > RIGHT_WALL_X - 5 {
        assert(face_of(ball2, b2[3].body) == Some(Face::Left));
    } else {
        assert(face_of(ball2, b2[3].body) is None);
    }
    if y2 - BALL_HALF < BOTTOM_WALL_Y + 5 {
        assert(face_of(ball2, b2[4].body) == Some(Face::Top));
    } else {
        assert(face_of(ball2, b2[4].body) is None);
    }
    if y2 + BALL_HALF > TOP_WALL_Y - 5 {
        assert(face_of(ball2, b2[5].body) == Some(Face::Bottom));
    } else {
        assert(face_of(ball2, b2[5].body) is None);
    }
    let st = w.tick_scan(input);
    let init = w.scan_init();
    assert(init.vx == v.x as int && init.vy == v.y as int);
    assert(b2.len() == n);
    assert(b2[1].body == ball2);
    // The resolved x component points inward wherever the box penetrates.
    if x2 - BALL_HALF < LEFT_WALL_X + 5 {
        assert forall|i: int| 0 <= i < n && i != 1 && (#[trigger] b2[i]).alive implies
            match face_of(ball2, b2[i].body) {
                None => true,
                Some(f) => f == Face::Top || f == Face::Bottom || f == Face::Right,
            } by {
            if i == 0 || i >= 6 {
                assert(face_of(b2[1].body, b2[i].body) is None);
            }
        }
        lemma_scan_vx_hit(ball2, 1, b2, init, n, 2, Face::Right);
        assert(st.vx == reflect_x(Face::Right, v.x as int));
        if x - BALL_HALF >= LEFT_WALL_X + 5 {
            assert(dx < 0);
            assert(v.x < 0);
        }
        assert(st.vx > 0);
    }
    if x2 + BALL_HALF > RIGHT_WALL_X - 5 {
        assert forall|i: int| 0 <= i < n && i != 1 && (#[trigger] b2[i]).alive implies
            match face_of(ball2, b2[i].body) {
                None => true,
                Some(f) => f == Face::Top || f == Face::Bottom || f == Face::Left,
            } by {
            if i == 0 || i >= 6 {
                assert(face_of(b2[1].body, b2[i].body) is None);
            }
        }
        lemma_scan_vx_hit(ball2, 1, b2, init, n, 3, Face::Left);
        assert(st.vx == reflect_x(Face::Left, v.x as int));
        if x + BALL_HALF <= RIGHT_WALL_X - 5 {
            assert(dx > 0);
            assert(v.x > 0);
        }
        assert(st.vx < 0);
    }
    // And likewise the y component.
    if y2 - BALL_HALF < BOTTOM_WALL_Y + 5 {
        assert forall|i: int| 0 <= i < n && i != 1 && (#[trigger] b2[i]).alive implies
            match face_of(ball2, b2[i].body) {
                None => true,
                Some(f) => f == Face::Left || f == Face::Right || f == Face::Top,
            } by {
            if i == 0 || i >= 6 {
                assert(face_of(b2[1].body, b2[i].body) is None);
            }
        }
        lemma_scan_vy_hit(ball2, 1, b2, init, n, 4, Face::Top);
        assert(st.vy == reflect_y(Face::Top, v.y as int));
        if y - BALL_HALF >= BOTTOM_WALL_Y + 5 {
            assert(dy < 0);
            assert(v.y < 0);
        }
        assert(st.vy > 0);
    }
    if y2 + BALL_HALF > TOP_WALL_Y - 5 {
        assert forall|i: int| 0 <= i < n && i != 1 && (#[trigger] b2[i]).alive implies
            match face_of(ball2, b2[i].body) {
                None => true,
                Some(f) => f == Face::Left || f == Face::Right || f == Face::Bottom,
            } by {
            if i == 0 || i >= 6 {
                assert(face_of(b2[1].body, b2[i].body) is None);
            }
        }
        lemma_scan_vy_hit(ball2, 1, b2, init, n, 5, Face::Bottom);
        assert(st.vy == reflect_y(Face::Bottom, v.y as int));
        if y + BALL_HALF <= TOP_WALL_Y - 5 {
            assert(dy > 0);
            assert(v.y > 0);
        }
        assert(st.vy < 0);
    }
}

} // verus!
