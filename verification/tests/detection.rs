use breakout_core::body::Body;
use breakout_core::detect::{detect, Face};
use breakout_core::geom::Vec2i;
use breakout_core::resolve::resolve_velocity;

fn fixed(x: i64, y: i64, hx: i64, hy: i64) -> Body {
    Body {
        position: Vec2i { x, y },
        half_extent: Vec2i { x: hx, y: hy },
        velocity: None,
        destructible: false,
    }
}

#[test]
fn separated_boxes_do_not_collide() {
    let a = fixed(0, 0, 10, 10);
    let b = fixed(100, 0, 10, 10);
    assert_eq!(detect(&a, &b), None);
}

#[test]
fn touching_edges_do_not_collide() {
    let a = fixed(0, 0, 10, 10);
    let b = fixed(20, 0, 10, 10);
    assert_eq!(detect(&a, &b), None);
}

#[test]
fn shallow_axis_picks_left_face() {
    // a sticks into b from the left: x penetration 5, y penetration 30.
    let a = fixed(-25, 0, 10, 10);
    let b = fixed(0, 0, 20, 20);
    assert_eq!(detect(&a, &b), Some(Face::Left));
}

#[test]
fn shallow_axis_picks_right_face() {
    let a = fixed(25, 0, 10, 10);
    let b = fixed(0, 0, 20, 20);
    assert_eq!(detect(&a, &b), Some(Face::Right));
}

#[test]
fn shallow_axis_picks_bottom_face() {
    let a = fixed(0, -25, 10, 10);
    let b = fixed(0, 0, 20, 20);
    assert_eq!(detect(&a, &b), Some(Face::Bottom));
}

#[test]
fn shallow_axis_picks_top_face() {
    let a = fixed(0, 25, 10, 10);
    let b = fixed(0, 0, 20, 20);
    assert_eq!(detect(&a, &b), Some(Face::Top));
}

#[test]
fn equal_depths_tie_to_x_axis() {
    // Both axes penetrate by 5; the x axis wins the tie.
    let a = fixed(0, 0, 10, 10);
    let b = fixed(15, 15, 10, 10);
    assert_eq!(detect(&a, &b), Some(Face::Left));
}

#[test]
fn contained_box_reports_inside() {
    let a = fixed(0, 0, 5, 5);
    let b = fixed(0, 0, 50, 50);
    assert_eq!(detect(&a, &b), Some(Face::Inside));
    // Containment the other way round as well.
    assert_eq!(detect(&b, &a), Some(Face::Inside));
}

#[test]
fn ball_level_with_top_wall_reports_top() {
    // A 30 by 30 ball whose centre sits on the top wall's centre line
    // (wall at y = 300, thickness 10): the y axis is far shallower and the
    // centres tie, which reads as the ball being at or above the wall.
    let ball = fixed(0, 300, 15, 15);
    let wall = fixed(0, 300, 455, 5);
    assert_eq!(detect(&ball, &wall), Some(Face::Top));
}

#[test]
fn ball_under_top_wall_reports_bottom() {
    // The same wall struck from below, the ordinary bounce geometry.
    let ball = fixed(0, 285, 15, 15);
    let wall = fixed(0, 300, 455, 5);
    assert_eq!(detect(&ball, &wall), Some(Face::Bottom));
}

#[test]
fn reflection_flips_only_component_into_face() {
    let mut vx = 200i64;
    let mut vy = 300i64;
    resolve_velocity(Face::Bottom, &mut vx, &mut vy);
    assert_eq!((vx, vy), (200, -300));
}

#[test]
fn reflection_left_face_needs_rightward_motion() {
    let mut vx = 150i64;
    let mut vy = 40i64;
    resolve_velocity(Face::Left, &mut vx, &mut vy);
    assert_eq!((vx, vy), (-150, 40));
    // Already moving away: resolving the same face again changes nothing.
    resolve_velocity(Face::Left, &mut vx, &mut vy);
    assert_eq!((vx, vy), (-150, 40));
}

#[test]
fn reflection_ignores_components_pointing_away() {
    let mut vx = -80i64;
    let mut vy = 0i64;
    resolve_velocity(Face::Left, &mut vx, &mut vy);
    assert_eq!((vx, vy), (-80, 0));
    resolve_velocity(Face::Top, &mut vx, &mut vy);
    assert_eq!((vx, vy), (-80, 0));
}

#[test]
fn reflection_inside_changes_nothing() {
    let mut vx = 123i64;
    let mut vy = -456i64;
    resolve_velocity(Face::Inside, &mut vx, &mut vy);
    assert_eq!((vx, vy), (123, -456));
}

#[test]
fn reflection_preserves_speed_squared() {
    let faces = [Face::Left, Face::Right, Face::Top, Face::Bottom, Face::Inside];
    for f in faces {
        let mut vx = 200i64;
        let mut vy = -300i64;
        let before = vx * vx + vy * vy;
        resolve_velocity(f, &mut vx, &mut vy);
        assert_eq!(vx * vx + vy * vy, before);
    }
}
