//! Collision detection: axis-aligned bounding-box overlap and the struck
//! face. The face is found by the shallow-axis rule: the axis of least
//! penetration is the axis the moving body entered through, and the sign of
//! the centre difference on that axis picks the side. A box wholly contained
//! in the other yields `Inside`, for which resolution takes no action on the
//! velocity.

use vstd::prelude::*;
use crate::geom::iabs;
use crate::body::Body;

verus! {

/// Where body `a` stands relative to the struck body `b`: `Left` means `a`
/// entered through `b`'s left face (so `a`'s centre lies to the left), and so
/// on. `Inside` means one bounding box wholly contains the other, so no exit
/// face is meaningful.
#[derive(Clone, Copy, Debug, PartialEq, Eq, Structural)]
pub enum Face {
    Left,
    Right,
    Top,
    Bottom,
    Inside,
}

/// Penetration depth along the x axis: positive when the x intervals of the
/// two boxes overlap.
pub open spec fn depth_x(a: Body, b: Body) -> int {
    a.half_extent.x + b.half_extent.x - iabs(a.position.x - b.position.x)
}

/// Penetration depth along the y axis.
pub open spec fn depth_y(a: Body, b: Body) -> int {
    a.half_extent.y + b.half_extent.y - iabs(a.position.y - b.position.y)
}

/// The boxes overlap when both axes penetrate strictly; touching edges do
/// not collide.
pub open spec fn overlaps(a: Body, b: Body) -> bool {
    depth_x(a, b) > 0 && depth_y(a, b) > 0
}

/// `a`'s bounding box lies wholly within `b`'s (edges may coincide).
pub open spec fn contained_in(a: Body, b: Body) -> bool {
    &&& b.min_x() <= a.min_x()
    &&& a.max_x() <= b.max_x()
    &&& b.min_y() <= a.min_y()
    &&& a.max_y() <= b.max_y()
}

/// The detector's verdict for moving body `a` against body `b`: `None` when
/// the boxes do not overlap; `Inside` when either box contains the other;
/// otherwise the face picked by the shallow-axis rule, with ties between the
/// axes going to the x axis and ties between sides to `Right`/`Top`.
pub open spec fn face_of(a: Body, b: Body) -> Option<Face> {
    if !overlaps(a, b) {
        None
    } else if contained_in(a, b) || contained_in(b, a) {
        Some(Face::Inside)
    } else if depth_x(a, b) <= depth_y(a, b) {
        if a.position.x < b.position.x {
            Some(Face::Left)
        } else {
            Some(Face::Right)
        }
    } else {
        if a.position.y < b.position.y {
            Some(Face::Bottom)
        } else {
            Some(Face::Top)
        }
    }
}

/// Computes `face_of(a, b)`: the AABB overlap test and, on overlap, the
/// struck face.
pub fn detect(a: &Body, b: &Body) -> (r: Option<Face>)
    requires
        a.wf(),
        b.wf(),
    ensures
        r == face_of(*a, *b),
{
    let dx: i64 = if a.position.x >= b.position.x {
        a.position.x - b.position.x
    } else {
        b.position.x - a.position.x
    };
    let dy: i64 = if a.position.y >= b.position.y {
        a.position.y - b.position.y
    } else {
        b.position.y - a.position.y
    };
    let pen_x: i64 = a.half_extent.x + b.half_extent.x - dx;
    let pen_y: i64 = a.half_extent.y + b.half_extent.y - dy;
    if pen_x <= 0 || pen_y <= 0 {
        return None;
    }
    let a_in_b = b.position.x - b.half_extent.x <= a.position.x - a.half_extent.x
        && a.position.x + a.half_extent.x <= b.position.x + b.half_extent.x
        && b.position.y - b.half_extent.y <= a.position.y - a.half_extent.y
        && a.position.y + a.half_extent.y <= b.position.y + b.half_extent.y;
    let b_in_a = a.position.x - a.half_extent.x <= b.position.x - b.half_extent.x
        && b.position.x + b.half_extent.x <= a.position.x + a.half_extent.x
        && a.position.y - a.half_extent.y <= b.position.y - b.half_extent.y
        && b.position.y + b.half_extent.y <= a.position.y + a.half_extent.y;
    if a_in_b || b_in_a {
        Some(Face::Inside)
    } else if pen_x <= pen_y {
        if a.position.x < b.position.x {
            Some(Face::Left)
        } else {
            Some(Face::Right)
        }
    } else {
        if a.position.y < b.position.y {
            Some(Face::Bottom)
        } else {
            Some(Face::Top)
        }
    }
}

} // verus!
