use vstd::prelude::*;

use crate::primitives::{min_int, Aabb, Rect, RectExt, Vec2, Vector};

verus! {

/// Overlaps thinner than this on both axes (a ten-thousandth of a pixel) are
/// not treated as collisions.
pub const COLLISION_TOLERANCE: i64 = 100;

/// The intersection is thinner than the tolerance on both axes.
pub open spec fn grazing(c: Aabb) -> bool {
    c.w < COLLISION_TOLERANCE && c.h < COLLISION_TOLERANCE
}

/// The signed correction along one axis for a body that travels at `speed`
/// along that axis and overlaps an obstacle by `depth`: the body is pushed
/// back against its direction of travel. A body that does not move along the
/// axis is not corrected along it.
pub open spec fn push_back(depth: int, speed: int) -> Option<int> {
    if speed > 0 {
        Some(-depth)
    } else if speed < 0 {
        Some(depth)
    } else {
        None
    }
}

/// The translation that [`find_mtv`] returns.
pub open spec fn mtv(target: Aabb, o: Aabb, velocity: Vector, along_x: bool) -> Option<Vector> {
    match target.clip(o) {
        None => None,
        Some(c) => if grazing(c) {
            None
        } else if along_x {
            match push_back(c.w, velocity.x) {
                Some(dx) => Some(Vector { x: dx, y: 0 }),
                None => None,
            }
        } else {
            match push_back(c.h, velocity.y) {
                Some(dy) => Some(Vector { x: 0, y: dy }),
                None => None,
            }
        },
    }
}

/// `target` after the correction, if any, that separates it from `o` along
/// the chosen axis.
pub open spec fn resolved(target: Aabb, o: Aabb, velocity: Vector, along_x: bool) -> Aabb {
    match mtv(target, o, velocity, along_x) {
        Some(d) => target.at(target.origin().plus(d)),
        None => target,
    }
}

/// Finds the minimum translation vector that moves `target` backwards along
/// one axis of its velocity so that it no longer collides with `o`.
///
/// There is no correction when the rectangles do not overlap, nor when the
/// overlap is thinner than [`COLLISION_TOLERANCE`] on both axes. Otherwise the
/// correction has the size of the overlap along the chosen axis and points
/// against the velocity's component on that axis; the other component is 0.
/// A velocity that is exactly zero on the chosen axis has no direction to
/// push back against: the collision is then left unresolved along that axis
/// and there is no correction.
pub fn find_mtv(target: &Rect, o: &Rect, velocity: Vec2, along_x: bool) -> (offs: Option<Vec2>)
    ensures
        match offs {
            Some(d) => mtv(target@, o@, velocity@, along_x) == Some(d@),
            None => mtv(target@, o@, velocity@, along_x) is None,
        },
{
    let coll_box = match target.clip(o) {
        Some(c) => c,
        None => {
            return None;
        },
    };
    if coll_box.w < COLLISION_TOLERANCE && coll_box.h < COLLISION_TOLERANCE {
        return None;
    }
    let (depth, speed): (i64, i64) = if along_x {
        (coll_box.w, velocity.x)
    } else {
        (coll_box.h, velocity.y)
    };
    if speed == 0 {
        return None;
    }
    let amount: i64 = if speed > 0 {
        -depth
    } else {
        depth
    };
    if along_x {
        Some(Vec2 { x: amount, y: 0 })
    } else {
        Some(Vec2 { x: 0, y: amount })
    }
}

/// The correction `d` is not zero, points against `speed`, and is no longer
/// than `bound`.
pub open spec fn against(d: int, speed: int, bound: int) -> bool {
    &&& speed != 0
    &&& speed > 0 ==> -bound <= d < 0
    &&& speed < 0 ==> 0 < d <= bound
}

/// A correction moves the body along the chosen axis only, against its
/// velocity on that axis, and by no more than the smaller of the two
/// rectangles' extents along it.
pub proof fn lemma_mtv_shape(target: Aabb, o: Aabb, velocity: Vector, along_x: bool)
    requires
        mtv(target, o, velocity, along_x) is Some,
    ensures
        target.overlaps(o),
        along_x ==> mtv(target, o, velocity, along_x).unwrap().y == 0 && against(
            mtv(target, o, velocity, along_x).unwrap().x,
            velocity.x,
            min_int(target.w, o.w),
        ),
        !along_x ==> mtv(target, o, velocity, along_x).unwrap().x == 0 && against(
            mtv(target, o, velocity, along_x).unwrap().y,
            velocity.y,
            min_int(target.h, o.h),
        ),
{
}

/// A body that has entered an obstacle from the left or the right by no more
/// than its own width and the obstacle's width is, once corrected along x,
/// flush with the side by which it entered: it no longer overlaps the
/// obstacle.
pub proof fn lemma_resolved_flush_x(target: Aabb, o: Aabb, velocity: Vector, depth: int)
    requires
        mtv(target, o, velocity, true) is Some,
        0 < depth <= target.w,
        depth <= o.w,
        velocity.x > 0 ==> target.right() == o.x + depth,
        velocity.x < 0 ==> target.x == o.right() - depth,
    ensures
        !resolved(target, o, velocity, true).overlaps(o),
        velocity.x > 0 ==> resolved(target, o, velocity, true).right() == o.x,
        velocity.x < 0 ==> resolved(target, o, velocity, true).x == o.right(),
        resolved(target, o, velocity, true).y == target.y,
{
}

/// A body that has entered an obstacle from above or below by no more than
/// its own height and the obstacle's height is, once corrected along y,
/// flush with the side by which it entered: it no longer overlaps the
/// obstacle.
pub proof fn lemma_resolved_flush_y(target: Aabb, o: Aabb, velocity: Vector, depth: int)
    requires
        mtv(target, o, velocity, false) is Some,
        0 < depth <= target.h,
        depth <= o.h,
        velocity.y > 0 ==> target.top() == o.y + depth,
        velocity.y < 0 ==> target.y == o.top() - depth,
    ensures
        !resolved(target, o, velocity, false).overlaps(o),
        velocity.y > 0 ==> resolved(target, o, velocity, false).top() == o.y,
        velocity.y < 0 ==> resolved(target, o, velocity, false).y == o.top(),
        resolved(target, o, velocity, false).x == target.x,
{
}

/// `cur` has the size of `moved` and lies no further from it, along either
/// axis, than the extent of `moved` and `slack` together.
pub open spec fn near(cur: Aabb, moved: Aabb, slack: int) -> bool {
    &&& cur.w == moved.w
    &&& cur.h == moved.h
    &&& moved.x - moved.w - slack <= cur.x <= moved.x + moved.w + slack
    &&& moved.y - moved.h - slack <= cur.y <= moved.y + moved.h + slack
}

/// Corrections do not carry a body away. A body that is corrected against
/// an obstacle which overlaps the place `moved`, where the body was when the
/// corrections began, ends no further from `moved` than the body's and the
/// obstacle's extents together, however far earlier corrections have taken
/// it. The correction changes the chosen coordinate only.
pub proof fn lemma_resolved_stays_near(
    cur: Aabb,
    moved: Aabb,
    o: Aabb,
    velocity: Vector,
    along_x: bool,
    slack: int,
)
    requires
        near(cur, moved, slack),
        moved.solid(),
        o.overlaps(moved),
        0 <= o.w <= slack,
        0 <= o.h <= slack,
    ensures
        near(resolved(cur, o, velocity, along_x), moved, slack),
        along_x ==> resolved(cur, o, velocity, along_x).y == cur.y,
        !along_x ==> resolved(cur, o, velocity, along_x).x == cur.x,
{
}

} // verus!
