use vstd::prelude::*;
use vstd::arithmetic::div_mod::{lemma_div_is_ordered, lemma_div_pos_is_pos};

use crate::actor::ActorView;
use crate::collision::{grazing, lemma_resolved_stays_near, near, resolved, COLLISION_TOLERANCE};
use crate::constants::{MICROS_PER_SECOND, SPEED_LIMIT, UNIT, WORLD_LIMIT};
use crate::level_handler::{
    hit_by,
    lemma_collisions_are_hits,
    lemma_filter_member,
    LevelView,
};
use crate::primitives::{max_int, min_int, Aabb, Vector};

verus! {

/// The longest distance that a step can cover along one axis: the speed
/// limit, held for the longest step.
pub const TRAVEL_LIMIT: i64 = 4_294_967_295_000_000;

/// The distance covered in `micros` microseconds at `speed` length units
/// per second, rounded towards zero, with the sign of the speed.
pub open spec fn travel(speed: int, micros: nat) -> int {
    if speed >= 0 {
        (speed * micros) / (MICROS_PER_SECOND as int)
    } else {
        -((-speed * micros) / (MICROS_PER_SECOND as int))
    }
}

/// The distance covered in `micros` microseconds at `speed`.
pub fn distance(speed: i64, micros: u32) -> (d: i64)
    requires
        -SPEED_LIMIT <= speed <= SPEED_LIMIT,
    ensures
        d == travel(speed as int, micros as nat),
        -TRAVEL_LIMIT <= d <= TRAVEL_LIMIT,
        speed >= 0 ==> d >= 0,
        speed <= 0 ==> d <= 0,
{
    let magnitude: i128 = if speed >= 0 {
        speed as i128
    } else {
        -(speed as i128)
    };
    proof {
        assert(0 <= magnitude * micros <= SPEED_LIMIT * 4_294_967_295) by (nonlinear_arith)
            requires
                0 <= magnitude <= SPEED_LIMIT,
                0 <= micros <= 4_294_967_295,
        ;
        lemma_div_is_ordered(
            magnitude * micros,
            SPEED_LIMIT * 4_294_967_295,
            MICROS_PER_SECOND as int,
        );
        lemma_div_pos_is_pos(magnitude * micros, MICROS_PER_SECOND as int);
        assert(magnitude == 0 ==> magnitude * micros == 0) by (nonlinear_arith);
        assert(SPEED_LIMIT * 4_294_967_295 / (MICROS_PER_SECOND as int) == TRAVEL_LIMIT);
    }
    let covered: i128 = magnitude * (micros as i128) / (MICROS_PER_SECOND as i128);
    if speed >= 0 {
        covered as i64
    } else {
        -(covered as i64)
    }
}

/// The body after the corrections for `hits`, made one after the other in
/// the order of the sequence, each against the body as the corrections
/// before it left it.
pub open spec fn pushed_out(
    body: Aabb,
    hits: Seq<ActorView>,
    velocity: Vector,
    along_x: bool,
) -> Aabb
    decreases hits.len(),
{
    if hits.len() == 0 {
        body
    } else {
        resolved(
            pushed_out(body, hits.drop_last(), velocity, along_x),
            hits.last().bbox,
            velocity,
            along_x,
        )
    }
}

/// The body moved by `distance` along one axis.
pub open spec fn shifted(body: Aabb, distance: int, along_x: bool) -> Aabb {
    if along_x {
        Aabb { x: body.x + distance, ..body }
    } else {
        Aabb { y: body.y + distance, ..body }
    }
}

/// The body after one axis of a step: moved by `distance` along the axis,
/// then corrected against the ground blocks that it overlaps where the move
/// has taken it.
pub open spec fn slid(
    body: Aabb,
    level: LevelView,
    velocity: Vector,
    distance: int,
    along_x: bool,
) -> Aabb {
    let moved = shifted(body, distance, along_x);
    pushed_out(moved, level.collisions(moved), velocity, along_x)
}

/// The body after a step of `micros` microseconds at `velocity`: first the
/// x axis is moved along and corrected, then the y axis.
pub open spec fn swept(body: Aabb, level: LevelView, velocity: Vector, micros: nat) -> Aabb {
    let after_x = slid(body, level, velocity, travel(velocity.x, micros), true);
    slid(after_x, level, velocity, travel(velocity.y, micros), false)
}

/// The box, one pixel high, directly below `body`, by which it is told
/// whether the body stands on something.
pub open spec fn ground_probe(body: Aabb) -> Aabb {
    Aabb { x: body.x, y: body.y - UNIT, w: body.w, h: UNIT as int }
}

/// The size of a number.
pub open spec fn magnitude(d: int) -> int {
    if d >= 0 {
        d
    } else {
        -d
    }
}

/// The level that holds the one ground block `obstacle`.
pub open spec fn single(obstacle: ActorView, extent: Aabb) -> LevelView {
    LevelView { actors: seq![obstacle], bbox: extent }
}

/// A body travels in the direction of its speed, and not at all without
/// speed or time.
pub proof fn lemma_travel_sign(speed: int, micros: nat)
    ensures
        speed >= 0 ==> travel(speed, micros) >= 0,
        speed <= 0 ==> travel(speed, micros) <= 0,
        speed == 0 || micros == 0 ==> travel(speed, micros) == 0,
{
    let m = MICROS_PER_SECOND as int;
    if speed >= 0 {
        assert(speed * micros >= 0) by (nonlinear_arith)
            requires
                speed >= 0,
                micros >= 0,
        ;
        lemma_div_pos_is_pos(speed * micros, m);
    } else {
        assert(-speed * micros >= 0) by (nonlinear_arith)
            requires
                speed < 0,
                micros >= 0,
        ;
        lemma_div_pos_is_pos(-speed * micros, m);
    }
    if speed == 0 || micros == 0 {
        assert(speed * micros == 0 && -speed * micros == 0) by (nonlinear_arith)
            requires
                speed == 0 || micros == 0,
        ;
    }
}

/// A body without speed along an axis is not corrected along it.
pub proof fn lemma_pushed_out_at_rest(
    body: Aabb,
    hits: Seq<ActorView>,
    velocity: Vector,
    along_x: bool,
)
    requires
        along_x ==> velocity.x == 0,
        !along_x ==> velocity.y == 0,
    ensures
        pushed_out(body, hits, velocity, along_x) == body,
    decreases hits.len(),
{
    if hits.len() > 0 {
        lemma_pushed_out_at_rest(body, hits.drop_last(), velocity, along_x);
    }
}

/// Corrections keep a body's size, change the chosen coordinate only, and
/// never move the body along its velocity: a body that moves right is
/// pushed left or not at all, and so on.
pub proof fn lemma_pushed_out_against(
    body: Aabb,
    hits: Seq<ActorView>,
    velocity: Vector,
    along_x: bool,
)
    ensures
        pushed_out(body, hits, velocity, along_x).w == body.w,
        pushed_out(body, hits, velocity, along_x).h == body.h,
        along_x ==> pushed_out(body, hits, velocity, along_x).y == body.y,
        !along_x ==> pushed_out(body, hits, velocity, along_x).x == body.x,
        along_x && velocity.x >= 0 ==> pushed_out(body, hits, velocity, along_x).x <= body.x,
        along_x && velocity.x <= 0 ==> pushed_out(body, hits, velocity, along_x).x >= body.x,
        !along_x && velocity.y >= 0 ==> pushed_out(body, hits, velocity, along_x).y <= body.y,
        !along_x && velocity.y <= 0 ==> pushed_out(body, hits, velocity, along_x).y >= body.y,
    decreases hits.len(),
{
    if hits.len() > 0 {
        lemma_pushed_out_against(body, hits.drop_last(), velocity, along_x);
    }
}

/// Corrections against obstacles that all overlap the body where it is
/// before the first of them, none of which is wider or higher than `slack`,
/// leave the body no further from that place than its own extent and
/// `slack` together.
pub proof fn lemma_pushed_out_near(
    moved: Aabb,
    hits: Seq<ActorView>,
    velocity: Vector,
    along_x: bool,
    slack: int,
)
    requires
        moved.solid(),
        0 <= slack,
        forall|i: int|
            0 <= i < hits.len() ==> (#[trigger] hits[i]).bbox.overlaps(moved) && 0
                <= hits[i].bbox.w <= slack && 0 <= hits[i].bbox.h <= slack,
    ensures
        near(pushed_out(moved, hits, velocity, along_x), moved, slack),
    decreases hits.len(),
{
    if hits.len() > 0 {
        let before = hits.drop_last();
        assert forall|i: int| 0 <= i < before.len() implies (#[trigger] before[i]).bbox.overlaps(
            moved,
        ) && 0 <= before[i].bbox.w <= slack && 0 <= before[i].bbox.h <= slack by {
            assert(before[i] == hits[i]);
        }
        lemma_pushed_out_near(moved, before, velocity, along_x, slack);
        assert(hits.last() == hits[hits.len() - 1]);
        lemma_resolved_stays_near(
            pushed_out(moved, before, velocity, along_x),
            moved,
            hits.last().bbox,
            velocity,
            along_x,
            slack,
        );
    }
}

/// The corrections of a step do not carry a body away. In a well-formed
/// level, a body that has moved along an axis ends, after the corrections,
/// no further from where the move took it than its own extent and the
/// largest extent of a ground block together.
pub proof fn lemma_slid_stays_near(
    body: Aabb,
    level: LevelView,
    velocity: Vector,
    distance: int,
    along_x: bool,
)
    requires
        body.solid(),
        level.wf(),
    ensures
        near(
            slid(body, level, velocity, distance, along_x),
            shifted(body, distance, along_x),
            WORLD_LIMIT as int,
        ),
{
    let moved = shifted(body, distance, along_x);
    let hits = level.collisions(moved);
    lemma_collisions_are_hits(level, moved);
    lemma_pushed_out_near(moved, hits, velocity, along_x, WORLD_LIMIT as int);
}

/// The body overlaps no ground block of the level.
pub open spec fn clear_of(body: Aabb, level: LevelView) -> bool {
    forall|i: int| 0 <= i < level.actors.len() ==> !(#[trigger] level.actors[i]).bbox.overlaps(body)
}

/// The body overlaps the obstacle by no more than a graze: not at all, or by
/// less than the collision tolerance on both axes.
pub open spec fn grazes_at_most(body: Aabb, obstacle: Aabb) -> bool {
    match body.clip(obstacle) {
        Some(c) => grazing(c),
        None => true,
    }
}

/// The extent of a rectangle along one axis.
pub open spec fn extent_along(body: Aabb, along_x: bool) -> int {
    if along_x {
        body.w
    } else {
        body.h
    }
}

/// The component of a velocity along one axis.
pub open spec fn speed_along(velocity: Vector, along_x: bool) -> int {
    if along_x {
        velocity.x
    } else {
        velocity.y
    }
}

/// `cur` has the size of `start` and lies between `start` and `start` moved
/// by `distance` along one axis.
pub open spec fn between(cur: Aabb, start: Aabb, distance: int, along_x: bool) -> bool {
    &&& cur.w == start.w
    &&& cur.h == start.h
    &&& along_x ==> cur.y == start.y && if distance >= 0 {
        start.x <= cur.x <= start.x + distance
    } else {
        start.x + distance <= cur.x <= start.x
    }
    &&& !along_x ==> cur.x == start.x && if distance >= 0 {
        start.y <= cur.y <= start.y + distance
    } else {
        start.y + distance <= cur.y <= start.y
    }
}

/// A body that has moved from a place where it overlapped none of the
/// obstacles `hits` to a place where it overlaps all of them, by no more
/// than its own and each obstacle's extent, is pushed back by the
/// corrections to a place between the two, where it overlaps none of the
/// obstacles by more than a graze.
pub proof fn lemma_pushed_out_clear(
    start: Aabb,
    hits: Seq<ActorView>,
    velocity: Vector,
    distance: int,
    along_x: bool,
)
    requires
        start.solid(),
        distance > 0 ==> speed_along(velocity, along_x) > 0,
        distance < 0 ==> speed_along(velocity, along_x) < 0,
        magnitude(distance) <= extent_along(start, along_x),
        forall|i: int|
            0 <= i < hits.len() ==> {
                &&& (#[trigger] hits[i]).bbox.solid()
                &&& !hits[i].bbox.overlaps(start)
                &&& hits[i].bbox.overlaps(shifted(start, distance, along_x))
                &&& magnitude(distance) <= extent_along(hits[i].bbox, along_x)
            },
    ensures
        between(
            pushed_out(shifted(start, distance, along_x), hits, velocity, along_x),
            start,
            distance,
            along_x,
        ),
        forall|i: int|
            0 <= i < hits.len() ==> grazes_at_most(
                pushed_out(shifted(start, distance, along_x), hits, velocity, along_x),
                (#[trigger] hits[i]).bbox,
            ),
    decreases hits.len(),
{
    let moved = shifted(start, distance, along_x);
    if hits.len() > 0 {
        let before = hits.drop_last();
        assert forall|i: int| 0 <= i < before.len() implies {
            &&& (#[trigger] before[i]).bbox.solid()
            &&& !before[i].bbox.overlaps(start)
            &&& before[i].bbox.overlaps(moved)
            &&& magnitude(distance) <= extent_along(before[i].bbox, along_x)
        } by {
            assert(before[i] == hits[i]);
        }
        lemma_pushed_out_clear(start, before, velocity, distance, along_x);
        let cur = pushed_out(moved, before, velocity, along_x);
        let last = hits[hits.len() - 1];
        assert(last == hits.last());
        let out = resolved(cur, last.bbox, velocity, along_x);
        assert(out == pushed_out(moved, hits, velocity, along_x));
        assert(between(out, start, distance, along_x));
        assert(grazes_at_most(out, last.bbox));
        assert forall|i: int| 0 <= i < hits.len() implies grazes_at_most(
            out,
            (#[trigger] hits[i]).bbox,
        ) by {
            if i < before.len() {
                assert(before[i] == hits[i]);
                assert(grazes_at_most(cur, hits[i].bbox));
            }
        }
    }
}

/// No tunneling through a level, axis by axis. In a well-formed level, a
/// body that overlaps no ground block, and that moves along one axis by no
/// more than its own extent and the extent of each ground block, overlaps no
/// ground block by more than a graze once it has been corrected; and it
/// has come to lie between where it was and where the move took it.
pub proof fn lemma_slid_stays_clear(
    body: Aabb,
    level: LevelView,
    velocity: Vector,
    micros: nat,
    along_x: bool,
)
    requires
        body.solid(),
        level.wf(),
        clear_of(body, level),
        magnitude(travel(speed_along(velocity, along_x), micros)) <= extent_along(body, along_x),
        forall|i: int|
            0 <= i < level.actors.len() ==> magnitude(
                travel(speed_along(velocity, along_x), micros),
            ) <= extent_along((#[trigger] level.actors[i]).bbox, along_x),
    ensures
        between(
            slid(body, level, velocity, travel(speed_along(velocity, along_x), micros), along_x),
            body,
            travel(speed_along(velocity, along_x), micros),
            along_x,
        ),
        forall|i: int|
            0 <= i < level.actors.len() ==> grazes_at_most(
                slid(
                    body,
                    level,
                    velocity,
                    travel(speed_along(velocity, along_x), micros),
                    along_x,
                ),
                (#[trigger] level.actors[i]).bbox,
            ),
{
    broadcast use vstd::seq_lib::group_filter_ensures;

    let distance = travel(speed_along(velocity, along_x), micros);
    lemma_travel_sign(speed_along(velocity, along_x), micros);
    let moved = shifted(body, distance, along_x);
    let hits = level.collisions(moved);
    lemma_collisions_are_hits(level, moved);
    assert forall|j: int| 0 <= j < hits.len() implies {
        &&& (#[trigger] hits[j]).bbox.solid()
        &&& !hits[j].bbox.overlaps(body)
        &&& hits[j].bbox.overlaps(moved)
        &&& magnitude(distance) <= extent_along(hits[j].bbox, along_x)
    } by {
        let k = choose|k: int| 0 <= k < level.actors.len() && level.actors[k] == hits[j];
    }
    lemma_pushed_out_clear(body, hits, velocity, distance, along_x);
    let out = slid(body, level, velocity, distance, along_x);
    assert(out == pushed_out(moved, hits, velocity, along_x));
    assert forall|i: int| 0 <= i < level.actors.len() implies grazes_at_most(
        out,
        (#[trigger] level.actors[i]).bbox,
    ) by {
        let tile = level.actors[i];
        assert(tile.wf() && tile.bbox.within(level.bbox));
        assert(!tile.bbox.overlaps(body));
        if tile.bbox.overlaps(moved) {
            assert(level.bbox.overlaps(moved));
            assert(hit_by(moved)(tile));
            assert(hits.contains(tile));
            let j = choose|j: int| 0 <= j < hits.len() && hits[j] == tile;
            assert(grazes_at_most(out, hits[j].bbox));
        } else {
            assert(!tile.bbox.overlaps(out));
        }
    }
}

/// No tunneling through a level in a whole step. In a well-formed level, a
/// body that overlaps no ground block, that moves along each axis by no
/// more than its own extent and the extent of each ground block, and that
/// the corrections along x leave clear of every ground block, overlaps no
/// ground block by more than a graze after the step.
pub proof fn lemma_swept_stays_clear(body: Aabb, level: LevelView, velocity: Vector, micros: nat)
    requires
        body.solid(),
        level.wf(),
        clear_of(body, level),
        magnitude(travel(velocity.x, micros)) <= body.w,
        magnitude(travel(velocity.y, micros)) <= body.h,
        forall|i: int|
            0 <= i < level.actors.len() ==> magnitude(travel(velocity.x, micros)) <= (
            #[trigger] level.actors[i]).bbox.w && magnitude(travel(velocity.y, micros))
                <= level.actors[i].bbox.h,
        clear_of(slid(body, level, velocity, travel(velocity.x, micros), true), level),
    ensures
        forall|i: int|
            0 <= i < level.actors.len() ==> grazes_at_most(
                swept(body, level, velocity, micros),
                (#[trigger] level.actors[i]).bbox,
            ),
{
    lemma_slid_stays_clear(body, level, velocity, micros, true);
    let after_x = slid(body, level, velocity, travel(velocity.x, micros), true);
    lemma_slid_stays_clear(after_x, level, velocity, micros, false);
}

/// How far two rectangles overlap across an axis, that is, along the other
/// axis.
pub open spec fn overlap_across(body: Aabb, obstacle: Aabb, along_x: bool) -> int {
    if along_x {
        min_int(body.top(), obstacle.top()) - max_int(body.y, obstacle.y)
    } else {
        min_int(body.right(), obstacle.right()) - max_int(body.x, obstacle.x)
    }
}

/// Every ground block that the body overlaps where a move has taken it, it
/// overlaps across the axis of the move by the collision tolerance or more:
/// no correction along the axis is left out as a graze.
pub open spec fn squarely_met(moved: Aabb, level: LevelView, along_x: bool) -> bool {
    forall|i: int|
        0 <= i < level.actors.len() && (#[trigger] level.actors[i]).bbox.overlaps(moved)
            ==> overlap_across(moved, level.actors[i].bbox, along_x) >= COLLISION_TOLERANCE
}

/// A body that has moved from a place where it overlapped none of the
/// obstacles `hits` to a place where it overlaps each of them by the
/// tolerance or more across the axis, by no more than its own and each
/// obstacle's extent, is pushed back by the corrections to a place between
/// the two, where it overlaps none of the obstacles.
pub proof fn lemma_pushed_out_flush(
    start: Aabb,
    hits: Seq<ActorView>,
    velocity: Vector,
    distance: int,
    along_x: bool,
)
    requires
        start.solid(),
        distance > 0 ==> speed_along(velocity, along_x) > 0,
        distance < 0 ==> speed_along(velocity, along_x) < 0,
        magnitude(distance) <= extent_along(start, along_x),
        forall|i: int|
            0 <= i < hits.len() ==> {
                &&& (#[trigger] hits[i]).bbox.solid()
                &&& !hits[i].bbox.overlaps(start)
                &&& hits[i].bbox.overlaps(shifted(start, distance, along_x))
                &&& magnitude(distance) <= extent_along(hits[i].bbox, along_x)
                &&& overlap_across(shifted(start, distance, along_x), hits[i].bbox, along_x)
                    >= COLLISION_TOLERANCE
            },
    ensures
        between(
            pushed_out(shifted(start, distance, along_x), hits, velocity, along_x),
            start,
            distance,
            along_x,
        ),
        forall|i: int|
            0 <= i < hits.len() ==> !(#[trigger] hits[i]).bbox.overlaps(
                pushed_out(shifted(start, distance, along_x), hits, velocity, along_x),
            ),
    decreases hits.len(),
{
    let moved = shifted(start, distance, along_x);
    if hits.len() > 0 {
        let before = hits.drop_last();
        assert forall|i: int| 0 <= i < before.len() implies {
            &&& (#[trigger] before[i]).bbox.solid()
            &&& !before[i].bbox.overlaps(start)
            &&& before[i].bbox.overlaps(moved)
            &&& magnitude(distance) <= extent_along(before[i].bbox, along_x)
            &&& overlap_across(moved, before[i].bbox, along_x) >= COLLISION_TOLERANCE
        } by {
            assert(before[i] == hits[i]);
        }
        lemma_pushed_out_flush(start, before, velocity, distance, along_x);
        let cur = pushed_out(moved, before, velocity, along_x);
        let last = hits[hits.len() - 1];
        assert(last == hits.last());
        let out = resolved(cur, last.bbox, velocity, along_x);
        assert(out == pushed_out(moved, hits, velocity, along_x));
        assert(between(out, start, distance, along_x));
        assert(!last.bbox.overlaps(out));
        assert forall|i: int| 0 <= i < hits.len() implies !(#[trigger] hits[i]).bbox.overlaps(
            out,
        ) by {
            if i < before.len() {
                assert(before[i] == hits[i]);
                assert(!hits[i].bbox.overlaps(cur));
            }
        }
    }
}

/// Flush, not inside, axis by axis. In a well-formed level, a body that
/// overlaps no ground block, that moves along one axis by no more than its
/// own extent and the extent of each ground block, and that meets squarely
/// what it meets, overlaps no ground block once it has been corrected.
pub proof fn lemma_slid_comes_clear(
    body: Aabb,
    level: LevelView,
    velocity: Vector,
    micros: nat,
    along_x: bool,
)
    requires
        body.solid(),
        level.wf(),
        clear_of(body, level),
        magnitude(travel(speed_along(velocity, along_x), micros)) <= extent_along(body, along_x),
        forall|i: int|
            0 <= i < level.actors.len() ==> magnitude(
                travel(speed_along(velocity, along_x), micros),
            ) <= extent_along((#[trigger] level.actors[i]).bbox, along_x),
        squarely_met(
            shifted(body, travel(speed_along(velocity, along_x), micros), along_x),
            level,
            along_x,
        ),
    ensures
        between(
            slid(body, level, velocity, travel(speed_along(velocity, along_x), micros), along_x),
            body,
            travel(speed_along(velocity, along_x), micros),
            along_x,
        ),
        clear_of(
            slid(body, level, velocity, travel(speed_along(velocity, along_x), micros), along_x),
            level,
        ),
{
    broadcast use vstd::seq_lib::group_filter_ensures;

    let distance = travel(speed_along(velocity, along_x), micros);
    lemma_travel_sign(speed_along(velocity, along_x), micros);
    let moved = shifted(body, distance, along_x);
    let hits = level.collisions(moved);
    lemma_collisions_are_hits(level, moved);
    assert forall|j: int| 0 <= j < hits.len() implies {
        &&& (#[trigger] hits[j]).bbox.solid()
        &&& !hits[j].bbox.overlaps(body)
        &&& hits[j].bbox.overlaps(moved)
        &&& magnitude(distance) <= extent_along(hits[j].bbox, along_x)
        &&& overlap_across(moved, hits[j].bbox, along_x) >= COLLISION_TOLERANCE
    } by {
        let k = choose|k: int| 0 <= k < level.actors.len() && level.actors[k] == hits[j];
    }
    lemma_pushed_out_flush(body, hits, velocity, distance, along_x);
    let out = slid(body, level, velocity, distance, along_x);
    assert(out == pushed_out(moved, hits, velocity, along_x));
    assert forall|i: int| 0 <= i < level.actors.len() implies !(
    #[trigger] level.actors[i]).bbox.overlaps(out) by {
        let tile = level.actors[i];
        assert(tile.wf() && tile.bbox.within(level.bbox));
        assert(!tile.bbox.overlaps(body));
        if tile.bbox.overlaps(moved) {
            assert(level.bbox.overlaps(moved));
            assert(hit_by(moved)(tile));
            assert(hits.contains(tile));
            let j = choose|j: int| 0 <= j < hits.len() && hits[j] == tile;
            assert(!hits[j].bbox.overlaps(out));
        }
    }
}

/// Flush, not inside, in a whole step. In a well-formed level, a body that
/// overlaps no ground block, that moves along each axis by no more than its
/// own extent and the extent of each ground block, and that meets squarely
/// what it meets along x and then along y, overlaps no ground block after
/// the step: a query for it finds nothing.
pub proof fn lemma_swept_comes_clear(body: Aabb, level: LevelView, velocity: Vector, micros: nat)
    requires
        body.solid(),
        level.wf(),
        clear_of(body, level),
        magnitude(travel(velocity.x, micros)) <= body.w,
        magnitude(travel(velocity.y, micros)) <= body.h,
        forall|i: int|
            0 <= i < level.actors.len() ==> magnitude(travel(velocity.x, micros)) <= (
            #[trigger] level.actors[i]).bbox.w && magnitude(travel(velocity.y, micros))
                <= level.actors[i].bbox.h,
        squarely_met(shifted(body, travel(velocity.x, micros), true), level, true),
        squarely_met(
            shifted(
                slid(body, level, velocity, travel(velocity.x, micros), true),
                travel(velocity.y, micros),
                false,
            ),
            level,
            false,
        ),
    ensures
        clear_of(swept(body, level, velocity, micros), level),
        level.collisions(swept(body, level, velocity, micros)) == Seq::<ActorView>::empty(),
{
    lemma_slid_comes_clear(body, level, velocity, micros, true);
    let after_x = slid(body, level, velocity, travel(velocity.x, micros), true);
    lemma_slid_comes_clear(after_x, level, velocity, micros, false);
    lemma_nothing_hit(level, swept(body, level, velocity, micros));
}

/// A box that overlaps no ground block collides with nothing.
pub proof fn lemma_nothing_hit(level: LevelView, probe: Aabb)
    requires
        clear_of(probe, level),
    ensures
        level.collisions(probe) == Seq::<ActorView>::empty(),
        !level.collides_with(probe),
{
    let hits = level.actors.filter(hit_by(probe));
    if hits.len() > 0 {
        assert(hits.contains(hits[0]));
        lemma_filter_member(level.actors, hit_by(probe), hits[0]);
        let i = choose|i: int| 0 <= i < level.actors.len() && level.actors[i] == hits[0];
        assert(level.actors[i].bbox.overlaps(probe));
    }
    assert(hits =~= Seq::<ActorView>::empty());
}

/// In a level of one ground block, a query answers with that block or with
/// nothing, and an axis of a step makes at most one correction.
pub proof fn lemma_slid_single(
    body: Aabb,
    obstacle: ActorView,
    extent: Aabb,
    velocity: Vector,
    distance: int,
    along_x: bool,
)
    ensures
        slid(body, single(obstacle, extent), velocity, distance, along_x) == if extent.overlaps(
            shifted(body, distance, along_x),
        ) && obstacle.bbox.overlaps(shifted(body, distance, along_x)) {
            resolved(shifted(body, distance, along_x), obstacle.bbox, velocity, along_x)
        } else {
            shifted(body, distance, along_x)
        },
{
    reveal_with_fuel(Seq::filter, 3);
    let moved = shifted(body, distance, along_x);
    let all = seq![obstacle];
    assert(all.drop_last() =~= Seq::<ActorView>::empty());
    assert(all.last() == obstacle);
    assert(all.drop_last().filter(hit_by(moved)) =~= Seq::<ActorView>::empty());
    let hits = single(obstacle, extent).collisions(moved);
    if extent.overlaps(moved) && obstacle.bbox.overlaps(moved) {
        assert(hits =~= seq![obstacle]);
        assert(hits.drop_last() =~= Seq::<ActorView>::empty());
        assert(hits.last() == obstacle);
        assert(pushed_out(moved, hits.drop_last(), velocity, along_x) == moved);
        assert(pushed_out(moved, hits, velocity, along_x) == resolved(
            moved,
            obstacle.bbox,
            velocity,
            along_x,
        ));
    } else {
        assert(hits =~= Seq::<ActorView>::empty());
        assert(pushed_out(moved, hits, velocity, along_x) == moved);
    }
}

/// No tunneling. A body that does not overlap an obstacle, and that in one
/// step travels less than the obstacle's width along x and less than its
/// height along y, does not engulf the obstacle after the step: the
/// obstacle does not lie inside the body's bounding box.
pub proof fn lemma_no_tunneling(
    body: Aabb,
    obstacle: ActorView,
    extent: Aabb,
    velocity: Vector,
    micros: nat,
)
    requires
        body.solid(),
        obstacle.bbox.solid(),
        !body.overlaps(obstacle.bbox),
        magnitude(travel(velocity.x, micros)) < obstacle.bbox.w,
        magnitude(travel(velocity.y, micros)) < obstacle.bbox.h,
    ensures
        !obstacle.bbox.within(swept(body, single(obstacle, extent), velocity, micros)),
{
    let level = single(obstacle, extent);
    let dx = travel(velocity.x, micros);
    let dy = travel(velocity.y, micros);
    lemma_travel_sign(velocity.x, micros);
    lemma_travel_sign(velocity.y, micros);
    let after_x = slid(body, level, velocity, dx, true);
    lemma_slid_single(body, obstacle, extent, velocity, dx, true);
    lemma_slid_single(after_x, obstacle, extent, velocity, dy, false);
}

/// No penetration. A body that does not overlap an obstacle, and that in
/// one step travels no further than its own and the obstacle's extent along
/// each axis, does not overlap the obstacle after the step by more than a
/// graze: what is left of an overlap is thinner than the tolerance on both
/// axes. Along y, which is corrected after x, a graze that x has left adds
/// to the depth, so there the extents must exceed the distance by the
/// tolerance.
pub proof fn lemma_no_penetration(
    body: Aabb,
    obstacle: ActorView,
    extent: Aabb,
    velocity: Vector,
    micros: nat,
)
    requires
        body.solid(),
        obstacle.bbox.solid(),
        obstacle.bbox.within(extent),
        !body.overlaps(obstacle.bbox),
        magnitude(travel(velocity.x, micros)) <= body.w,
        magnitude(travel(velocity.x, micros)) <= obstacle.bbox.w,
        magnitude(travel(velocity.y, micros)) + COLLISION_TOLERANCE <= body.h,
        magnitude(travel(velocity.y, micros)) + COLLISION_TOLERANCE <= obstacle.bbox.h,
    ensures
        match swept(body, single(obstacle, extent), velocity, micros).clip(obstacle.bbox) {
            Some(c) => grazing(c),
            None => true,
        },
{
    let level = single(obstacle, extent);
    let dx = travel(velocity.x, micros);
    let dy = travel(velocity.y, micros);
    lemma_travel_sign(velocity.x, micros);
    lemma_travel_sign(velocity.y, micros);
    let after_x = slid(body, level, velocity, dx, true);
    lemma_slid_single(body, obstacle, extent, velocity, dx, true);
    lemma_slid_single(after_x, obstacle, extent, velocity, dy, false);
}

} // verus!
