use vstd::prelude::*;
use vstd::arithmetic::div_mod::{lemma_div_is_ordered, lemma_div_pos_is_pos};

use crate::constants::{SCREEN_HEIGHT, UNIT, WORLD_LIMIT};
use crate::primitives::{Aabb, Rect, Vec2, Vector};

verus! {

/// Largest scale factor of the screen: a thousand screen pixels to one pixel
/// of game space. A scale factor counts in millionths, as lengths do.
pub const SCALE_LIMIT: i64 = 1_000_000_000;

/// Largest coordinate of a rectangle that can be drawn.
pub const DRAW_LIMIT: i64 = 2_000_000_000_000;

/// The quotient of `n` by `d`, rounded to the nearest whole number, and away
/// from zero where `n` lies half way between two.
pub open spec fn rounded(n: int, d: int) -> int {
    if n >= 0 {
        (2 * n + d) / (2 * d)
    } else {
        -((2 * (-n) + d) / (2 * d))
    }
}

/// The whole number of screen pixels nearest to a length of game space under
/// a scale factor.
pub open spec fn to_pixels(length: int, factor: int) -> int {
    rounded(length * factor, UNIT * UNIT)
}

/// Where on the screen a rectangle of game space is drawn. The screen's y
/// axis points down from the top edge, that of game space up from the
/// bottom edge. The result counts whole screen pixels.
pub open spec fn screen_coords(src: Aabb, scale: Vector) -> Aabb {
    Aabb {
        x: to_pixels(src.x, scale.x),
        y: to_pixels(SCREEN_HEIGHT - src.y - src.h, scale.y),
        w: to_pixels(src.w, scale.x),
        h: to_pixels(src.h, scale.y),
    }
}

/// A rectangle and a scale that [`get_screen_coords`] accepts.
pub open spec fn drawable(src: Aabb, scale: Vector) -> bool {
    &&& -DRAW_LIMIT <= src.x <= DRAW_LIMIT
    &&& -DRAW_LIMIT <= src.y <= DRAW_LIMIT
    &&& 0 <= src.w <= WORLD_LIMIT
    &&& 0 <= src.h <= WORLD_LIMIT
    &&& 0 <= scale.x <= SCALE_LIMIT
    &&& 0 <= scale.y <= SCALE_LIMIT
}

fn scale_length(length: i64, factor: i64) -> (pixels: i64)
    requires
        -2 * DRAW_LIMIT <= length <= 2 * DRAW_LIMIT,
        0 <= factor <= SCALE_LIMIT,
    ensures
        pixels == to_pixels(length as int, factor as int),
{
    let size: i128 = if length >= 0 {
        length as i128
    } else {
        -(length as i128)
    };
    let one: i128 = 1_000_000_000_000;
    assert(one == UNIT * UNIT) by (nonlinear_arith)
        requires
            one == 1_000_000_000_000,
            UNIT == 1_000_000,
    ;
    proof {
        assert(0 <= size * factor <= 2 * DRAW_LIMIT * SCALE_LIMIT) by (nonlinear_arith)
            requires
                0 <= size <= 2 * DRAW_LIMIT,
                0 <= factor <= SCALE_LIMIT,
        ;
        let top = 2 * (2 * DRAW_LIMIT * SCALE_LIMIT) + one;
        lemma_div_is_ordered(2 * (size * factor) + one, top, 2 * one);
        lemma_div_pos_is_pos(2 * (size * factor) + one, 2 * one);
        assert(top / (2 * one) <= 4_000_000_001);
        if length < 0 {
            assert(length * factor == -(size * factor)) by (nonlinear_arith)
                requires
                    size == -length,
            ;
            assert(length * factor <= 0);
            assert(size * factor == 0 ==> rounded(0, one as int) == 0);
        }
    }
    let nearest: i128 = (2 * (size * factor as i128) + one) / (2 * one);
    if length >= 0 {
        nearest as i64
    } else {
        -(nearest as i64)
    }
}

/// Where on the screen the rectangle `src` of game space is drawn, at the
/// scale `scale`, in whole screen pixels.
pub fn get_screen_coords(src: &Rect, scale: &Vec2) -> (dest: Rect)
    requires
        drawable(src@, scale@),
    ensures
        dest@ == screen_coords(src@, scale@),
{
    let y: i64 = SCREEN_HEIGHT - src.y - src.h;
    Rect {
        x: scale_length(src.x, scale.x),
        y: scale_length(y, scale.y),
        w: scale_length(src.w, scale.x),
        h: scale_length(src.h, scale.y),
    }
}

} // verus!
