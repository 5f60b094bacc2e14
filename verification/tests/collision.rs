use sprite_game::collision::{find_mtv, COLLISION_TOLERANCE};
use sprite_game::primitives::{Rect, Vec2};

fn rect(x: i64, y: i64, w: i64, h: i64) -> Rect {
    Rect { x, y, w, h }
}

fn v(x: i64, y: i64) -> Vec2 {
    Vec2 { x, y }
}

#[test]
fn no_overlap_gives_no_correction() {
    let target = rect(0, 0, 1000, 1000);
    assert_eq!(find_mtv(&target, &rect(1000, 0, 1000, 1000), v(5, 5), true), None);
    assert_eq!(find_mtv(&target, &rect(0, 1000, 1000, 1000), v(5, 5), false), None);
    assert_eq!(find_mtv(&target, &rect(5000, 5000, 10, 10), v(-5, 0), true), None);
}

#[test]
fn moving_right_is_pushed_left() {
    let target = rect(0, 0, 1000, 1000);
    let obstacle = rect(700, 200, 1000, 1000);
    assert_eq!(find_mtv(&target, &obstacle, v(10, 0), true), Some(v(-300, 0)));
}

#[test]
fn moving_left_is_pushed_right() {
    let target = rect(0, 0, 1000, 1000);
    let obstacle = rect(-600, 0, 1000, 1000);
    assert_eq!(find_mtv(&target, &obstacle, v(-10, 50), true), Some(v(400, 0)));
}

#[test]
fn moving_down_is_pushed_up() {
    let target = rect(0, 0, 1000, 1000);
    let obstacle = rect(-200, -900, 5000, 1000);
    assert_eq!(find_mtv(&target, &obstacle, v(3, -10), false), Some(v(0, 100)));
}

#[test]
fn moving_up_is_pushed_down() {
    let target = rect(0, 0, 1000, 1000);
    let obstacle = rect(0, 750, 1000, 1000);
    assert_eq!(find_mtv(&target, &obstacle, v(0, 1), false), Some(v(0, -250)));
}

#[test]
fn correction_has_one_component_only() {
    let target = rect(0, 0, 1000, 1000);
    let obstacle = rect(700, 800, 1000, 1000);
    assert_eq!(find_mtv(&target, &obstacle, v(10, 10), true), Some(v(-300, 0)));
    assert_eq!(find_mtv(&target, &obstacle, v(10, 10), false), Some(v(0, -200)));
}

#[test]
fn no_speed_along_the_axis_gives_no_correction() {
    let target = rect(0, 0, 1000, 1000);
    let obstacle = rect(700, 800, 1000, 1000);
    assert_eq!(find_mtv(&target, &obstacle, v(0, 10), true), None);
    assert_eq!(find_mtv(&target, &obstacle, v(10, 0), false), None);
    assert_eq!(find_mtv(&target, &obstacle, v(0, 0), true), None);
    assert_eq!(find_mtv(&target, &obstacle, v(0, 0), false), None);
}

#[test]
fn grazing_overlap_gives_no_correction() {
    let t = COLLISION_TOLERANCE;
    let target = rect(0, 0, 1000, 1000);
    // thinner than the tolerance on both axes
    let corner = rect(1000 - (t - 1), 1000 - (t - 1), 1000, 1000);
    assert_eq!(find_mtv(&target, &corner, v(10, 10), true), None);
    assert_eq!(find_mtv(&target, &corner, v(10, 10), false), None);
    // as thick as the tolerance on one axis
    let thicker = rect(1000 - t, 1000 - (t - 1), 1000, 1000);
    assert_eq!(find_mtv(&target, &thicker, v(10, 10), true), Some(v(-t, 0)));
    assert_eq!(find_mtv(&target, &thicker, v(10, 10), false), Some(v(0, -(t - 1))));
    // thin on one axis only
    let sliver = rect(999, 0, 1000, 1000);
    assert_eq!(find_mtv(&target, &sliver, v(10, 0), true), Some(v(-1, 0)));
}

#[test]
fn tolerance_is_a_ten_thousandth_of_a_pixel() {
    assert_eq!(COLLISION_TOLERANCE * 10_000, sprite_game::constants::UNIT);
}
