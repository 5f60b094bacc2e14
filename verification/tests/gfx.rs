use sprite_game::game_gfx::get_screen_coords;
use sprite_game::primitives::{Rect, Vec2};

const ONE: i64 = 1_000_000;

#[test]
fn screen_y_axis_points_down() {
    let src = Rect { x: 10 * ONE, y: 20 * ONE, w: 30 * ONE, h: 40 * ONE };
    let dest = get_screen_coords(&src, &Vec2 { x: ONE, y: ONE });
    assert_eq!(dest, Rect { x: 10, y: 660, w: 30, h: 40 });
    let floor = Rect { x: 0, y: 0, w: 1280 * ONE, h: 720 * ONE };
    assert_eq!(
        get_screen_coords(&floor, &Vec2 { x: ONE, y: ONE }),
        Rect { x: 0, y: 0, w: 1280, h: 720 }
    );
}

#[test]
fn screen_coords_are_scaled_and_rounded() {
    let src = Rect { x: 10 * ONE, y: 20 * ONE, w: 30 * ONE, h: 41 * ONE };
    let dest = get_screen_coords(&src, &Vec2 { x: 2 * ONE, y: 1_500_000 });
    // y: (720 - 20 - 41) * 1.5 = 988.5, h: 41 * 1.5 = 61.5
    assert_eq!(dest, Rect { x: 20, y: 989, w: 60, h: 62 });
    let fine = Rect { x: 1_499_999, y: 718_500_000, w: 500_000, h: 1_500_000 };
    assert_eq!(
        get_screen_coords(&fine, &Vec2 { x: ONE, y: ONE }),
        Rect { x: 1, y: 0, w: 1, h: 2 }
    );
}

#[test]
fn negative_coordinates_round_away_from_zero() {
    let src = Rect { x: -2_500_000, y: 730 * ONE + 500_000, w: ONE, h: ONE };
    let dest = get_screen_coords(&src, &Vec2 { x: ONE, y: ONE });
    assert_eq!(dest, Rect { x: -3, y: -12, w: 1, h: 1 });
    let near = Rect { x: -2_499_999, y: 0, w: 0, h: 0 };
    assert_eq!(get_screen_coords(&near, &Vec2 { x: ONE, y: 0 }), Rect { x: -2, y: 0, w: 0, h: 0 });
}
