use sprite_game::primitives::{Direction, Rect, RectExt, Vec2};

fn rect(x: i64, y: i64, w: i64, h: i64) -> Rect {
    Rect { x, y, w, h }
}

#[test]
fn direction_sign() {
    assert_eq!(Direction::Left.mult(), -1);
    assert_eq!(Direction::Right.mult(), 1);
}

#[test]
fn vec2_new_keeps_components() {
    let v = Vec2::new(-3, 7);
    assert_eq!(v, Vec2 { x: -3, y: 7 });
}

#[test]
fn overlapping_rectangles_collide() {
    let a = rect(0, 0, 10, 10);
    assert!(a.collides_with(&rect(9, 9, 10, 10)));
    assert!(a.collides_with(&rect(-5, -5, 6, 6)));
    assert!(a.collides_with(&rect(2, 2, 3, 3)));
    assert!(a.collides_with(&rect(-2, -2, 30, 30)));
}

#[test]
fn touching_edges_do_not_collide() {
    let a = rect(0, 0, 10, 10);
    assert!(!a.collides_with(&rect(10, 0, 10, 10)));
    assert!(!a.collides_with(&rect(-10, 0, 10, 10)));
    assert!(!a.collides_with(&rect(0, 10, 10, 10)));
    assert!(!a.collides_with(&rect(0, -10, 10, 10)));
    assert!(!a.collides_with(&rect(10, 10, 10, 10)));
}

#[test]
fn separated_rectangles_do_not_collide() {
    let a = rect(0, 0, 10, 10);
    assert!(!a.collides_with(&rect(11, 0, 10, 10)));
    assert!(!a.collides_with(&rect(0, 50, 10, 10)));
    assert!(!a.collides_with(&rect(5, -20, 10, 10)));
}

#[test]
fn collides_with_is_symmetric() {
    let boxes = [
        rect(0, 0, 10, 10),
        rect(5, 5, 10, 10),
        rect(10, 0, 10, 10),
        rect(-3, 2, 4, 1),
        rect(100, 100, 1, 1),
        rect(0, 0, 0, 0),
        rect(3, 3, 0, 5),
    ];
    for a in boxes.iter() {
        for b in boxes.iter() {
            assert_eq!(a.collides_with(b), b.collides_with(a));
        }
    }
}

#[test]
fn clip_is_the_intersection() {
    let a = rect(0, 0, 10, 10);
    assert_eq!(a.clip(&rect(5, 6, 10, 10)), Some(rect(5, 6, 5, 4)));
    assert_eq!(a.clip(&rect(-5, -5, 7, 8)), Some(rect(0, 0, 2, 3)));
    assert_eq!(a.clip(&rect(2, 3, 4, 5)), Some(rect(2, 3, 4, 5)));
    assert_eq!(a.clip(&rect(-1, -1, 20, 20)), Some(a));
}

#[test]
fn clip_of_touching_or_separate_rectangles_is_none() {
    let a = rect(0, 0, 10, 10);
    assert_eq!(a.clip(&rect(10, 0, 10, 10)), None);
    assert_eq!(a.clip(&rect(0, 10, 10, 10)), None);
    assert_eq!(a.clip(&rect(20, 20, 10, 10)), None);
    assert_eq!(a.clip(&rect(3, 3, 0, 5)), None);
}

#[test]
fn clip_is_symmetric() {
    let boxes = [
        rect(0, 0, 10, 10),
        rect(5, 5, 10, 10),
        rect(10, 0, 10, 10),
        rect(-3, 2, 4, 1),
        rect(100, 100, 1, 1),
        rect(-2, -2, 30, 30),
    ];
    for a in boxes.iter() {
        for b in boxes.iter() {
            assert_eq!(a.clip(b), b.clip(a));
            assert_eq!(a.clip(b).is_some(), a.collides_with(b));
        }
    }
}

#[test]
fn intersection_tests_are_exact_at_the_ends_of_the_range() {
    let a = rect(i64::MAX - 10, i64::MAX - 10, i64::MAX, i64::MAX);
    let b = rect(i64::MAX - 5, i64::MAX - 5, 10, 10);
    assert!(a.collides_with(&b));
    assert_eq!(a.clip(&b), Some(b));
    let c = rect(i64::MIN, i64::MIN, 5, 5);
    assert!(!a.collides_with(&c));
    assert_eq!(c.clip(&a), None);
    let wide = rect(i64::MIN, 0, i64::MAX, 10);
    assert_eq!(wide.clip(&rect(i64::MIN + 1, 2, 3, 4)), Some(rect(i64::MIN + 1, 2, 3, 4)));
}
