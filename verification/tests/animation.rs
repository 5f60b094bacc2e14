use sprite_game::animation_handler::{Animation, Tileset};

#[test]
fn player_animations_start_at_frame_zero() {
    assert_eq!(Animation::player_idle().get_current_frame(), 0);
    assert_eq!(Animation::player_walking().get_current_frame(), 0);
    assert_eq!(Animation::player_running().get_current_frame(), 0);
    assert_eq!(Animation::player_jumping().get_current_frame(), 0);
    assert_eq!(Animation::player_idle().tileset_image, Tileset::Idle);
    assert_eq!(Animation::player_walking().tileset_image, Tileset::Walking);
    assert_eq!(Animation::player_running().tileset_image, Tileset::Running);
    assert_eq!(Animation::player_jumping().tileset_image, Tileset::Jumping);
}

#[test]
fn frame_advances_after_a_full_duration() {
    let mut a = Animation::player_idle();
    a.update(129_999);
    assert_eq!(a.get_current_frame(), 0);
    a.update(1);
    assert_eq!(a.get_current_frame(), 1);
    a.update(130_000);
    assert_eq!(a.get_current_frame(), 2);
}

#[test]
fn slow_step_skips_frames() {
    let mut a = Animation::player_walking();
    a.update(175_000);
    assert_eq!(a.get_current_frame(), 3);
    a.update(25_000);
    assert_eq!(a.get_current_frame(), 4);
}

#[test]
fn looping_animation_wraps_round() {
    let mut a = Animation::player_running();
    a.update(50_000 * 8);
    assert_eq!(a.get_current_frame(), 0);
    a.update(50_000 * 11);
    assert_eq!(a.get_current_frame(), 3);
}

#[test]
fn one_shot_animation_stays_on_last_frame() {
    let mut a = Animation::player_jumping();
    a.update(50_000 * 6);
    assert_eq!(a.get_current_frame(), 6);
    a.update(50_000 * 5);
    assert_eq!(a.get_current_frame(), 7);
    a.update(u32::MAX);
    assert_eq!(a.get_current_frame(), 7);
}

#[test]
fn sixty_steps_a_second_show_the_frame_of_the_time_gone_by() {
    let mut a = Animation::player_idle();
    let mut total: u64 = 0;
    for _ in 0..600 {
        a.update(16_667);
        total += 16_667;
        assert_eq!(a.get_current_frame() as u64, (total / 130_000) % 8);
    }
}

#[test]
fn two_steps_equal_one_step_of_their_sum() {
    let mut a = Animation::new(Tileset::Idle, 5, 70_000, true).unwrap();
    let mut b = Animation::new(Tileset::Idle, 5, 70_000, true).unwrap();
    a.update(123_456);
    a.update(654_321);
    b.update(123_456 + 654_321);
    assert_eq!(a.get_current_frame(), b.get_current_frame());
    a.update(69_999);
    b.update(69_999);
    assert_eq!(a.get_current_frame(), b.get_current_frame());
    assert_eq!(b.get_current_frame(), ((123_456 + 654_321 + 69_999) / 70_000) % 5);
}

#[test]
fn long_steps_do_not_overflow() {
    let mut a = Animation::new(Tileset::Walking, 3, 1, true).unwrap();
    let mut total: u64 = 0;
    for _ in 0..10 {
        a.update(u32::MAX);
        total += u32::MAX as u64;
        assert_eq!(a.get_current_frame() as u64, total % 3);
    }
}

#[test]
fn count_of_frames_is_not_wrapped_by_a_step() {
    // frame 7 of 8 and one frame more: the count is 8, the frame shown is 0
    let mut a = Animation::player_walking().at_frame(7);
    assert_eq!(a.get_current_frame(), 7);
    a.update(50_000);
    assert_eq!(a.get_current_frame(), 0);
    // had the count gone back to 0, five frames more would not be enough
    // to leave room for no more than one
    let mut b = Animation::player_walking().at_frame(u64::MAX - 5);
    assert!(b.has_room(50_000 * 5));
    assert!(!b.has_room(50_000 * 6));
    b.update(50_000 * 5);
    assert!(b.has_room(49_999));
    assert!(!b.has_room(50_000));
    assert_eq!(b.get_current_frame() as u64, u64::MAX % 8);
}

#[test]
fn at_frame_starts_the_frame_over() {
    let mut a = Animation::player_idle();
    a.update(100_000);
    let mut b = a.at_frame(3);
    assert_eq!(b.get_current_frame(), 3);
    b.update(129_999);
    assert_eq!(b.get_current_frame(), 3);
    b.update(1);
    assert_eq!(b.get_current_frame(), 4);
    assert_eq!(b.tileset_image, Tileset::Idle);
    let held = Animation::player_jumping().at_frame(u64::MAX);
    assert_eq!(held.get_current_frame(), 7);
    assert!(held.has_room(49_999));
    assert!(!held.has_room(50_000));
    assert!(held.is_valid());
}

#[test]
fn fresh_animation_has_room_for_the_longest_step() {
    let a = Animation::new(Tileset::Idle, 1, 1, true).unwrap();
    assert!(a.has_room(u32::MAX));
    assert!(Animation::player_idle().has_room(u32::MAX));
}

#[test]
fn animation_needs_a_frame_and_a_duration() {
    assert!(Animation::new(Tileset::Idle, 0, 10, true).is_none());
    assert!(Animation::new(Tileset::Idle, 10, 0, false).is_none());
    let one = Animation::new(Tileset::Running, 1, 1, false);
    assert!(one.is_some());
    let mut one = one.unwrap();
    one.update(1000);
    assert_eq!(one.get_current_frame(), 0);
    assert_eq!(one.tileset_image, Tileset::Running);
}
