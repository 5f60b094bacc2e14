use sprite_game::input_handler::{InputState, Key, RawKeys};
use sprite_game::primitives::Direction;

#[test]
fn nothing_is_asked_for_at_first() {
    let input = InputState::default();
    assert!(!input.left && !input.right && !input.jump && !input.running && !input.request_quit);
    assert_eq!(input.move_x(), None);
}

#[test]
fn move_x_needs_exactly_one_direction() {
    let mut input = InputState::default();
    input.right = true;
    assert_eq!(input.move_x(), Some(Direction::Right));
    input.left = true;
    assert_eq!(input.move_x(), None);
    input.right = false;
    assert_eq!(input.move_x(), Some(Direction::Left));
    input.left = false;
    assert_eq!(input.move_x(), None);
}

#[test]
fn arrow_keys_and_letters_steer() {
    let mut input = InputState::default();
    input.handle_key_down(Some(Key::Left));
    assert!(input.left && !input.right);
    input.handle_key_up(Some(Key::Left));
    assert!(!input.left);
    input.handle_key_down(Some(Key::A));
    assert!(input.left);
    input.handle_key_down(Some(Key::D));
    assert!(input.left && input.right);
    assert_eq!(input.move_x(), None);
    input.handle_key_up(Some(Key::A));
    assert_eq!(input.move_x(), Some(Direction::Right));
    input.handle_key_up(Some(Key::D));
    input.handle_key_down(Some(Key::Right));
    assert_eq!(input.move_x(), Some(Direction::Right));
}

#[test]
fn a_flag_stays_while_one_of_its_keys_is_held() {
    let mut input = InputState::default();
    input.handle_key_down(Some(Key::Space));
    input.handle_key_down(Some(Key::Up));
    input.handle_key_down(Some(Key::W));
    assert!(input.jump);
    input.handle_key_up(Some(Key::Space));
    assert!(input.jump);
    input.handle_key_up(Some(Key::W));
    assert!(input.jump);
    input.handle_key_up(Some(Key::Up));
    assert!(!input.jump);
}

#[test]
fn shift_runs_and_escape_quits() {
    let mut input = InputState::default();
    input.handle_key_down(Some(Key::LShift));
    assert!(input.running && !input.request_quit);
    input.handle_key_up(Some(Key::LShift));
    input.handle_key_down(Some(Key::RShift));
    assert!(input.running);
    input.handle_key_up(Some(Key::RShift));
    assert!(!input.running);
    input.handle_key_down(Some(Key::Escape));
    assert!(input.request_quit);
    input.handle_key_up(Some(Key::Escape));
    assert!(!input.request_quit);
    input.handle_key_down(Some(Key::Q));
    assert!(input.request_quit);
}

#[test]
fn other_keys_and_events_without_a_key_ask_for_nothing() {
    let mut input = InputState::default();
    input.handle_key_down(Some(Key::Other));
    input.handle_key_down(None);
    input.handle_key_up(None);
    assert!(!input.left && !input.right && !input.jump && !input.running && !input.request_quit);
    assert!(input.raw_keys.contains_key(Key::Other));
    input.handle_key_up(Some(Key::Other));
    assert!(!input.raw_keys.contains_key(Key::Other));
}

#[test]
fn an_event_without_a_key_leaves_the_flags_alone() {
    let mut input = InputState::default();
    input.jump = true;
    input.handle_key_down(None);
    assert!(input.jump);
    input.handle_key_down(Some(Key::Other));
    assert!(!input.jump);
}

#[test]
fn raw_keys_remember_what_is_held() {
    let mut keys = RawKeys::new();
    assert!(!keys.contains_key(Key::Left));
    keys.press(Key::Left);
    keys.press(Key::Left);
    assert!(keys.contains_key(Key::Left));
    assert!(!keys.contains_key(Key::Right));
    keys.release(Key::Left);
    assert!(!keys.contains_key(Key::Left));
    keys.release(Key::Left);
    assert!(!keys.contains_key(Key::Left));
}
