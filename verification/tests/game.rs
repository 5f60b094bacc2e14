use sprite_game::constants::UNIT;
use sprite_game::game::SpriteGame;
use sprite_game::input_handler::Key;
use sprite_game::level_handler::LevelError;
use sprite_game::player::PlayerState;

fn level_text() -> Vec<String> {
    // the 23 rows of the level, with ground under the spawn position: its
    // top edge is five tiles up
    let mut text = vec![String::new(); 18];
    text.push("####################".to_string());
    for _ in 0..4 {
        text.push(String::new());
    }
    text
}

#[test]
fn new_game_has_the_player_standing_at_its_spawn() {
    let game = SpriteGame::new(&level_text()).unwrap();
    assert_eq!(game.player.actor.pos.x, 160 * UNIT);
    assert_eq!(game.player.actor.pos.y, 160 * UNIT);
    assert_eq!(game.player.state, PlayerState::Standing);
    assert!(game.player.grounded);
    assert_eq!(game.level.actors.len(), 20);
    assert_eq!(game.level.actors[0].pos.x, 0);
    assert_eq!(game.level.actors[0].pos.y, 128 * UNIT);
    assert!(!game.input.request_quit);
    assert!(game.is_valid());
}

#[test]
fn new_game_fails_on_unknown_tile() {
    let text = vec!["##z".to_string()];
    assert_eq!(SpriteGame::new(&text).err(), Some(LevelError::UnknownTile('z')));
}

#[test]
fn update_steps_the_player_and_its_animation() {
    let mut game = SpriteGame::new(&level_text()).unwrap();
    game.input.handle_key_down(Some(Key::Right));
    let done = game.update(60_000);
    assert!(!done.quit);
    assert_eq!(done.step, Ok(()));
    assert!(done.animated);
    assert_eq!(game.player.state, PlayerState::Walking);
    assert_eq!(game.player.actor.pos.x, 160 * UNIT + 14_400_000);
    assert_eq!(game.player.actor.pos.y, 160 * UNIT);
    // the walking animation was started by the step and then ran for 60 ms
    assert_eq!(game.player.animation.get_current_frame(), 1);
    let done = game.update(60_000);
    assert_eq!(done.step, Ok(()));
    assert_eq!(game.player.animation.get_current_frame(), 2);
    assert!(game.is_valid());
}

#[test]
fn update_reports_the_wish_to_quit() {
    let mut game = SpriteGame::new(&level_text()).unwrap();
    assert!(!game.update(16_667).quit);
    game.input.handle_key_down(Some(Key::Escape));
    let done = game.update(16_667);
    assert!(done.quit);
    assert_eq!(done.step, Ok(()));
    game.input.handle_key_up(Some(Key::Escape));
    assert!(!game.update(16_667).quit);
}

#[test]
fn update_leaves_a_full_animation_alone() {
    let mut game = SpriteGame::new(&level_text()).unwrap();
    game.player.animation = game.player.animation.at_frame(u64::MAX);
    let shown = game.player.animation.get_current_frame();
    // less than a frame: there is room
    let done = game.update(100_000);
    assert_eq!(done.step, Ok(()));
    assert!(done.animated);
    // the frame would end: there is no room for one more
    let done = game.update(100_000);
    assert_eq!(done.step, Ok(()));
    assert!(!done.animated);
    assert_eq!(game.player.animation.get_current_frame(), shown);
    assert!(game.is_valid());
    // a change of state starts a new animation, which has room
    game.input.handle_key_down(Some(Key::Left));
    let done = game.update(100_000);
    assert!(done.animated);
    assert_eq!(game.player.state, PlayerState::Walking);
    assert_eq!(game.player.animation.get_current_frame(), 2);
}

#[test]
fn update_that_cannot_step_does_not_animate() {
    let mut game = SpriteGame::new(&level_text()).unwrap();
    game.player.actor.pos.x = sprite_game::constants::WORLD_LIMIT;
    game.player.actor.update_bbox();
    game.input.handle_key_down(Some(Key::Right));
    let done = game.update(100_000);
    assert_eq!(done.step, Err(sprite_game::player::StepError::OutOfWorld));
    assert!(!done.animated);
    assert_eq!(game.player.state, PlayerState::Standing);
    assert_eq!(game.player.animation.get_current_frame(), 0);
}
