use vstd::prelude::*;

verus! {

/// Length units in one pixel. Every coordinate, size and distance of the
/// simulation is an integer count of these units.
pub const UNIT: i64 = 1_000_000;

/// Time units in one second: elapsed time is counted in microseconds.
pub const MICROS_PER_SECOND: i64 = 1_000_000;

/// Largest magnitude of a coordinate or extent that a well-formed body or
/// level may have (one million pixels).
pub const WORLD_LIMIT: i64 = 1_000_000_000_000;

/// Largest magnitude of a configured speed, in length units per second, and of
/// a configured acceleration, in length units per second squared.
pub const SPEED_LIMIT: i64 = 1_000_000_000_000;

/// Width of the screen, in length units of game space.
pub const SCREEN_WIDTH: i64 = 1_280_000_000;

/// Height of the screen, in length units of game space.
pub const SCREEN_HEIGHT: i64 = 720_000_000;

/// Whether bounding boxes are drawn over the sprites.
pub const DRAW_BBOX: bool = false;

/// Simulation steps per second that the game loop aims for.
pub const DESIRED_FPS: u32 = 60;

/// Width of a ground tile.
pub const GROUND_TILE_WIDTH: i64 = 32_000_000;

/// Height of a ground tile.
pub const GROUND_TILE_HEIGHT: i64 = 32_000_000;

/// Width of a frame of the player's sprite sheet, as drawn.
pub const PLAYER_TILE_WIDTH: i64 = 128_000_000;

/// Height of a frame of the player's sprite sheet, as drawn.
pub const PLAYER_TILE_HEIGHT: i64 = 128_000_000;

/// Width of the player's bounding box.
pub const PLAYER_BBOX_WIDTH: i64 = 42_000_000;

/// Height of the player's bounding box.
pub const PLAYER_BBOX_HEIGHT: i64 = 74_000_000;

} // verus!
