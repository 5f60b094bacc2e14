//! Simulation core of a side-scrolling tile platformer: rectangles and their
//! intersection, the correction that separates two colliding boxes, the
//! static geometry of a level and its queries, the player's movement states,
//! and the clock of its animations.
//!
//! All quantities are integers, so that every step is exact and the same on
//! every machine. Lengths are counted in millionths of a pixel, times in
//! microseconds, speeds in length units per second, and accelerations in
//! length units per second squared. The y axis of game space points up.
//!
//! Each data type has a mathematical value, its view, over unbounded
//! integers and sequences; the contracts of the functions and the laws of the
//! simulation are stated over these values.

pub mod actor;
pub mod animation_handler;
pub mod collision;
pub mod constants;
pub mod game;
pub mod game_gfx;
pub mod input_handler;
pub mod level_handler;
pub mod motion;
pub mod player;
pub mod primitives;
