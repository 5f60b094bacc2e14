use vstd::prelude::*;

use crate::constants::{
    GROUND_TILE_HEIGHT,
    GROUND_TILE_WIDTH,
    PLAYER_BBOX_HEIGHT,
    PLAYER_BBOX_WIDTH,
};
use crate::input_handler::InputState;
use crate::level_handler::{texts, LevelError, LevelHandler, LevelView};
use crate::player::{MovementConfig, Player, PlayerView, StepError};
use crate::primitives::Vector;

verus! {

/// Columns of the game's level.
pub const LEVEL_WIDTH: usize = 40;

/// Rows of the game's level.
pub const LEVEL_HEIGHT: usize = 23;

/// What one update of the game has done.
#[derive(Debug, Clone, Copy)]
pub struct Update {
    /// The player asks to leave the game.
    pub quit: bool,
    /// Whether the player's step was made.
    pub step: Result<(), StepError>,
    /// Whether the player's animation was advanced. It is not where the
    /// step was not made, nor where its count of frames has no room left.
    pub animated: bool,
}

/// The state of the simulation: the player, what is asked of it, and the
/// level that it moves through.
pub struct SpriteGame {
    pub player: Player,
    pub input: InputState,
    pub level: LevelHandler,
}

impl SpriteGame {
    /// The player and the level are well formed.
    pub open spec fn wf(&self) -> bool {
        self.player.wf() && self.level.wf()
    }

    /// Whether the player and the level are well formed.
    pub fn is_valid(&self) -> (ok: bool)
        ensures
            ok == self.wf(),
    {
        self.player.is_valid() && self.level.is_valid()
    }

    /// The player after an update of `micros` microseconds, if its step can
    /// be made: stepped, and its animation advanced by the same time, if
    /// the animation's count of frames has room for that.
    pub open spec fn updated_player(&self, micros: nat) -> PlayerView {
        let stepped = self.player@.stepped(self.input@, micros, self.level@);
        if stepped.animation.has_room(micros) {
            PlayerView { animation: stepped.animation.advance(micros), ..stepped }
        } else {
            stepped
        }
    }

    /// Sets up the game in the level that `lines` describe, with the player
    /// at its spawn position and no key held.
    pub fn new(lines: &Vec<String>) -> (game: Result<SpriteGame, LevelError>)
        ensures
            match game {
                Ok(g) => {
                    &&& LevelView::build(
                        texts(lines@),
                        LEVEL_WIDTH as nat,
                        LEVEL_HEIGHT as nat,
                        Vector { x: GROUND_TILE_WIDTH as int, y: GROUND_TILE_HEIGHT as int },
                    ) == Ok::<LevelView, LevelError>(g.level@)
                    &&& g.player@ == PlayerView::spawned(
                        MovementConfig::standard(),
                        Vector { x: 5 * GROUND_TILE_WIDTH, y: 5 * GROUND_TILE_HEIGHT },
                        Vector { x: PLAYER_BBOX_WIDTH as int, y: PLAYER_BBOX_HEIGHT as int },
                    )
                    &&& g.input.wf()
                    &&& g.input.raw_keys@ == Set::<crate::input_handler::Key>::empty()
                    &&& g.wf()
                },
                Err(e) => LevelView::build(
                    texts(lines@),
                    LEVEL_WIDTH as nat,
                    LEVEL_HEIGHT as nat,
                    Vector { x: GROUND_TILE_WIDTH as int, y: GROUND_TILE_HEIGHT as int },
                ) == Err::<LevelView, LevelError>(e),
            },
    {
        let player = Player::create();
        let input = InputState::default();
        let level = match LevelHandler::new(lines, LEVEL_WIDTH, LEVEL_HEIGHT) {
            Ok(level) => level,
            Err(e) => {
                return Err(e);
            },
        };
        Ok(SpriteGame { player, input, level })
    }

    /// Runs the simulation for `micros` microseconds: the player makes its
    /// step and its animation advances. Where the step cannot be made the
    /// player stays as it was; where only the animation cannot advance, it
    /// alone stays. Says whether the player asks to leave.
    pub fn update(&mut self, micros: u32) -> (done: Update)
        requires
            old(self).wf(),
            micros > 0,
        ensures
            final(self).wf(),
            final(self).input == old(self).input,
            final(self).level == old(self).level,
            done.quit == old(self).input.request_quit,
            done.step is Ok <==> old(self).updated_player(micros as nat).in_world(),
            done.animated <==> done.step is Ok && old(self).player@.stepped(
                old(self).input@,
                micros as nat,
                old(self).level@,
            ).animation.has_room(micros as nat),
            match done.step {
                Ok(_) => final(self).player@ == old(self).updated_player(micros as nat),
                Err(e) => e == StepError::OutOfWorld && final(self).player == old(self).player,
            },
    {
        let quit = self.input.request_quit;
        let step = self.player.handle_input(&self.input, micros, &self.level);
        let animated = step.is_ok() && self.player.animation.has_room(micros);
        if animated {
            self.player.animation.update(micros);
        }
        Update { quit, step, animated }
    }
}

} // verus!
