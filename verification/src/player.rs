use vstd::prelude::*;

use crate::actor::{Actor, ActorType, ActorView};
use crate::animation_handler::{Animation, AnimationView};
use crate::collision::{
    find_mtv,
    lemma_mtv_shape,
    lemma_resolved_stays_near,
    near,
    resolved,
    COLLISION_TOLERANCE,
};
use crate::motion::{
    clear_of,
    distance,
    grazes_at_most,
    ground_probe,
    lemma_no_penetration,
    lemma_no_tunneling,
    lemma_nothing_hit,
    lemma_swept_stays_clear,
    lemma_pushed_out_at_rest,
    lemma_swept_comes_clear,
    lemma_travel_sign,
    magnitude,
    pushed_out,
    shifted,
    single,
    slid,
    squarely_met,
    swept,
    travel,
    TRAVEL_LIMIT,
};
use crate::constants::{
    GROUND_TILE_HEIGHT,
    GROUND_TILE_WIDTH,
    PLAYER_BBOX_HEIGHT,
    PLAYER_BBOX_WIDTH,
    PLAYER_TILE_HEIGHT,
    PLAYER_TILE_WIDTH,
    SPEED_LIMIT,
    UNIT,
    WORLD_LIMIT,
};
use crate::input_handler::{InputState, Intent};
use crate::level_handler::{lemma_collisions_are_hits, ref_views, LevelHandler, LevelView};
use crate::primitives::{max_int, Aabb, Dimensions, Direction, Point2, Rect, Vec2, Vector};

verus! {

/// Smallest base jump speed that a configuration may have. From here on
/// no two jump multipliers give the same launch speed after rounding.
pub const JUMP_FLOOR: i64 = 1000;

/// Largest base jump speed that a configuration may have.
pub const JUMP_LIMIT: i64 = 100_000_000_000;

/// Largest jump multiplier, in thousandths, that a configuration may have.
pub const MULTIPLIER_LIMIT: i64 = 10_000;

/// A well-formed player never falls faster than this: the largest fall speed
/// that a configuration allows, and what gravity can add to it in the
/// longest step.
pub const FALL_LIMIT: i64 = 5_000_000_000_000_000;

/// The movement state of the player.
#[derive(Debug, Clone, Copy, PartialEq, Eq, Structural)]
pub enum PlayerState {
    Standing,
    Walking,
    Running,
    Jumping,
}

/// Why a configuration or a player was refused.
#[derive(Debug, Clone, Copy, PartialEq, Eq, Structural)]
pub enum ConfigError {
    /// The walking speed is not positive, the running speed is not above
    /// the walking speed, or it is above the speed limit.
    InvalidSpeeds,
    /// The base jump speed is below its floor or above its limit, or the
    /// jump multipliers do not grow from standing to walking to running,
    /// within their limit.
    InvalidJump,
    /// Gravity or the largest fall speed is negative or above the speed
    /// limit.
    InvalidGravity,
    /// The bounding box has no positive width and height within the world
    /// limit, or the spawn position is outside the world limit.
    InvalidBody,
}

/// Why a step of the simulation was not made.
#[derive(Debug, Clone, Copy, PartialEq, Eq, Structural)]
pub enum StepError {
    /// The step would take the player outside the world limit.
    OutOfWorld,
}

/// The tunable numbers of the player's movement. Speeds are in length units
/// per second, gravity in length units per second squared, multipliers in
/// thousandths.
#[derive(Debug, Clone, Copy, PartialEq, Eq, Structural)]
pub struct MovementConfig {
    pub walking_speed: i64,
    pub running_speed: i64,
    /// Base speed at which a jump leaves the ground.
    pub jump_velocity: i64,
    /// Multiplier of the base jump speed for a jump from standing.
    pub standing_jump: i64,
    /// Multiplier of the base jump speed for a jump from walking.
    pub walking_jump: i64,
    /// Multiplier of the base jump speed for a jump from running.
    pub running_jump: i64,
    pub gravity: i64,
    /// Largest speed of falling.
    pub max_velocity_y: i64,
}

impl MovementConfig {
    /// Running is faster than walking, a jump from running is higher than
    /// one from walking, which is higher than one from standing, and every
    /// number is within its limit.
    pub open spec fn wf(self) -> bool {
        &&& 0 < self.walking_speed < self.running_speed <= SPEED_LIMIT
        &&& JUMP_FLOOR <= self.jump_velocity <= JUMP_LIMIT
        &&& 0 < self.standing_jump < self.walking_jump < self.running_jump <= MULTIPLIER_LIMIT
        &&& 0 <= self.gravity <= SPEED_LIMIT
        &&& 0 <= self.max_velocity_y <= SPEED_LIMIT
    }

    /// The numbers of the game: walking at 240 and running at 360 pixels
    /// per second, a jump at 500 pixels per second, higher by 16 percent
    /// from walking and by 40 percent from running, gravity of 2000 pixels
    /// per second squared, and falling at no more than 1200 pixels per
    /// second.
    pub open spec fn standard() -> MovementConfig {
        MovementConfig {
            walking_speed: 240_000_000,
            running_speed: 360_000_000,
            jump_velocity: 500_000_000,
            standing_jump: 1000,
            walking_jump: 1160,
            running_jump: 1400,
            gravity: 2_000_000_000,
            max_velocity_y: 1_200_000_000,
        }
    }

    /// The error that [`MovementConfig::new`] gives for a configuration
    /// that is not well formed.
    pub open spec fn fault(self) -> Option<ConfigError> {
        if !(0 < self.walking_speed < self.running_speed <= SPEED_LIMIT) {
            Some(ConfigError::InvalidSpeeds)
        } else if !(JUMP_FLOOR <= self.jump_velocity <= JUMP_LIMIT) || !(0 < self.standing_jump
            < self.walking_jump < self.running_jump <= MULTIPLIER_LIMIT) {
            Some(ConfigError::InvalidJump)
        } else if !(0 <= self.gravity <= SPEED_LIMIT) || !(0 <= self.max_velocity_y
            <= SPEED_LIMIT) {
            Some(ConfigError::InvalidGravity)
        } else {
            None
        }
    }

    /// Hands the configuration back if it is well formed, and says what is
    /// wrong with it if it is not.
    pub fn validate(self) -> (checked: Result<MovementConfig, ConfigError>)
        ensures
            match checked {
                Ok(c) => c == self && self.wf() && self.fault() is None,
                Err(e) => self.fault() == Some(e) && !self.wf(),
            },
    {
        let config = self;
        if !(0 < config.walking_speed && config.walking_speed < config.running_speed
            && config.running_speed <= SPEED_LIMIT) {
            return Err(ConfigError::InvalidSpeeds);
        }
        if !(JUMP_FLOOR <= config.jump_velocity && config.jump_velocity <= JUMP_LIMIT) || !(0
            < config.standing_jump && config.standing_jump < config.walking_jump
            && config.walking_jump < config.running_jump && config.running_jump
            <= MULTIPLIER_LIMIT) {
            return Err(ConfigError::InvalidJump);
        }
        if !(0 <= config.gravity && config.gravity <= SPEED_LIMIT) || !(0 <= config.max_velocity_y
            && config.max_velocity_y <= SPEED_LIMIT) {
            return Err(ConfigError::InvalidGravity);
        }
        Ok(config)
    }
}

impl Default for MovementConfig {
    fn default() -> (config: MovementConfig)
        ensures
            config == MovementConfig::standard(),
            config.wf(),
    {
        MovementConfig {
            walking_speed: 240_000_000,
            running_speed: 360_000_000,
            jump_velocity: 500_000_000,
            standing_jump: 1000,
            walking_jump: 1160,
            running_jump: 1400,
            gravity: 2_000_000_000,
            max_velocity_y: 1_200_000_000,
        }
    }
}

impl PlayerState {
    /// The multiplier, in thousandths, of the base jump speed for a jump
    /// that starts in this state.
    pub open spec fn jump_multiplier(self, config: MovementConfig) -> int {
        match self {
            PlayerState::Standing => config.standing_jump as int,
            PlayerState::Walking => config.walking_jump as int,
            PlayerState::Running => config.running_jump as int,
            PlayerState::Jumping => 1000,
        }
    }

    /// The speed at which a jump that starts in this state leaves the
    /// ground.
    pub open spec fn launch_speed(self, config: MovementConfig) -> int {
        (config.jump_velocity * self.jump_multiplier(config)) / 1000
    }

    /// The horizontal speed of this state where the player steers it:
    /// walking speed, or running speed with the run key held.
    pub open spec fn steering_speed(running: bool, config: MovementConfig) -> int {
        if running {
            config.running_speed as int
        } else {
            config.walking_speed as int
        }
    }

    /// The speed at which a jump that starts in this state leaves the
    /// ground.
    pub fn jump_speed(&self, config: &MovementConfig) -> (speed: i64)
        requires
            config.wf(),
        ensures
            speed == self.launch_speed(*config),
            0 <= speed <= SPEED_LIMIT,
    {
        let multiplier: i64 = match self {
            PlayerState::Standing => config.standing_jump,
            PlayerState::Walking => config.walking_jump,
            PlayerState::Running => config.running_jump,
            PlayerState::Jumping => 1000,
        };
        proof {
            assert(0 <= config.jump_velocity * multiplier <= JUMP_LIMIT * MULTIPLIER_LIMIT)
                by (nonlinear_arith)
                requires
                    0 < config.jump_velocity <= JUMP_LIMIT,
                    0 < multiplier <= MULTIPLIER_LIMIT,
            ;
        }
        config.jump_velocity * multiplier / 1000
    }
}

/// A jump from running is faster than one from walking, which is faster
/// than one from standing.
pub proof fn lemma_launch_speed_grows(config: MovementConfig)
    requires
        config.wf(),
    ensures
        0 < PlayerState::Standing.launch_speed(config) < PlayerState::Walking.launch_speed(
            config,
        ) < PlayerState::Running.launch_speed(config) <= SPEED_LIMIT,
{
    let j = config.jump_velocity as int;
    let a = config.standing_jump as int;
    let b = config.walking_jump as int;
    let c = config.running_jump as int;
    assert(0 <= j * a <= j * b <= j * c <= JUMP_LIMIT * MULTIPLIER_LIMIT) by (nonlinear_arith)
        requires
            0 < j <= JUMP_LIMIT,
            0 < a < b < c <= MULTIPLIER_LIMIT,
    ;
    assert(1000 <= j * a && j * a + 1000 <= j * b && j * b + 1000 <= j * c) by (nonlinear_arith)
        requires
            j >= 1000,
            0 < a < b < c,
    ;
    lemma_quotient_grows(0, j * a);
    lemma_quotient_grows(j * a, j * b);
    lemma_quotient_grows(j * b, j * c);
}

/// A number that is larger by a thousand or more has a larger quotient by a
/// thousand.
proof fn lemma_quotient_grows(small: int, large: int)
    requires
        0 <= small,
        small + 1000 <= large,
    ensures
        small / 1000 < large / 1000,
{
}

/// The mathematical value of a [`Player`].
pub struct PlayerView {
    pub actor: ActorView,
    pub animation: AnimationView,
    pub state: PlayerState,
    pub velocity: Vector,
    pub grounded: bool,
    pub config: MovementConfig,
}

impl PlayerView {
    /// The parts are well formed and the velocity is within its limits.
    pub open spec fn wf(self) -> bool {
        &&& self.actor.wf()
        &&& self.animation.wf()
        &&& self.config.wf()
        &&& -SPEED_LIMIT <= self.velocity.x <= SPEED_LIMIT
        &&& -FALL_LIMIT <= self.velocity.y <= SPEED_LIMIT
    }

    /// The player with its bounding box, and so its position, at `bbox`.
    pub open spec fn placed(self, bbox: Aabb) -> PlayerView {
        PlayerView { actor: ActorView { pos: bbox.origin(), bbox, ..self.actor }, ..self }
    }

    /// The player in a new state, with the animation of that state started.
    pub open spec fn entered(self, state: PlayerState) -> PlayerView {
        PlayerView {
            state,
            animation: match state {
                PlayerState::Standing => AnimationView::player_idle(),
                PlayerState::Walking => AnimationView::player_walking(),
                PlayerState::Running => AnimationView::player_running(),
                PlayerState::Jumping => AnimationView::player_jumping(),
            },
            ..self
        }
    }

    /// Whether a jump starts: it is asked for, the player stands on
    /// something, and is not in a jump already.
    pub open spec fn can_jump(self, input: Intent) -> bool {
        input.jump && self.grounded && self.state != PlayerState::Jumping
    }

    /// A jump starts: the vertical velocity becomes the launch speed of the
    /// state that the player leaves.
    pub open spec fn jumped(self) -> PlayerView {
        PlayerView {
            velocity: Vector { x: self.velocity.x, y: self.state.launch_speed(self.config) },
            ..self
        }.entered(PlayerState::Jumping)
    }

    /// The player turns to `direction` and takes the walking or the running
    /// speed in that direction. On the ground it also enters the walking or
    /// the running state, unless it is in it already; in the air its state
    /// stays.
    pub open spec fn steered(self, direction: Direction, running: bool) -> PlayerView {
        let turned = PlayerView {
            actor: ActorView { facing: direction, ..self.actor },
            velocity: Vector {
                x: direction.sign() * PlayerState::steering_speed(running, self.config),
                y: self.velocity.y,
            },
            ..self
        };
        let state = if running {
            PlayerState::Running
        } else {
            PlayerState::Walking
        };
        if self.grounded && self.state != state {
            turned.entered(state)
        } else {
            turned
        }
    }

    /// The player stops moving sideways. On the ground it also enters the
    /// standing state, unless it is in it already.
    pub open spec fn idled(self) -> PlayerView {
        let stopped = PlayerView { velocity: Vector { x: 0, y: self.velocity.y }, ..self };
        if self.grounded && self.state != PlayerState::Standing {
            stopped.entered(PlayerState::Standing)
        } else {
            stopped
        }
    }

    /// The player after it has acted on what is asked of it. A jump that
    /// can start comes first, then steering. With neither a direction nor a
    /// jump asked for the player idles; with a jump asked for that cannot
    /// start, and no direction, nothing changes.
    pub open spec fn acted(self, input: Intent) -> PlayerView {
        if self.can_jump(input) {
            self.jumped()
        } else {
            match input.move_x() {
                Some(direction) => self.steered(direction, input.running),
                None => if input.jump {
                    self
                } else {
                    self.idled()
                },
            }
        }
    }

    /// The velocity with which a step is made: the fall speed is held to
    /// its maximum.
    pub open spec fn capped_velocity(self) -> Vector {
        Vector { x: self.velocity.x, y: max_int(self.velocity.y, -self.config.max_velocity_y) }
    }

    /// The player after `micros` microseconds of motion: moved and
    /// corrected axis by axis, then told whether it stands on something.
    /// Gravity changes the velocity after the move, for the next step; on
    /// the ground the vertical velocity is zero.
    pub open spec fn integrated(self, micros: nat, level: LevelView) -> PlayerView {
        let velocity = self.capped_velocity();
        let bbox = swept(self.actor.bbox, level, velocity, micros);
        let grounded = level.collides_with(ground_probe(bbox));
        PlayerView {
            velocity: Vector {
                x: velocity.x,
                y: if grounded {
                    0
                } else {
                    velocity.y - travel(self.config.gravity as int, micros)
                },
            },
            grounded,
            ..self.placed(bbox)
        }
    }

    /// The player after one step of the simulation.
    pub open spec fn stepped(self, input: Intent, micros: nat, level: LevelView) -> PlayerView {
        self.acted(input).integrated(micros, level)
    }

    /// The position is within the world limit.
    pub open spec fn in_world(self) -> bool {
        &&& -WORLD_LIMIT <= self.actor.pos.x <= WORLD_LIMIT
        &&& -WORLD_LIMIT <= self.actor.pos.y <= WORLD_LIMIT
    }
}

impl PlayerView {
    /// The player as it enters the game: standing on the ground at
    /// `spawn`, facing right, at rest.
    pub open spec fn spawned(config: MovementConfig, spawn: Vector, size: Vector) -> PlayerView {
        PlayerView {
            actor: ActorView {
                tag: ActorType::Player,
                pos: spawn,
                facing: Direction::Right,
                sprite_size: Vector { x: PLAYER_TILE_WIDTH as int, y: PLAYER_TILE_HEIGHT as int },
                draw_offset: Vector { x: half(size.x - PLAYER_TILE_WIDTH), y: 0 },
                bbox: Aabb { x: spawn.x, y: spawn.y, w: size.x, h: size.y },
            },
            animation: AnimationView::player_idle(),
            state: PlayerState::Standing,
            velocity: Vector { x: 0, y: 0 },
            grounded: true,
            config,
        }
    }

    /// The bounding box has a positive width and height, and it and the
    /// spawn position are within the world limit.
    pub open spec fn valid_body(spawn: Vector, size: Vector) -> bool {
        &&& 0 < size.x <= WORLD_LIMIT
        &&& 0 < size.y <= WORLD_LIMIT
        &&& -WORLD_LIMIT <= spawn.x <= WORLD_LIMIT
        &&& -WORLD_LIMIT <= spawn.y <= WORLD_LIMIT
    }

    /// All that [`PlayerView::wf`] asks for, except that the position may
    /// be up to `reach` away from the origin.
    pub open spec fn wf_within(self, reach: int) -> bool {
        &&& self.actor.bbox.origin() == self.actor.pos
        &&& self.actor.bbox.solid()
        &&& self.actor.bbox.w <= WORLD_LIMIT
        &&& self.actor.bbox.h <= WORLD_LIMIT
        &&& -reach <= self.actor.pos.x <= reach
        &&& -reach <= self.actor.pos.y <= reach
        &&& 0 <= self.actor.sprite_size.x <= WORLD_LIMIT
        &&& 0 <= self.actor.sprite_size.y <= WORLD_LIMIT
        &&& -WORLD_LIMIT <= self.actor.draw_offset.x <= WORLD_LIMIT
        &&& -WORLD_LIMIT <= self.actor.draw_offset.y <= WORLD_LIMIT
        &&& self.animation.wf()
        &&& self.config.wf()
        &&& -SPEED_LIMIT <= self.velocity.x <= SPEED_LIMIT
        &&& -FALL_LIMIT <= self.velocity.y <= SPEED_LIMIT
    }
}

/// Half of a length, rounded towards zero.
pub open spec fn half(d: int) -> int {
    if d >= 0 {
        d / 2
    } else {
        -((-d) / 2)
    }
}

fn half_of(d: i64) -> (h: i64)
    requires
        -2 * WORLD_LIMIT <= d <= 2 * WORLD_LIMIT,
    ensures
        h == half(d as int),
        -WORLD_LIMIT <= h <= WORLD_LIMIT,
{
    if d >= 0 {
        d / 2
    } else {
        -((-d) / 2)
    }
}

/// The player: an actor that is steered by the keyboard, pulled down by
/// gravity and held up by the ground.
#[derive(Debug, Clone, Copy)]
pub struct Player {
    pub actor: Actor,
    pub animation: Animation,
    pub state: PlayerState,
    /// Velocity in length units per second.
    pub velocity: Vec2,
    /// Whether the player stands on a ground block.
    pub grounded: bool,
    pub config: MovementConfig,
}

impl View for Player {
    type V = PlayerView;

    open spec fn view(&self) -> PlayerView {
        PlayerView {
            actor: self.actor@,
            animation: self.animation@,
            state: self.state,
            velocity: self.velocity@,
            grounded: self.grounded,
            config: self.config,
        }
    }
}

impl Player {
    /// See [`PlayerView::wf`].
    pub open spec fn wf(&self) -> bool {
        self@.wf()
    }

    /// Whether the player is well formed.
    pub fn is_valid(&self) -> (ok: bool)
        ensures
            ok == self.wf(),
    {
        self.actor.is_valid() && self.animation.is_valid() && self.config.validate().is_ok()
            && -SPEED_LIMIT <= self.velocity.x && self.velocity.x <= SPEED_LIMIT && -FALL_LIMIT
            <= self.velocity.y && self.velocity.y <= SPEED_LIMIT
    }

    /// The player of the game, with the standard movement numbers, five
    /// tiles to the right of and above the level's origin.
    pub fn create() -> (player: Player)
        ensures
            player@ == PlayerView::spawned(
                MovementConfig::standard(),
                Vector { x: 5 * GROUND_TILE_WIDTH, y: 5 * GROUND_TILE_HEIGHT },
                Vector { x: PLAYER_BBOX_WIDTH as int, y: PLAYER_BBOX_HEIGHT as int },
            ),
            player.wf(),
    {
        let x: i64 = 5 * GROUND_TILE_WIDTH;
        let y: i64 = 5 * GROUND_TILE_HEIGHT;
        let bbox = Vec2 { x: PLAYER_BBOX_WIDTH, y: PLAYER_BBOX_HEIGHT };
        Player {
            actor: Actor {
                tag: ActorType::Player,
                pos: Vec2 { x, y },
                facing: Direction::Right,
                sprite_size: Vec2 { x: PLAYER_TILE_WIDTH, y: PLAYER_TILE_HEIGHT },
                draw_offset: Vec2 { x: half_of(bbox.x - PLAYER_TILE_WIDTH), y: 0 },
                bbox: Rect { x, y, w: bbox.x, h: bbox.y },
            },
            animation: Animation::player_idle(),
            state: PlayerState::Standing,
            velocity: Vec2 { x: 0, y: 0 },
            grounded: true,
            config: MovementConfig::default(),
        }
    }

    /// A player with movement numbers and a bounding box of its own. The
    /// configuration must be well formed, the bounding box must have a
    /// positive width and height, and it and the spawn position must be
    /// within the world limit. The sprite is centred on the bounding box
    /// along x.
    pub fn with_config(config: MovementConfig, spawn: Point2, size: Dimensions) -> (player: Result<
        Player,
        ConfigError,
    >)
        ensures
            match player {
                Ok(p) => config.wf() && PlayerView::valid_body(spawn@, size@) && p@
                    == PlayerView::spawned(config, spawn@, size@) && p.wf(),
                Err(e) => match config.fault() {
                    Some(fault) => e == fault,
                    None => e == ConfigError::InvalidBody && !PlayerView::valid_body(
                        spawn@,
                        size@,
                    ),
                },
            },
    {
        let config = match config.validate() {
            Ok(c) => c,
            Err(e) => {
                return Err(e);
            },
        };
        if !(0 < size.x && size.x <= WORLD_LIMIT && 0 < size.y && size.y <= WORLD_LIMIT
            && -WORLD_LIMIT <= spawn.x && spawn.x <= WORLD_LIMIT && -WORLD_LIMIT <= spawn.y
            && spawn.y <= WORLD_LIMIT) {
            return Err(ConfigError::InvalidBody);
        }
        Ok(
            Player {
                actor: Actor {
                    tag: ActorType::Player,
                    pos: spawn,
                    facing: Direction::Right,
                    sprite_size: Vec2 { x: PLAYER_TILE_WIDTH, y: PLAYER_TILE_HEIGHT },
                    draw_offset: Vec2 { x: half_of(size.x - PLAYER_TILE_WIDTH), y: 0 },
                    bbox: Rect { x: spawn.x, y: spawn.y, w: size.x, h: size.y },
                },
                animation: Animation::player_idle(),
                state: PlayerState::Standing,
                velocity: Vec2 { x: 0, y: 0 },
                grounded: true,
                config,
            },
        )
    }

    /// Makes one step of the simulation: the player acts on what `input`
    /// asks for, then moves for `micros` microseconds through `level`.
    ///
    /// A step that would take the player outside the world limit is not
    /// made: the player is left as it was.
    pub fn handle_input(&mut self, input: &InputState, micros: u32, level: &LevelHandler) -> (made:
        Result<(), StepError>)
        requires
            old(self).wf(),
            level.wf(),
            micros > 0,
        ensures
            final(self).wf(),
            made is Ok <==> old(self)@.stepped(input@, micros as nat, level@).in_world(),
            match made {
                Ok(_) => final(self)@ == old(self)@.stepped(input@, micros as nat, level@),
                Err(e) => e == StepError::OutOfWorld && *final(self) == *old(self),
            },
    {
        let before = *self;
        self.update_player_action(input);
        self.calc_player_pos(micros, level);
        if -WORLD_LIMIT <= self.actor.pos.x && self.actor.pos.x <= WORLD_LIMIT && -WORLD_LIMIT
            <= self.actor.pos.y && self.actor.pos.y <= WORLD_LIMIT {
            Ok(())
        } else {
            *self = before;
            Err(StepError::OutOfWorld)
        }
    }

    /// Acts on what is asked for: starts a jump, steers, or idles. While a
    /// jump is asked for that cannot start, the player can be steered but
    /// does not idle.
    pub fn update_player_action(&mut self, input: &InputState)
        requires
            old(self).wf(),
        ensures
            final(self)@ == old(self)@.acted(input@),
            final(self).wf(),
    {
        if input.jump && self.grounded && !matches!(self.state, PlayerState::Jumping) {
            return self.jump();
        }
        if let Some(dir) = input.move_x() {
            self.actor.facing = dir;
            if input.running {
                return self.run(dir);
            } else {
                return self.walk(dir);
            }
        }
        if !input.jump {
            self.idle()
        }
    }

    /// Stops the player's motion sideways; on the ground the player comes
    /// to stand.
    pub fn idle(&mut self)
        requires
            old(self).wf(),
        ensures
            final(self)@ == old(self)@.idled(),
            final(self).wf(),
    {
        self.velocity.x = 0;
        if !matches!(self.state, PlayerState::Standing) && self.grounded {
            self.state = PlayerState::Standing;
            self.animation = Animation::player_idle();
        }
    }

    /// Turns the player to `direction` at walking speed; on the ground the
    /// player comes to walk.
    pub fn walk(&mut self, direction: Direction)
        requires
            old(self).wf(),
        ensures
            final(self)@ == old(self)@.steered(direction, false),
            final(self).wf(),
    {
        self.velocity.x = direction.mult() * self.config.walking_speed;
        self.actor.facing = direction;
        if !matches!(self.state, PlayerState::Walking) && self.grounded {
            self.state = PlayerState::Walking;
            self.animation = Animation::player_walking();
        }
    }

    /// Turns the player to `direction` at running speed; on the ground the
    /// player comes to run.
    pub fn run(&mut self, direction: Direction)
        requires
            old(self).wf(),
        ensures
            final(self)@ == old(self)@.steered(direction, true),
            final(self).wf(),
    {
        self.actor.facing = direction;
        self.velocity.x = direction.mult() * self.config.running_speed;
        if !matches!(self.state, PlayerState::Running) && self.grounded {
            self.state = PlayerState::Running;
            self.animation = Animation::player_running();
        }
    }

    /// Starts a jump, if the player stands on something and is not in a
    /// jump already. In the air, and in a jump, nothing changes.
    pub fn jump(&mut self)
        requires
            old(self).wf(),
        ensures
            final(self)@ == if old(self)@.grounded && old(self)@.state != PlayerState::Jumping {
                old(self)@.jumped()
            } else {
                old(self)@
            },
            final(self).wf(),
    {
        if !matches!(self.state, PlayerState::Jumping) && self.grounded {
            self.velocity.y = self.state.jump_speed(&self.config);
            self.state = PlayerState::Jumping;
            self.animation = Animation::player_jumping();
        }
    }

    /// Moves the player for `micros` microseconds: along x, then along y,
    /// each followed by the corrections against the level; then gravity
    /// acts on the velocity, and the player is told whether it stands on
    /// something. The move may take the player outside the world limit,
    /// which [`Player::handle_input`] does not let stand.
    pub fn calc_player_pos(&mut self, micros: u32, level: &LevelHandler)
        requires
            old(self).wf(),
            level.wf(),
        ensures
            final(self)@ == old(self)@.integrated(micros as nat, level@),
            final(self)@.wf_within(5 * TRAVEL_LIMIT),
    {
        if self.velocity.y < -self.config.max_velocity_y {
            self.velocity.y = -self.config.max_velocity_y;
        }
        let dx = distance(self.velocity.x, micros);
        self.move_by(dx, 0);
        self.check_collision(true, level);
        let dy = distance(self.velocity.y, micros);
        self.move_by(0, dy);
        self.check_collision(false, level);
        let fall = distance(self.config.gravity, micros);
        self.velocity.y = self.velocity.y - fall;
        self.grounded = self.is_grounded(level);
        if self.grounded {
            self.velocity.y = 0;
        }
    }

    fn move_by(&mut self, x: i64, y: i64)
        requires
            old(self)@.wf_within(5 * TRAVEL_LIMIT),
            -TRAVEL_LIMIT <= x <= TRAVEL_LIMIT,
            -TRAVEL_LIMIT <= y <= TRAVEL_LIMIT,
        ensures
            final(self)@ == old(self)@.placed(
                old(self)@.actor.bbox.at(
                    old(self)@.actor.pos.plus(Vector { x: x as int, y: y as int }),
                ),
            ),
    {
        self.actor.pos.x = self.actor.pos.x + x;
        self.actor.pos.y = self.actor.pos.y + y;
        self.actor.update_bbox();
    }

    /// Corrects the player against every ground block that it overlaps, as
    /// found before the first correction.
    fn check_collision(&mut self, along_x: bool, level: &LevelHandler)
        requires
            old(self)@.wf_within(4 * TRAVEL_LIMIT),
            level.wf(),
        ensures
            final(self)@ == old(self)@.placed(
                pushed_out(
                    old(self)@.actor.bbox,
                    level@.collisions(old(self)@.actor.bbox),
                    old(self)@.velocity,
                    along_x,
                ),
            ),
            near(final(self)@.actor.bbox, old(self)@.actor.bbox, WORLD_LIMIT as int),
            along_x ==> final(self)@.actor.pos.y == old(self)@.actor.pos.y,
            !along_x ==> final(self)@.actor.pos.x == old(self)@.actor.pos.x,
    {
        let collisions = level.get_collisions(&self.actor.bbox);
        let ghost start = self@;
        let ghost moved = self@.actor.bbox;
        let ghost hits = level@.collisions(moved);
        proof {
            lemma_collisions_are_hits(level@, moved);
            assert(hits.take(0) =~= Seq::<ActorView>::empty());
            assert(start.placed(moved) == start);
        }
        let mut i: usize = 0;
        while i < collisions.len()
            invariant
                i <= collisions.len(),
                ref_views(collisions@) == hits,
                start.wf_within(4 * TRAVEL_LIMIT),
                moved == start.actor.bbox,
                forall|k: int|
                    0 <= k < hits.len() ==> (#[trigger] hits[k]).bbox.overlaps(moved)
                        && hits[k].wf(),
                self@ == start.placed(
                    pushed_out(moved, hits.take(i as int), start.velocity, along_x),
                ),
                near(self@.actor.bbox, moved, WORLD_LIMIT as int),
                along_x ==> self@.actor.bbox.y == moved.y,
                !along_x ==> self@.actor.bbox.x == moved.x,
            decreases collisions.len() - i,
        {
            proof {
                assert(hits.take(i + 1).drop_last() =~= hits.take(i as int));
                assert(hits.take(i + 1).last() == collisions[i as int]@);
                assert(hits[i as int].bbox.overlaps(moved) && hits[i as int].wf());
                lemma_resolved_stays_near(
                    self@.actor.bbox,
                    moved,
                    hits[i as int].bbox,
                    start.velocity,
                    along_x,
                    WORLD_LIMIT as int,
                );
            }
            self.resolve_collision(collisions[i], along_x);
            i += 1;
        }
        assert(hits.take(i as int) =~= hits);
    }

    /// Moves the player out of `actor` along one axis, if they collide.
    fn resolve_collision(&mut self, actor: &Actor, along_x: bool)
        requires
            old(self)@.wf_within(5 * TRAVEL_LIMIT),
        ensures
            final(self)@ == old(self)@.placed(
                resolved(old(self)@.actor.bbox, actor@.bbox, old(self)@.velocity, along_x),
            ),
    {
        if let Some(offs) = find_mtv(&self.actor.bbox, &actor.bbox, self.velocity, along_x) {
            proof {
                lemma_mtv_shape(
                    self@.actor.bbox,
                    actor@.bbox,
                    self@.velocity,
                    along_x,
                );
            }
            self.move_by(offs.x, offs.y)
        }
    }

    /// Whether the player stands on a ground block.
    pub fn is_grounded(&self, level: &LevelHandler) -> (grounded: bool)
        requires
            self@.wf_within(5 * TRAVEL_LIMIT),
        ensures
            grounded == level@.collides_with(ground_probe(self@.actor.bbox)),
    {
        let ground_check = Rect {
            x: self.actor.bbox.x,
            y: self.actor.bbox.y - UNIT,
            w: self.actor.bbox.w,
            h: UNIT,
        };
        level.collides_with(&ground_check)
    }
}

/// A jump needs the ground. In the air, and in a jump that has not ended,
/// asking for a jump changes neither the state, nor the animation, nor the
/// vertical velocity of the player; with no direction asked for besides, it
/// changes nothing at all. With a direction, the player is steered as if
/// the jump were not asked for.
pub proof fn lemma_jump_needs_ground(p: PlayerView, input: Intent)
    requires
        !p.grounded || p.state == PlayerState::Jumping,
        input.jump,
    ensures
        p.acted(input).velocity.y == p.velocity.y,
        !p.grounded ==> p.acted(input).state == p.state && p.acted(input).animation
            == p.animation,
        input.move_x() is None ==> p.acted(input) == p,
        input.move_x() is Some ==> p.acted(input) == p.acted(Intent { jump: false, ..input }),
{
}

/// In the air the player can be steered, but its state and animation stay,
/// whatever is asked for.
pub proof fn lemma_state_kept_in_air(p: PlayerView, input: Intent)
    requires
        !p.grounded,
    ensures
        p.acted(input).state == p.state,
        p.acted(input).animation == p.animation,
        p.acted(input).velocity.y == p.velocity.y,
{
}

/// The animation starts over exactly when the state changes: a player that
/// acts either keeps its state and its animation, or enters another state
/// with that state's animation at its first frame.
pub proof fn lemma_animation_follows_state(p: PlayerView, input: Intent)
    ensures
        p.acted(input).state == p.state ==> p.acted(input).animation == p.animation,
        p.acted(input).state != p.state ==> p.acted(input).animation == p.entered(
            p.acted(input).state,
        ).animation && p.acted(input).animation.current_frame == 0
            && p.acted(input).animation.elapsed_time == 0,
{
}

/// A player at rest stays at rest. A player with no velocity, whose bottom
/// edge is flush with the top edge of a ground block below it, and of whom
/// nothing is asked, is after a step what it was before it, but that it
/// stands on the ground, in the standing state if it stood on the ground
/// before.
pub proof fn lemma_rest_is_stable(
    p: PlayerView,
    input: Intent,
    micros: nat,
    level: LevelView,
    block: int,
)
    requires
        p.wf(),
        level.wf(),
        0 <= block < level.actors.len(),
        p.actor.bbox.y == level.actors[block].bbox.top(),
        p.actor.bbox.x < level.actors[block].bbox.right(),
        level.actors[block].bbox.x < p.actor.bbox.right(),
        p.velocity == (Vector { x: 0, y: 0 }),
        !input.jump,
        input.move_x() is None,
    ensures
        p.stepped(input, micros, level).actor == p.actor,
        p.stepped(input, micros, level).config == p.config,
        p.stepped(input, micros, level).grounded,
        p.stepped(input, micros, level).velocity == (Vector { x: 0, y: 0 }),
        p.stepped(input, micros, level).state == if p.grounded {
            PlayerState::Standing
        } else {
            p.state
        },
        p.stepped(input, micros, level).in_world(),
        p.stepped(input, micros, level).wf(),
{
    let q = p.acted(input);
    let v = q.capped_velocity();
    assert(v == Vector { x: 0, y: 0 });
    lemma_travel_sign(0, micros);
    let body = p.actor.bbox;
    assert(q.actor.bbox == body);
    lemma_pushed_out_at_rest(body, level.collisions(body), v, true);
    assert(slid(body, level, v, 0, true) == body);
    lemma_pushed_out_at_rest(body, level.collisions(body), v, false);
    assert(slid(body, level, v, 0, false) == body);
    assert(swept(body, level, v, micros) == body);
    let tile = level.actors[block];
    assert(tile.wf() && tile.bbox.within(level.bbox));
    assert(tile.bbox.overlaps(ground_probe(body)));
    assert(level.collides_with(ground_probe(body)));
}

impl PlayerView {
    /// The player after `ticks` steps of `micros` microseconds each, with
    /// nothing asked of it.
    pub open spec fn left_alone(self, ticks: nat, micros: nat, level: LevelView) -> PlayerView
        decreases ticks,
    {
        if ticks == 0 {
            self
        } else {
            self.left_alone((ticks - 1) as nat, micros, level).stepped(
                Intent::nothing(),
                micros,
                level,
            )
        }
    }
}

/// Rest lasts. A player with no velocity, whose bottom edge is flush with
/// the top edge of a ground block below it, stays where it is for any
/// number of steps in which nothing is asked of it: after every one of them
/// it is in the same place, stands on the ground, has no velocity, and
/// overlaps what it overlapped before, so nothing if it overlapped nothing.
pub proof fn lemma_rest_lasts(
    p: PlayerView,
    ticks: nat,
    micros: nat,
    level: LevelView,
    block: int,
)
    requires
        p.wf(),
        level.wf(),
        0 <= block < level.actors.len(),
        p.actor.bbox.y == level.actors[block].bbox.top(),
        p.actor.bbox.x < level.actors[block].bbox.right(),
        level.actors[block].bbox.x < p.actor.bbox.right(),
        p.velocity == (Vector { x: 0, y: 0 }),
    ensures
        p.left_alone(ticks, micros, level).actor == p.actor,
        p.left_alone(ticks, micros, level).velocity == (Vector { x: 0, y: 0 }),
        p.left_alone(ticks, micros, level).wf(),
        p.left_alone(ticks, micros, level).in_world(),
        ticks > 0 ==> p.left_alone(ticks, micros, level).grounded,
        ticks > 1 ==> p.left_alone(ticks, micros, level).state == PlayerState::Standing,
        level.collisions(p.left_alone(ticks, micros, level).actor.bbox) == level.collisions(
            p.actor.bbox,
        ),
        clear_of(p.actor.bbox, level) ==> level.collisions(
            p.left_alone(ticks, micros, level).actor.bbox,
        ) == Seq::<ActorView>::empty(),
    decreases ticks,
{
    if clear_of(p.actor.bbox, level) {
        lemma_nothing_hit(level, p.actor.bbox);
    }
    if ticks > 0 {
        let before = p.left_alone((ticks - 1) as nat, micros, level);
        lemma_rest_lasts(p, (ticks - 1) as nat, micros, level, block);
        lemma_rest_is_stable(before, Intent::nothing(), micros, level, block);
    }
}

/// No tunneling in the player's move. A player that does not overlap an
/// obstacle, and that moves for a time in which it travels less than the
/// obstacle's width along x and less than its height along y, does not
/// engulf the obstacle after the move.
pub proof fn lemma_move_no_tunneling(
    p: PlayerView,
    micros: nat,
    obstacle: ActorView,
    extent: Aabb,
)
    requires
        p.actor.bbox.solid(),
        obstacle.bbox.solid(),
        !p.actor.bbox.overlaps(obstacle.bbox),
        magnitude(travel(p.capped_velocity().x, micros)) < obstacle.bbox.w,
        magnitude(travel(p.capped_velocity().y, micros)) < obstacle.bbox.h,
    ensures
        !obstacle.bbox.within(p.integrated(micros, single(obstacle, extent)).actor.bbox),
{
    lemma_no_tunneling(p.actor.bbox, obstacle, extent, p.capped_velocity(), micros);
}

/// No tunneling in a step. A player that does not overlap an obstacle, and
/// that with the velocity that it takes in the step travels less than the
/// obstacle's width along x and less than its height along y, does not
/// engulf the obstacle after the step.
pub proof fn lemma_step_no_tunneling(
    p: PlayerView,
    input: Intent,
    micros: nat,
    obstacle: ActorView,
    extent: Aabb,
)
    requires
        p.actor.bbox.solid(),
        obstacle.bbox.solid(),
        !p.actor.bbox.overlaps(obstacle.bbox),
        magnitude(travel(p.acted(input).capped_velocity().x, micros)) < obstacle.bbox.w,
        magnitude(travel(p.acted(input).capped_velocity().y, micros)) < obstacle.bbox.h,
    ensures
        !obstacle.bbox.within(p.stepped(input, micros, single(obstacle, extent)).actor.bbox),
{
    lemma_move_no_tunneling(p.acted(input), micros, obstacle, extent);
}

/// No penetration in a step. A player that does not overlap an obstacle
/// inside the level, and that in the step travels no further than its own
/// and the obstacle's extent along x and, less the collision tolerance,
/// along y, overlaps the obstacle by no more than a graze after the step.
pub proof fn lemma_step_no_penetration(
    p: PlayerView,
    input: Intent,
    micros: nat,
    obstacle: ActorView,
    extent: Aabb,
)
    requires
        p.actor.bbox.solid(),
        obstacle.bbox.solid(),
        obstacle.bbox.within(extent),
        !p.actor.bbox.overlaps(obstacle.bbox),
        magnitude(travel(p.acted(input).capped_velocity().x, micros)) <= p.actor.bbox.w,
        magnitude(travel(p.acted(input).capped_velocity().x, micros)) <= obstacle.bbox.w,
        magnitude(travel(p.acted(input).capped_velocity().y, micros)) + COLLISION_TOLERANCE
            <= p.actor.bbox.h,
        magnitude(travel(p.acted(input).capped_velocity().y, micros)) + COLLISION_TOLERANCE
            <= obstacle.bbox.h,
    ensures
        grazes_at_most(
            p.stepped(input, micros, single(obstacle, extent)).actor.bbox,
            obstacle.bbox,
        ),
{
    lemma_no_penetration(
        p.actor.bbox,
        obstacle,
        extent,
        p.acted(input).capped_velocity(),
        micros,
    );
}

/// No tunneling through a level in a step. In a well-formed level, a
/// player that overlaps no ground block, that in the step travels along
/// each axis no further than its own extent and the extent of each ground
/// block, and that the corrections along x leave clear of every ground
/// block, overlaps no ground block by more than a graze after the step.
pub proof fn lemma_step_stays_clear(p: PlayerView, input: Intent, micros: nat, level: LevelView)
    requires
        p.actor.bbox.solid(),
        level.wf(),
        clear_of(p.actor.bbox, level),
        magnitude(travel(p.acted(input).capped_velocity().x, micros)) <= p.actor.bbox.w,
        magnitude(travel(p.acted(input).capped_velocity().y, micros)) <= p.actor.bbox.h,
        forall|i: int|
            0 <= i < level.actors.len() ==> magnitude(
                travel(p.acted(input).capped_velocity().x, micros),
            ) <= (#[trigger] level.actors[i]).bbox.w && magnitude(
                travel(p.acted(input).capped_velocity().y, micros),
            ) <= level.actors[i].bbox.h,
        clear_of(
            slid(
                p.actor.bbox,
                level,
                p.acted(input).capped_velocity(),
                travel(p.acted(input).capped_velocity().x, micros),
                true,
            ),
            level,
        ),
    ensures
        forall|i: int|
            0 <= i < level.actors.len() ==> grazes_at_most(
                p.stepped(input, micros, level).actor.bbox,
                (#[trigger] level.actors[i]).bbox,
            ),
{
    lemma_swept_stays_clear(p.actor.bbox, level, p.acted(input).capped_velocity(), micros);
}

/// Flush, not inside, after a step. In a well-formed level, a player that
/// overlaps no ground block, that in the step travels along each axis no
/// further than its own extent and the extent of each ground block, and
/// that meets squarely what it meets along x and then along y, overlaps no
/// ground block after the step: a query for its bounding box finds
/// nothing.
pub proof fn lemma_step_comes_clear(p: PlayerView, input: Intent, micros: nat, level: LevelView)
    requires
        p.actor.bbox.solid(),
        level.wf(),
        clear_of(p.actor.bbox, level),
        magnitude(travel(p.acted(input).capped_velocity().x, micros)) <= p.actor.bbox.w,
        magnitude(travel(p.acted(input).capped_velocity().y, micros)) <= p.actor.bbox.h,
        forall|i: int|
            0 <= i < level.actors.len() ==> magnitude(
                travel(p.acted(input).capped_velocity().x, micros),
            ) <= (#[trigger] level.actors[i]).bbox.w && magnitude(
                travel(p.acted(input).capped_velocity().y, micros),
            ) <= level.actors[i].bbox.h,
        squarely_met(
            shifted(p.actor.bbox, travel(p.acted(input).capped_velocity().x, micros), true),
            level,
            true,
        ),
        squarely_met(
            shifted(
                slid(
                    p.actor.bbox,
                    level,
                    p.acted(input).capped_velocity(),
                    travel(p.acted(input).capped_velocity().x, micros),
                    true,
                ),
                travel(p.acted(input).capped_velocity().y, micros),
                false,
            ),
            level,
            false,
        ),
    ensures
        clear_of(p.stepped(input, micros, level).actor.bbox, level),
        level.collisions(p.stepped(input, micros, level).actor.bbox) == Seq::<ActorView>::empty(),
{
    lemma_swept_comes_clear(p.actor.bbox, level, p.acted(input).capped_velocity(), micros);
}

/// A jump that is asked for in the air adds no launch. A player in the air,
/// or in a jump, of whom a jump and no direction is asked, and who meets no
/// ground block on its way nor below where it arrives, moves by what its
/// velocity covers, with the fall speed held to its maximum, and loses to
/// gravity alone: its state and its animation stay.
pub proof fn lemma_fall_in_jump(p: PlayerView, input: Intent, micros: nat, level: LevelView)
    requires
        !p.grounded || p.state == PlayerState::Jumping,
        input.jump,
        input.move_x() is None,
        clear_of(shifted(p.actor.bbox, travel(p.capped_velocity().x, micros), true), level),
        clear_of(
            shifted(
                shifted(p.actor.bbox, travel(p.capped_velocity().x, micros), true),
                travel(p.capped_velocity().y, micros),
                false,
            ),
            level,
        ),
        clear_of(
            ground_probe(
                shifted(
                    shifted(p.actor.bbox, travel(p.capped_velocity().x, micros), true),
                    travel(p.capped_velocity().y, micros),
                    false,
                ),
            ),
            level,
        ),
    ensures
        p.stepped(input, micros, level).actor.bbox == (Aabb {
            x: p.actor.bbox.x + travel(p.capped_velocity().x, micros),
            y: p.actor.bbox.y + travel(p.capped_velocity().y, micros),
            ..p.actor.bbox
        }),
        p.stepped(input, micros, level).velocity == (Vector {
            x: p.velocity.x,
            y: p.capped_velocity().y - travel(p.config.gravity as int, micros),
        }),
        p.stepped(input, micros, level).state == p.state,
        p.stepped(input, micros, level).animation == p.animation,
        !p.stepped(input, micros, level).grounded,
{
    let v = p.capped_velocity();
    let b1 = shifted(p.actor.bbox, travel(v.x, micros), true);
    let b2 = shifted(b1, travel(v.y, micros), false);
    lemma_nothing_hit(level, b1);
    lemma_nothing_hit(level, b2);
    lemma_nothing_hit(level, ground_probe(b2));
    assert(p.acted(input) == p);
    assert(slid(p.actor.bbox, level, v, travel(v.x, micros), true) == b1);
    assert(slid(b1, level, v, travel(v.y, micros), false) == b2);
}

} // verus!
