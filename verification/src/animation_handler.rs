use vstd::prelude::*;
use vstd::arithmetic::div_mod::{
    lemma_div_pos_is_pos,
    lemma_fundamental_div_mod,
    lemma_fundamental_div_mod_converse,
    lemma_mod_bound,
};

verus! {

/// The sprite sheet that an animation plays.
#[derive(Debug, Clone, Copy, PartialEq, Eq, Structural)]
pub enum Tileset {
    Idle,
    Walking,
    Running,
    Jumping,
}

/// The largest count of frames gone by that an animation can hold.
pub const FRAME_LIMIT: u64 = 0xffff_ffff_ffff_ffff;

/// The mathematical value of an [`Animation`].
pub struct AnimationView {
    pub tileset: Tileset,
    pub frame_count: nat,
    /// Time for which one frame is shown, in microseconds.
    pub frame_duration: nat,
    /// Frames gone by since the animation was started.
    pub current_frame: nat,
    /// Time for which the current frame has been shown, in microseconds.
    pub elapsed_time: nat,
    pub loop_animation: bool,
}

impl AnimationView {
    /// There is at least one frame, a frame lasts for some time, and the
    /// current frame has been shown for less than that.
    pub open spec fn wf(self) -> bool {
        &&& self.frame_count >= 1
        &&& self.frame_duration >= 1
        &&& self.elapsed_time < self.frame_duration
    }

    /// The frame that is shown once `index` frames have gone by: a looping
    /// animation starts over after its last frame, any other stays on it.
    pub open spec fn settle(self, index: nat) -> nat {
        if self.loop_animation {
            index % self.frame_count
        } else if index < self.frame_count {
            index
        } else {
            (self.frame_count - 1) as nat
        }
    }

    /// The frame to draw.
    pub open spec fn shown_frame(self) -> nat {
        self.settle(self.current_frame)
    }

    /// The animation at its first frame, with no time gone by.
    pub open spec fn fresh(
        tileset: Tileset,
        frame_count: nat,
        frame_duration: nat,
        loop_animation: bool,
    ) -> AnimationView {
        AnimationView {
            tileset,
            frame_count,
            frame_duration,
            current_frame: 0,
            elapsed_time: 0,
            loop_animation,
        }
    }

    /// The same animation, started over.
    pub open spec fn restarted(self) -> AnimationView {
        AnimationView { current_frame: 0, elapsed_time: 0, ..self }
    }

    /// The animation after `elapsed` more microseconds: one frame is added
    /// to the count for every full frame duration in the accumulated time,
    /// and what is left over of the time stays accumulated.
    pub open spec fn advance(self, elapsed: nat) -> AnimationView {
        AnimationView {
            current_frame: self.current_frame + (self.elapsed_time + elapsed)
                / self.frame_duration,
            elapsed_time: (self.elapsed_time + elapsed) % self.frame_duration,
            ..self
        }
    }

    /// The count of frames has room for those that go by in `elapsed` more
    /// microseconds.
    pub open spec fn has_room(self, elapsed: nat) -> bool {
        self.current_frame + (self.elapsed_time + elapsed) / self.frame_duration <= FRAME_LIMIT
    }

    /// The same animation at the start of frame `frame`.
    pub open spec fn at_frame(self, frame: nat) -> AnimationView {
        AnimationView { current_frame: frame, elapsed_time: 0, ..self }
    }

    /// The idle animation of the player.
    pub open spec fn player_idle() -> AnimationView {
        AnimationView::fresh(Tileset::Idle, 8, 130_000, true)
    }

    /// The walking animation of the player.
    pub open spec fn player_walking() -> AnimationView {
        AnimationView::fresh(Tileset::Walking, 8, 50_000, true)
    }

    /// The running animation of the player.
    pub open spec fn player_running() -> AnimationView {
        AnimationView::fresh(Tileset::Running, 8, 50_000, true)
    }

    /// The jumping animation of the player, which stops at its last frame.
    pub open spec fn player_jumping() -> AnimationView {
        AnimationView::fresh(Tileset::Jumping, 8, 50_000, false)
    }
}

/// A clock that cycles through the frames of one sprite sheet.
#[derive(Debug, Clone, Copy)]
pub struct Animation {
    pub tileset_image: Tileset,
    frame_count: usize,
    frame_duration: u32,
    current_frame: u64,
    elapsed_time: u32,
    loop_animation: bool,
}

impl View for Animation {
    type V = AnimationView;

    closed spec fn view(&self) -> AnimationView {
        AnimationView {
            tileset: self.tileset_image,
            frame_count: self.frame_count as nat,
            frame_duration: self.frame_duration as nat,
            current_frame: self.current_frame as nat,
            elapsed_time: self.elapsed_time as nat,
            loop_animation: self.loop_animation,
        }
    }
}

impl Animation {
    /// See [`AnimationView::wf`].
    pub open spec fn wf(&self) -> bool {
        self@.wf()
    }

    /// An animation of `frame_count` frames, each shown for `frame_duration`
    /// microseconds, at its first frame. Without a frame, or with frames that
    /// last no time, there is no animation.
    pub fn new(
        tileset_image: Tileset,
        frame_count: usize,
        frame_duration: u32,
        loop_animation: bool,
    ) -> (animation: Option<Animation>)
        ensures
            animation is Some <==> frame_count >= 1 && frame_duration >= 1,
            animation is Some ==> animation.unwrap()@ == AnimationView::fresh(
                tileset_image,
                frame_count as nat,
                frame_duration as nat,
                loop_animation,
            ) && animation.unwrap().wf(),
    {
        if frame_count == 0 || frame_duration == 0 {
            return None;
        }
        Some(
            Animation {
                tileset_image,
                frame_count,
                frame_duration,
                current_frame: 0,
                elapsed_time: 0,
                loop_animation,
            },
        )
    }

    /// Whether the animation is well formed.
    pub fn is_valid(&self) -> (ok: bool)
        ensures
            ok == self.wf(),
    {
        self.frame_count >= 1 && self.frame_duration >= 1 && self.elapsed_time
            < self.frame_duration
    }

    pub fn player_idle() -> (animation: Animation)
        ensures
            animation@ == AnimationView::player_idle(),
            animation.wf(),
    {
        Animation {
            tileset_image: Tileset::Idle,
            frame_count: 8,
            frame_duration: 130_000,
            current_frame: 0,
            elapsed_time: 0,
            loop_animation: true,
        }
    }

    pub fn player_walking() -> (animation: Animation)
        ensures
            animation@ == AnimationView::player_walking(),
            animation.wf(),
    {
        Animation {
            tileset_image: Tileset::Walking,
            frame_count: 8,
            frame_duration: 50_000,
            current_frame: 0,
            elapsed_time: 0,
            loop_animation: true,
        }
    }

    pub fn player_running() -> (animation: Animation)
        ensures
            animation@ == AnimationView::player_running(),
            animation.wf(),
    {
        Animation {
            tileset_image: Tileset::Running,
            frame_count: 8,
            frame_duration: 50_000,
            current_frame: 0,
            elapsed_time: 0,
            loop_animation: true,
        }
    }

    pub fn player_jumping() -> (animation: Animation)
        ensures
            animation@ == AnimationView::player_jumping(),
            animation.wf(),
    {
        Animation {
            tileset_image: Tileset::Jumping,
            frame_count: 8,
            frame_duration: 50_000,
            current_frame: 0,
            elapsed_time: 0,
            loop_animation: false,
        }
    }

    /// The same animation at the start of frame `frame`.
    pub fn at_frame(self, frame: u64) -> (animation: Animation)
        ensures
            animation@ == self@.at_frame(frame as nat),
            self.wf() ==> animation.wf(),
    {
        Animation { current_frame: frame, elapsed_time: 0, ..self }
    }

    /// Whether the count of frames has room for those that go by in
    /// `elapsed` more microseconds.
    pub fn has_room(&self, elapsed: u32) -> (room: bool)
        requires
            self.wf(),
        ensures
            room == self@.has_room(elapsed as nat),
    {
        let total: u64 = self.elapsed_time as u64 + elapsed as u64;
        let steps: u64 = total / (self.frame_duration as u64);
        steps <= FRAME_LIMIT - self.current_frame
    }

    /// Advances the animation by `elapsed` microseconds: every full frame
    /// duration in the accumulated time adds one to the count of frames,
    /// so that a long step skips frames. The count must have room for them.
    pub fn update(&mut self, elapsed: u32)
        requires
            old(self).wf(),
            old(self)@.has_room(elapsed as nat),
        ensures
            final(self)@ == old(self)@.advance(elapsed as nat),
            final(self).wf(),
    {
        let total: u64 = self.elapsed_time as u64 + elapsed as u64;
        let duration: u64 = self.frame_duration as u64;
        proof {
            lemma_mod_bound(total as int, duration as int);
        }
        self.current_frame = self.current_frame + total / duration;
        self.elapsed_time = (total % duration) as u32;
    }

    /// The frame to draw, counted from 0: the count of frames gone by,
    /// wrapped round for a looping animation and held at the last frame for
    /// any other.
    pub fn get_current_frame(&self) -> (frame: usize)
        requires
            self.wf(),
        ensures
            frame == self@.shown_frame(),
            frame < self@.frame_count,
    {
        let count: u64 = self.frame_count as u64;
        proof {
            lemma_mod_bound(self.current_frame as int, count as int);
        }
        if self.loop_animation {
            (self.current_frame % count) as usize
        } else if self.current_frame < count {
            self.current_frame as usize
        } else {
            self.frame_count - 1
        }
    }
}

/// The frame shown is one of the animation's frames.
pub proof fn lemma_shown_frame_bound(a: AnimationView)
    requires
        a.wf(),
    ensures
        a.shown_frame() < a.frame_count,
{
    lemma_mod_bound(a.current_frame as int, a.frame_count as int);
}

/// An animation that has been advanced is well formed, and its parameters
/// are as they were.
pub proof fn lemma_advance_wf(a: AnimationView, elapsed: nat)
    requires
        a.wf(),
    ensures
        a.advance(elapsed).wf(),
        a.advance(elapsed).frame_count == a.frame_count,
        a.advance(elapsed).frame_duration == a.frame_duration,
        a.advance(elapsed).loop_animation == a.loop_animation,
        a.advance(elapsed).tileset == a.tileset,
        a.advance(elapsed).current_frame >= a.current_frame,
{
    let total = a.elapsed_time + elapsed;
    lemma_mod_bound(total as int, a.frame_duration as int);
    lemma_div_pos_is_pos(total as int, a.frame_duration as int);
}

/// No time is lost: the frames counted and the time still accumulated
/// after a step make up the time accumulated before it and the step.
pub proof fn lemma_advance_keeps_time(a: AnimationView, elapsed: nat)
    requires
        a.wf(),
    ensures
        a.advance(elapsed).current_frame * a.frame_duration + a.advance(elapsed).elapsed_time
            == a.current_frame * a.frame_duration + a.elapsed_time + elapsed,
{
    let d = a.frame_duration as int;
    let total = (a.elapsed_time + elapsed) as int;
    lemma_fundamental_div_mod(total, d);
    lemma_div_pos_is_pos(total, d);
    let q = total / d;
    assert((a.current_frame + q) * d == a.current_frame * d + d * q) by (nonlinear_arith);
}

/// The frame shown `elapsed` microseconds after an animation was started:
/// the number of whole frame durations gone by, wrapped round for a looping
/// animation and held at the last frame for any other.
pub proof fn lemma_frame_after_start(a: AnimationView, elapsed: nat)
    requires
        a.wf(),
    ensures
        a.restarted().advance(elapsed).shown_frame() == a.settle(elapsed / a.frame_duration),
{
}

/// Time adds up: two steps in a row count the same frames, and leave the
/// same time accumulated, as one step of their summed length.
pub proof fn lemma_advance_adds_up(a: AnimationView, first: nat, second: nat)
    requires
        a.wf(),
    ensures
        a.advance(first).advance(second) == a.advance(first + second),
{
    let d = a.frame_duration as int;
    let t1 = (a.elapsed_time + first) as int;
    let q1 = t1 / d;
    let r1 = t1 % d;
    let t2 = r1 + second;
    let q2 = t2 / d;
    let r2 = t2 % d;
    lemma_fundamental_div_mod(t1, d);
    lemma_fundamental_div_mod(t2, d);
    lemma_mod_bound(t1, d);
    lemma_mod_bound(t2, d);
    assert(0 <= q1) by {
        lemma_div_pos_is_pos(t1, d);
    }
    assert(0 <= q2) by {
        lemma_div_pos_is_pos(t2, d);
    }
    assert(t1 + second == d * (q1 + q2) + r2) by (nonlinear_arith)
        requires
            t1 == d * q1 + r1,
            r1 + second == d * q2 + r2,
    ;
    lemma_fundamental_div_mod_converse(t1 + second, d, q1 + q2, r2);
}

} // verus!
