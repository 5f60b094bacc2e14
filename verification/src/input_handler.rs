use std::collections::HashMap;
use vstd::prelude::*;
use vstd::std_specs::hash::group_hash_axioms;

use crate::primitives::Direction;

verus! {

/// A key of the keyboard, as far as the game tells keys apart. Every key
/// without a meaning in the game is `Other`.
#[derive(Debug, Clone, Copy, PartialEq, Eq, Structural)]
pub enum Key {
    Left,
    Right,
    Up,
    A,
    D,
    W,
    Q,
    Space,
    LShift,
    RShift,
    Escape,
    Other,
}

impl Key {
    /// The number under which a key is kept in the table of held keys.
    pub open spec fn index(self) -> u8 {
        match self {
            Key::Left => 0,
            Key::Right => 1,
            Key::Up => 2,
            Key::A => 3,
            Key::D => 4,
            Key::W => 5,
            Key::Q => 6,
            Key::Space => 7,
            Key::LShift => 8,
            Key::RShift => 9,
            Key::Escape => 10,
            Key::Other => 11,
        }
    }

    fn code(self) -> (c: u8)
        ensures
            c == self.index(),
    {
        match self {
            Key::Left => 0,
            Key::Right => 1,
            Key::Up => 2,
            Key::A => 3,
            Key::D => 4,
            Key::W => 5,
            Key::Q => 6,
            Key::Space => 7,
            Key::LShift => 8,
            Key::RShift => 9,
            Key::Escape => 10,
            Key::Other => 11,
        }
    }
}

/// What the player asks for: the mathematical value of an [`InputState`].
pub struct Intent {
    pub left: bool,
    pub right: bool,
    pub jump: bool,
    pub request_quit: bool,
    pub running: bool,
}

impl Intent {
    /// The direction to move in: none when both or neither of left and right
    /// are asked for.
    pub open spec fn move_x(self) -> Option<Direction> {
        if !self.left && self.right {
            Some(Direction::Right)
        } else if self.left && !self.right {
            Some(Direction::Left)
        } else {
            None
        }
    }

    /// Nothing is asked for.
    pub open spec fn nothing() -> Intent {
        Intent { left: false, right: false, jump: false, request_quit: false, running: false }
    }

    /// What a set of held keys asks for.
    pub open spec fn of_keys(held: Set<Key>) -> Intent {
        Intent {
            left: held.contains(Key::Left) || held.contains(Key::A),
            right: held.contains(Key::Right) || held.contains(Key::D),
            jump: held.contains(Key::Space) || held.contains(Key::Up) || held.contains(Key::W),
            request_quit: held.contains(Key::Escape) || held.contains(Key::Q),
            running: held.contains(Key::LShift) || held.contains(Key::RShift),
        }
    }
}

/// The table of the keys that are held down.
#[derive(Debug)]
pub struct RawKeys {
    table: HashMap<u8, bool>,
}

impl View for RawKeys {
    type V = Set<Key>;

    closed spec fn view(&self) -> Set<Key> {
        Set::new(|k: Key| self.table@.contains_key(k.index()))
    }
}

impl RawKeys {
    /// The table with no key held.
    pub fn new() -> (keys: RawKeys)
        ensures
            keys@ == Set::<Key>::empty(),
    {
        let keys = RawKeys { table: HashMap::new() };
        assert(keys@ =~= Set::<Key>::empty());
        keys
    }

    /// Marks `key` as held.
    pub fn press(&mut self, key: Key)
        ensures
            final(self)@ == old(self)@.insert(key),
    {
        broadcast use group_hash_axioms;

        self.table.insert(key.code(), true);
        assert(self@ =~= old(self)@.insert(key));
    }

    /// Marks `key` as no longer held.
    pub fn release(&mut self, key: Key)
        ensures
            final(self)@ == old(self)@.remove(key),
    {
        broadcast use group_hash_axioms;

        let code = key.code();
        self.table.remove(&code);
        assert(self@ =~= old(self)@.remove(key));
    }

    /// Whether `key` is held.
    pub fn contains_key(&self, key: Key) -> (held: bool)
        ensures
            held == self@.contains(key),
    {
        broadcast use group_hash_axioms;

        let code = key.code();
        self.table.contains_key(&code)
    }
}

/// The keys that are held down and what they ask for.
#[derive(Debug)]
pub struct InputState {
    pub left: bool,
    pub right: bool,
    pub jump: bool,
    pub request_quit: bool,
    pub running: bool,
    pub raw_keys: RawKeys,
}

impl View for InputState {
    type V = Intent;

    open spec fn view(&self) -> Intent {
        Intent {
            left: self.left,
            right: self.right,
            jump: self.jump,
            request_quit: self.request_quit,
            running: self.running,
        }
    }
}

impl Default for InputState {
    /// No key is held and nothing is asked for.
    fn default() -> (state: InputState)
        ensures
            state.raw_keys@ == Set::<Key>::empty(),
            state@ == Intent::of_keys(Set::<Key>::empty()),
    {
        InputState {
            left: false,
            right: false,
            jump: false,
            request_quit: false,
            running: false,
            raw_keys: RawKeys::new(),
        }
    }
}

impl InputState {
    /// What is asked for is what the held keys ask for.
    pub open spec fn wf(&self) -> bool {
        self@ == Intent::of_keys(self.raw_keys@)
    }

    /// The direction that the held keys ask to move in.
    pub fn move_x(&self) -> (dir: Option<Direction>)
        ensures
            dir == self@.move_x(),
    {
        match (self.left, self.right) {
            (false, true) => Some(Direction::Right),
            (true, false) => Some(Direction::Left),
            _ => None,
        }
    }

    /// Records that `key` went down. An event without a key changes nothing.
    pub fn handle_key_down(&mut self, key: Option<Key>)
        ensures
            match key {
                Some(k) => final(self).raw_keys@ == old(self).raw_keys@.insert(k) 
                    && final(self).wf(),
                None => final(self).raw_keys@ == old(self).raw_keys@ && final(self)@ == old(self)@,
            },
    {
        if let Some(k) = key {
            self.raw_keys.press(k);
            self.update_state();
        }
    }

    /// Records that `key` went up. An event without a key changes nothing.
    pub fn handle_key_up(&mut self, key: Option<Key>)
        ensures
            match key {
                Some(k) => final(self).raw_keys@ == old(self).raw_keys@.remove(k) 
                    && final(self).wf(),
                None => final(self).raw_keys@ == old(self).raw_keys@ && final(self)@ == old(self)@,
            },
    {
        if let Some(k) = key {
            self.raw_keys.release(k);
            self.update_state();
        }
    }

    /// Works out what the held keys ask for.
    fn update_state(&mut self)
        ensures
            final(self).raw_keys@ == old(self).raw_keys@,
            final(self).wf(),
    {
        let keys = &self.raw_keys;
        let left = keys.contains_key(Key::Left) || keys.contains_key(Key::A);
        let right = keys.contains_key(Key::Right) || keys.contains_key(Key::D);
        let jump = keys.contains_key(Key::Space) || keys.contains_key(Key::Up)
            || keys.contains_key(Key::W);
        let running = keys.contains_key(Key::LShift) || keys.contains_key(Key::RShift);
        let request_quit = keys.contains_key(Key::Escape) || keys.contains_key(Key::Q);
        self.left = left;
        self.right = right;
        self.jump = jump;
        self.running = running;
        self.request_quit = request_quit;
    }
}

} // verus!
