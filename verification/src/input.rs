//! The keys that steer the paddles.

use vstd::prelude::*;

verus! {

/// A key that the game reads. `W` and `S` move paddle 1 up and down, `Up` and
/// `Down` move paddle 2.
#[derive(Clone, Copy, Debug, PartialEq, Eq, Hash)]
pub enum Key {
    W,
    S,
    Up,
    Down,
}

impl Key {
    /// The player whose paddle the key moves: 1 or 2.
    pub open spec fn owner(self) -> int {
        match self {
            Key::W | Key::S => 1,
            Key::Up | Key::Down => 2,
        }
    }

    /// The player whose paddle the key moves: 1 or 2.
    pub fn player(&self) -> (player: usize)
        ensures
            player == self.owner(),
    {
        match self {
            Key::W | Key::S => 1,
            Key::Up | Key::Down => 2,
        }
    }
}

/// The set of keys that are held down.
#[derive(Clone, Copy, Debug, PartialEq, Eq)]
pub struct PressedKeys {
    pub w: bool,
    pub s: bool,
    pub up: bool,
    pub down: bool,
}

impl View for PressedKeys {
    type V = Set<Key>;

    open spec fn view(&self) -> Set<Key> {
        Set::new(
            |key: Key|
                match key {
                    Key::W => self.w,
                    Key::S => self.s,
                    Key::Up => self.up,
                    Key::Down => self.down,
                },
        )
    }
}

impl PressedKeys {
    /// No key is held.
    pub fn new() -> (keys: Self)
        ensures
            keys@ == Set::<Key>::empty(),
    {
        let keys = PressedKeys { w: false, s: false, up: false, down: false };
        assert(keys@ =~= Set::<Key>::empty());
        keys
    }

    /// Whether `key` is held.
    pub fn contains(&self, key: Key) -> (held: bool)
        ensures
            held == self@.contains(key),
    {
        match key {
            Key::W => self.w,
            Key::S => self.s,
            Key::Up => self.up,
            Key::Down => self.down,
        }
    }

    /// Notes that `key` is held from now on.
    pub fn insert(&mut self, key: Key)
        ensures
            final(self)@ == old(self)@.insert(key),
    {
        match key {
            Key::W => {
                self.w = true;
            },
            Key::S => {
                self.s = true;
            },
            Key::Up => {
                self.up = true;
            },
            Key::Down => {
                self.down = true;
            },
        }
        assert(self@ =~= old(self)@.insert(key));
    }

    /// Notes that `key` is no longer held.
    pub fn remove(&mut self, key: Key)
        ensures
            final(self)@ == old(self)@.remove(key),
    {
        match key {
            Key::W => {
                self.w = false;
            },
            Key::S => {
                self.s = false;
            },
            Key::Up => {
                self.up = false;
            },
            Key::Down => {
                self.down = false;
            },
        }
        assert(self@ =~= old(self)@.remove(key));
    }
}

} // verus!
