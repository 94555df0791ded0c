//! What the keys of whoever watches the world do to it.
use vstd::prelude::*;

verus! {

/// The fewest ticks per drawn frame.
pub const MIN_STEPS: usize = 1;

/// The most ticks per drawn frame.
pub const MAX_STEPS: usize = 100;

/// The ticks per drawn frame that a watcher starts with.
pub const START_STEPS: usize = 10;

/// A key that means something to the world.
#[derive(Clone, Copy, Debug, PartialEq, Eq, Structural)]
pub enum Key {
    /// Leave.
    Quit,
    /// Seed the world anew.
    Reseed,
    /// Halt the world, or let it run again.
    Pause,
    /// One tick per frame less.
    Slower,
    /// One tick per frame more.
    Faster,
    /// One particle more.
    Add,
    /// One particle less.
    Remove,
}

/// What is to be done to the world after a key.
#[derive(Clone, Copy, Debug, PartialEq, Eq, Structural)]
pub enum Action {
    Quit,
    Reseed,
    AddParticle,
    DelParticle,
    Nothing,
}

/// How the world is being watched.
#[derive(Clone, Copy, Debug, PartialEq, Eq, Structural)]
pub struct Controls {
    /// Whether the world stands still.
    pub paused: bool,
    /// How many ticks pass per drawn frame while it does not.
    pub steps: usize,
}

impl Controls {
    /// The controls after `key`: pausing toggles, and the ticks per frame
    /// move by one between [`MIN_STEPS`] and [`MAX_STEPS`].
    pub open spec fn after(self, key: Key) -> Controls {
        match key {
            Key::Pause => Controls { paused: !self.paused, steps: self.steps },
            Key::Slower => Controls {
                paused: self.paused,
                steps: if self.steps <= MIN_STEPS + 1 {
                    MIN_STEPS
                } else {
                    (self.steps - 1) as usize
                },
            },
            Key::Faster => Controls {
                paused: self.paused,
                steps: if self.steps >= MAX_STEPS {
                    MAX_STEPS
                } else {
                    (self.steps + 1) as usize
                },
            },
            _ => self,
        }
    }

    /// What `key` asks to be done to the world.
    pub open spec fn asks(key: Key) -> Action {
        match key {
            Key::Quit => Action::Quit,
            Key::Reseed => Action::Reseed,
            Key::Add => Action::AddParticle,
            Key::Remove => Action::DelParticle,
            _ => Action::Nothing,
        }
    }

    /// How many ticks the next frame takes.
    pub open spec fn spec_ticks(self) -> usize {
        if self.paused {
            0
        } else {
            self.steps
        }
    }

    /// A running world at [`START_STEPS`] ticks per frame.
    pub fn new() -> (controls: Controls)
        ensures
            controls == (Controls { paused: false, steps: START_STEPS }),
    {
        Controls { paused: false, steps: START_STEPS }
    }

    /// Takes a key: changes the controls and tells what to do to the world.
    pub fn press(&mut self, key: Key) -> (action: Action)
        ensures
            *final(self) == old(self).after(key),
            action == Controls::asks(key),
            MIN_STEPS <= old(self).steps <= MAX_STEPS ==> MIN_STEPS <= final(self).steps
                <= MAX_STEPS,
    {
        match key {
            Key::Quit => Action::Quit,
            Key::Reseed => Action::Reseed,
            Key::Pause => {
                self.paused = !self.paused;
                Action::Nothing
            },
            Key::Slower => {
                self.steps = if self.steps <= MIN_STEPS + 1 {
                    MIN_STEPS
                } else {
                    self.steps - 1
                };
                Action::Nothing
            },
            Key::Faster => {
                self.steps = if self.steps >= MAX_STEPS {
                    MAX_STEPS
                } else {
                    self.steps + 1
                };
                Action::Nothing
            },
            Key::Add => Action::AddParticle,
            Key::Remove => Action::DelParticle,
        }
    }

    /// How many ticks the next frame takes: none while the world is paused.
    pub fn ticks(&self) -> (count: usize)
        ensures
            count == self.spec_ticks(),
    {
        if self.paused {
            0
        } else {
            self.steps
        }
    }
}

} // verus!
