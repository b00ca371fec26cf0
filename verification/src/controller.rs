//! Keyboard intent: which key was pressed, and the latch that remembers the
//! most recent intent between ticks.

use vstd::prelude::*;

verus! {

/// What the player wants: one of the four directions, or to leave the game.
#[derive(Copy, Clone, Debug, PartialEq, Eq, Hash, Structural)]
pub enum Key {
    Up,
    Down,
    Left,
    Right,
    Quit,
}

/// A key as the keyboard reports it, before it is given a meaning.
#[derive(Copy, Clone, Debug, PartialEq, Eq, Structural)]
pub enum KeyPress {
    Up,
    Down,
    Left,
    Right,
    Char(char),
    /// Any key the game has no use for.
    Other,
}

/// The intent that a key press stands for, if it stands for one: the arrow
/// keys and `w`, `a`, `s`, `d` steer, `q` quits.
pub open spec fn intent_of(press: KeyPress) -> Option<Key> {
    match press {
        KeyPress::Up => Some(Key::Up),
        KeyPress::Down => Some(Key::Down),
        KeyPress::Left => Some(Key::Left),
        KeyPress::Right => Some(Key::Right),
        KeyPress::Char(c) => if c == 'w' {
            Some(Key::Up)
        } else if c == 'a' {
            Some(Key::Left)
        } else if c == 's' {
            Some(Key::Down)
        } else if c == 'd' {
            Some(Key::Right)
        } else if c == 'q' {
            Some(Key::Quit)
        } else {
            None
        },
        KeyPress::Other => None,
    }
}

/// The intent held after one poll: a key press with a meaning replaces the
/// held intent, anything else leaves it as it was.
pub open spec fn latch(held: Key, event: Option<KeyPress>) -> Key {
    match event {
        Some(press) => match intent_of(press) {
            Some(key) => key,
            None => held,
        },
        None => held,
    }
}

impl KeyPress {
    /// The intent this key press stands for, if any.
    pub fn intent(self) -> (key: Option<Key>)
        ensures
            key == intent_of(self),
    {
        match self {
            KeyPress::Up => Some(Key::Up),
            KeyPress::Down => Some(Key::Down),
            KeyPress::Left => Some(Key::Left),
            KeyPress::Right => Some(Key::Right),
            KeyPress::Char(c) => if c == 'w' {
                Some(Key::Up)
            } else if c == 'a' {
                Some(Key::Left)
            } else if c == 's' {
                Some(Key::Down)
            } else if c == 'd' {
                Some(Key::Right)
            } else if c == 'q' {
                Some(Key::Quit)
            } else {
                None
            },
            KeyPress::Other => None,
        }
    }
}

/// Remembers the most recent intent, so that the actor keeps its course on
/// ticks where no key arrives.
pub struct InputController {
    current: Key,
}

impl View for InputController {
    type V = Key;

    /// The intent currently held.
    closed spec fn view(&self) -> Key {
        self.current
    }
}

impl InputController {
    /// A controller that holds `Right`, the direction the actor starts in.
    pub fn new() -> (controller: Self)
        ensures
            controller@ == Key::Right,
    {
        Self { current: Key::Right }
    }

    /// Takes in what one non-blocking look at the keyboard found: `None` when
    /// no key was waiting. The held intent changes only when the key has a
    /// meaning.
    pub fn poll(&mut self, event: Option<KeyPress>)
        ensures
            final(self)@ == latch(old(self)@, event),
    {
        if let Some(press) = event {
            if let Some(key) = press.intent() {
                self.current = key;
            }
        }
    }

    /// The intent currently held.
    pub fn direction(&self) -> (key: Key)
        ensures
            key == self@,
    {
        self.current
    }

    /// Whether the held intent is to leave the game.
    pub fn should_exit(&self) -> (exit: bool)
        ensures
            exit == (self@ == Key::Quit),
    {
        self.current == Key::Quit
    }
}

} // verus!
