//! Keys of a QWERTY keyboard as keys of the keypad.

use vstd::prelude::*;
use crate::error::Chip8Error;
use crate::input::{InputEvent, InputKind};
use crate::keypad::Key;

verus! {

/// The key of the keypad that a key of a QWERTY keyboard stands for, by the
/// upper-case character of the keyboard key.
pub open spec fn spec_keymap(c: char) -> Option<Key> {
    if c == '1' {
        Some(Key::Key1)
    } else if c == '2' {
        Some(Key::Key2)
    } else if c == '3' {
        Some(Key::Key3)
    } else if c == '4' {
        Some(Key::KeyC)
    } else if c == 'Q' {
        Some(Key::Key4)
    } else if c == 'W' {
        Some(Key::Key5)
    } else if c == 'E' {
        Some(Key::Key6)
    } else if c == 'R' {
        Some(Key::KeyD)
    } else if c == 'A' {
        Some(Key::Key7)
    } else if c == 'S' {
        Some(Key::Key8)
    } else if c == 'D' {
        Some(Key::Key9)
    } else if c == 'F' {
        Some(Key::KeyA)
    } else if c == 'Z' {
        Some(Key::KeyA)
    } else if c == 'X' {
        Some(Key::Key0)
    } else if c == 'C' {
        Some(Key::KeyB)
    } else if c == 'V' {
        Some(Key::KeyF)
    } else {
        None
    }
}

pub fn keymap(c: char) -> (key: Option<Key>)
    ensures
        key == spec_keymap(c),
{
    match c {
        '1' => Some(Key::Key1),
        '2' => Some(Key::Key2),
        '3' => Some(Key::Key3),
        '4' => Some(Key::KeyC),
        'Q' => Some(Key::Key4),
        'W' => Some(Key::Key5),
        'E' => Some(Key::Key6),
        'R' => Some(Key::KeyD),
        'A' => Some(Key::Key7),
        'S' => Some(Key::Key8),
        'D' => Some(Key::Key9),
        'F' => Some(Key::KeyA),
        'Z' => Some(Key::KeyA),
        'X' => Some(Key::Key0),
        'C' => Some(Key::KeyB),
        'V' => Some(Key::KeyF),
        _ => None,
    }
}

/// What a key of the keyboard is, as far as the machine cares.
#[derive(Debug, Clone, Copy, PartialEq, Eq, Structural)]
pub enum StrokeCode {
    /// A key that types the given character.
    Char(char),
    /// The escape key.
    Esc,
    /// Any other key.
    Other,
}

/// A key of the keyboard going down, coming up or repeating, as a terminal
/// reports it.
#[derive(Debug, Clone, Copy, PartialEq, Eq, Structural)]
pub struct KeyStroke {
    pub code: StrokeCode,
    /// The control key, and no other modifier, was held.
    pub control: bool,
    /// `None` for a key that repeats while held down.
    pub kind: Option<InputKind>,
}

/// The upper-case form of an ASCII letter; any other character as it is.
pub open spec fn ascii_upper(c: char) -> char {
    if 'a' <= c <= 'z' {
        ((c as u32) - 32) as char
    } else {
        c
    }
}

/// Turns the letters `a` to `z` into `A` to `Z` and leaves every other
/// character as it is.
pub fn to_ascii_upper(c: char) -> (upper: char)
    ensures
        upper == ascii_upper(c),
{
    if 'a' <= c && c <= 'z' {
        ((c as u8) - 32) as char
    } else {
        c
    }
}

impl KeyStroke {
    /// Whether the stroke asks for the run to end: control with `c`, or escape.
    pub open spec fn spec_interrupts(self) -> bool {
        (self.control && self.code == StrokeCode::Char('c')) || self.code == StrokeCode::Esc
    }

    /// The keypad event that the stroke stands for: the key that `keymap`
    /// gives for its character, in either case, going the way the stroke
    /// goes. A repeat, and a key that the keypad has no place for, stand for none.
    pub open spec fn spec_event(self) -> Option<InputEvent> {
        match (self.code, self.kind) {
            (StrokeCode::Char(c), Some(kind)) => match spec_keymap(ascii_upper(c)) {
                Some(key) => Some(InputEvent { key, kind }),
                None => None,
            },
            _ => None,
        }
    }

    pub fn interrupts(self) -> (stop: bool)
        ensures
            stop == self.spec_interrupts(),
    {
        match self.code {
            StrokeCode::Char(c) => self.control && c == 'c',
            StrokeCode::Esc => true,
            StrokeCode::Other => false,
        }
    }

    /// What the input driver reports for the stroke: `Interrupt` where the
    /// stroke asks for the end of the run, else the keypad event that it
    /// stands for, if any.
    pub fn interpret(self) -> (res: Result<Option<InputEvent>, Chip8Error>)
        ensures
            res == if self.spec_interrupts() {
                Err::<Option<InputEvent>, Chip8Error>(Chip8Error::Interrupt)
            } else {
                Ok(self.spec_event())
            },
    {
        if self.interrupts() {
            return Err(Chip8Error::Interrupt);
        }
        match (self.code, self.kind) {
            (StrokeCode::Char(c), Some(kind)) => match keymap(to_ascii_upper(c)) {
                Some(key) => Ok(Some(InputEvent { key, kind })),
                None => Ok(None),
            },
            _ => Ok(None),
        }
    }
}

} // verus!
