use vstd::prelude::*;
use vstd::string::*;

verus! {

// ╔═══╦═══╦═══╦═══╗
// ║ 1 ║ 2 ║ 3 ║ C ║
// ╠═══╬═══╬═══╬═══╣
// ║ 4 ║ 5 ║ 6 ║ D ║
// ╠═══╬═══╬═══╬═══╣
// ║ 7 ║ 8 ║ 9 ║ E ║
// ╠═══╬═══╬═══╬═══╣
// ║ A ║ 0 ║ B ║ F ║
// ╚═══╩═══╩═══╩═══╝
/// One of the sixteen keys of the hexadecimal keypad.
#[derive(Debug, Clone, Copy, PartialEq, Eq, Structural)]
pub enum Key {
    Key0,
    Key1,
    Key2,
    Key3,
    Key4,
    Key5,
    Key6,
    Key7,
    Key8,
    Key9,
    KeyA,
    KeyB,
    KeyC,
    KeyD,
    KeyE,
    KeyF,
}

impl Key {
    /// The hexadecimal digit printed on the key, which is also its place in the keypad array.
    pub open spec fn spec_index(self) -> u8 {
        match self {
            Key::Key0 => 0x0,
            Key::Key1 => 0x1,
            Key::Key2 => 0x2,
            Key::Key3 => 0x3,
            Key::Key4 => 0x4,
            Key::Key5 => 0x5,
            Key::Key6 => 0x6,
            Key::Key7 => 0x7,
            Key::Key8 => 0x8,
            Key::Key9 => 0x9,
            Key::KeyA => 0xA,
            Key::KeyB => 0xB,
            Key::KeyC => 0xC,
            Key::KeyD => 0xD,
            Key::KeyE => 0xE,
            Key::KeyF => 0xF,
        }
    }

    /// The character that names the key: its digit in upper-case hexadecimal.
    pub open spec fn spec_to_char(self) -> char {
        match self {
            Key::Key0 => '0',
            Key::Key1 => '1',
            Key::Key2 => '2',
            Key::Key3 => '3',
            Key::Key4 => '4',
            Key::Key5 => '5',
            Key::Key6 => '6',
            Key::Key7 => '7',
            Key::Key8 => '8',
            Key::Key9 => '9',
            Key::KeyA => 'A',
            Key::KeyB => 'B',
            Key::KeyC => 'C',
            Key::KeyD => 'D',
            Key::KeyE => 'E',
            Key::KeyF => 'F',
        }
    }

    pub fn index(self) -> (i: u8)
        ensures
            i == self.spec_index(),
            i < 16,
    {
        match self {
            Key::Key0 => 0x0,
            Key::Key1 => 0x1,
            Key::Key2 => 0x2,
            Key::Key3 => 0x3,
            Key::Key4 => 0x4,
            Key::Key5 => 0x5,
            Key::Key6 => 0x6,
            Key::Key7 => 0x7,
            Key::Key8 => 0x8,
            Key::Key9 => 0x9,
            Key::KeyA => 0xA,
            Key::KeyB => 0xB,
            Key::KeyC => 0xC,
            Key::KeyD => 0xD,
            Key::KeyE => 0xE,
            Key::KeyF => 0xF,
        }
    }

    pub fn from_index(index: u8) -> (key: Option<Key>)
        ensures
            key is Some <==> index < 16,
            key matches Some(k) ==> k.spec_index() == index,
    {
        match index {
            0x0 => Some(Key::Key0),
            0x1 => Some(Key::Key1),
            0x2 => Some(Key::Key2),
            0x3 => Some(Key::Key3),
            0x4 => Some(Key::Key4),
            0x5 => Some(Key::Key5),
            0x6 => Some(Key::Key6),
            0x7 => Some(Key::Key7),
            0x8 => Some(Key::Key8),
            0x9 => Some(Key::Key9),
            0xA => Some(Key::KeyA),
            0xB => Some(Key::KeyB),
            0xC => Some(Key::KeyC),
            0xD => Some(Key::KeyD),
            0xE => Some(Key::KeyE),
            0xF => Some(Key::KeyF),
            _ => None,
        }
    }

    pub fn to_char(self) -> (c: char)
        ensures
            c == self.spec_to_char(),
    {
        match self {
            Key::Key0 => '0',
            Key::Key1 => '1',
            Key::Key2 => '2',
            Key::Key3 => '3',
            Key::Key4 => '4',
            Key::Key5 => '5',
            Key::Key6 => '6',
            Key::Key7 => '7',
            Key::Key8 => '8',
            Key::Key9 => '9',
            Key::KeyA => 'A',
            Key::KeyB => 'B',
            Key::KeyC => 'C',
            Key::KeyD => 'D',
            Key::KeyE => 'E',
            Key::KeyF => 'F',
        }
    }

    /// The name of the key as text: the one character of `to_char`.
    pub fn to_str(self) -> (name: &'static str)
        ensures
            name@ == seq![self.spec_to_char()],
    {
        proof {
            reveal_strlit("0");
            reveal_strlit("1");
            reveal_strlit("2");
            reveal_strlit("3");
            reveal_strlit("4");
            reveal_strlit("5");
            reveal_strlit("6");
            reveal_strlit("7");
            reveal_strlit("8");
            reveal_strlit("9");
            reveal_strlit("A");
            reveal_strlit("B");
            reveal_strlit("C");
            reveal_strlit("D");
            reveal_strlit("E");
            reveal_strlit("F");
        }
        let name = match self {
            Key::Key0 => "0",
            Key::Key1 => "1",
            Key::Key2 => "2",
            Key::Key3 => "3",
            Key::Key4 => "4",
            Key::Key5 => "5",
            Key::Key6 => "6",
            Key::Key7 => "7",
            Key::Key8 => "8",
            Key::Key9 => "9",
            Key::KeyA => "A",
            Key::KeyB => "B",
            Key::KeyC => "C",
            Key::KeyD => "D",
            Key::KeyE => "E",
            Key::KeyF => "F",
        };
        assert(name@ =~= seq![self.spec_to_char()]);
        name
    }

    /// The key that a character names: the inverse of `spec_to_char`.
    pub open spec fn spec_from_char(c: char) -> Option<Key> {
        if c == '0' {
            Some(Key::Key0)
        } else if c == '1' {
            Some(Key::Key1)
        } else if c == '2' {
            Some(Key::Key2)
        } else if c == '3' {
            Some(Key::Key3)
        } else if c == '4' {
            Some(Key::Key4)
        } else if c == '5' {
            Some(Key::Key5)
        } else if c == '6' {
            Some(Key::Key6)
        } else if c == '7' {
            Some(Key::Key7)
        } else if c == '8' {
            Some(Key::Key8)
        } else if c == '9' {
            Some(Key::Key9)
        } else if c == 'A' {
            Some(Key::KeyA)
        } else if c == 'B' {
            Some(Key::KeyB)
        } else if c == 'C' {
            Some(Key::KeyC)
        } else if c == 'D' {
            Some(Key::KeyD)
        } else if c == 'E' {
            Some(Key::KeyE)
        } else if c == 'F' {
            Some(Key::KeyF)
        } else {
            None
        }
    }

    /// Reads a key back from its name: exactly the sixteen characters that
    /// `to_char` produces are accepted.
    pub fn from_char(c: char) -> (key: Option<Key>)
        ensures
            key == Key::spec_from_char(c),
            key matches Some(k) ==> k.spec_to_char() == c,
            key is None ==> forall|k: Key| k.spec_to_char() != c,
    {
        match c {
            '0' => Some(Key::Key0),
            '1' => Some(Key::Key1),
            '2' => Some(Key::Key2),
            '3' => Some(Key::Key3),
            '4' => Some(Key::Key4),
            '5' => Some(Key::Key5),
            '6' => Some(Key::Key6),
            '7' => Some(Key::Key7),
            '8' => Some(Key::Key8),
            '9' => Some(Key::Key9),
            'A' => Some(Key::KeyA),
            'B' => Some(Key::KeyB),
            'C' => Some(Key::KeyC),
            'D' => Some(Key::KeyD),
            'E' => Some(Key::KeyE),
            'F' => Some(Key::KeyF),
            _ => None,
        }
    }
}

} // verus!
