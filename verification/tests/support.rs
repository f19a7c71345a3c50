use chip8_core::constants::{FONTSET, PROGRAM_START_ADDRESS};
use chip8_core::error::Chip8Error;
use chip8_core::input::{InputEvent, InputKind};
use chip8_core::keyboard::{keymap, to_ascii_upper, KeyStroke, StrokeCode};
use chip8_core::keypad::Key;
use chip8_core::text::{to_decimal, to_hex4};

#[test]
fn error_messages() {
    assert_eq!(Chip8Error::RomTooBig(4096).message(), "ROM size too big: 4096bytes");
    assert_eq!(
        Chip8Error::MemoryAccessOutOfBounds(0x1000).message(),
        "Memory access out of bounds: 0x1000"
    );
    assert_eq!(
        Chip8Error::MemoryAccessOutOfBounds(0xFFFF).message(),
        "Memory access out of bounds: 0xFFFF"
    );
    assert_eq!(Chip8Error::UnimplementedOpcode(0x00AB).message(), "Unimplemented opcode: 0x00AB");
    assert_eq!(Chip8Error::StackFault.message(), "Stack fault");
    assert_eq!(Chip8Error::DisplayError("no tty".to_string()).message(), "Display Error: no tty");
    assert_eq!(Chip8Error::InputError("eof".to_string()).message(), "Input Error: eof");
    assert_eq!(Chip8Error::AudioError("muted".to_string()).message(), "Audio Error: muted");
    assert_eq!(
        Chip8Error::AsyncAwaitError("panicked".to_string()).message(),
        "Async/Await Error: panicked"
    );
    assert_eq!(
        Chip8Error::MutexReadError("poisoned".to_string()).message(),
        "Mutex read error: poisoned"
    );
    assert_eq!(
        Chip8Error::MutexWriteError("poisoned".to_string()).message(),
        "Mutex write error: poisoned"
    );
    assert_eq!(Chip8Error::Interrupt.message(), "Interrupted");
    assert_eq!(Chip8Error::InputError(String::new()).message(), "Input Error: ");
}

#[test]
fn decimal_text() {
    assert_eq!(to_decimal(0), "0");
    assert_eq!(to_decimal(7), "7");
    assert_eq!(to_decimal(10), "10");
    assert_eq!(to_decimal(4096), "4096");
    assert_eq!(to_decimal(1_000_000), "1000000");
    assert_eq!(to_decimal(u64::MAX), "18446744073709551615");
    for n in 0..2000u64 {
        assert_eq!(to_decimal(n), format!("{}", n));
    }
}

#[test]
fn hexadecimal_text() {
    assert_eq!(to_hex4(0), "0000");
    assert_eq!(to_hex4(0x000F), "000F");
    assert_eq!(to_hex4(0x1A2B), "1A2B");
    assert_eq!(to_hex4(0xFFFF), "FFFF");
    for n in 0..=0xFFFFu16 {
        assert_eq!(to_hex4(n), format!("{:04X}", n));
    }
}

#[test]
fn key_digits_and_names() {
    let keys = [
        (Key::Key0, 0x0u8, '0'),
        (Key::Key1, 0x1, '1'),
        (Key::Key2, 0x2, '2'),
        (Key::Key3, 0x3, '3'),
        (Key::Key4, 0x4, '4'),
        (Key::Key5, 0x5, '5'),
        (Key::Key6, 0x6, '6'),
        (Key::Key7, 0x7, '7'),
        (Key::Key8, 0x8, '8'),
        (Key::Key9, 0x9, '9'),
        (Key::KeyA, 0xA, 'A'),
        (Key::KeyB, 0xB, 'B'),
        (Key::KeyC, 0xC, 'C'),
        (Key::KeyD, 0xD, 'D'),
        (Key::KeyE, 0xE, 'E'),
        (Key::KeyF, 0xF, 'F'),
    ];
    for (key, index, name) in keys {
        assert_eq!(key.index(), index);
        assert_eq!(Key::from_index(index), Some(key));
        assert_eq!(key.to_char(), name);
        assert_eq!(key.to_str(), name.to_string());
        assert_eq!(Key::from_char(name), Some(key));
    }
    assert_eq!(Key::from_index(16), None);
    assert_eq!(Key::from_index(255), None);
    assert_eq!(Key::from_char('a'), None);
    assert_eq!(Key::from_char('G'), None);
    assert_eq!(Key::from_char(' '), None);
}

#[test]
fn keyboard_layout() {
    let layout = [
        ('1', Key::Key1),
        ('2', Key::Key2),
        ('3', Key::Key3),
        ('4', Key::KeyC),
        ('Q', Key::Key4),
        ('W', Key::Key5),
        ('E', Key::Key6),
        ('R', Key::KeyD),
        ('A', Key::Key7),
        ('S', Key::Key8),
        ('D', Key::Key9),
        ('F', Key::KeyA),
        ('Z', Key::KeyA),
        ('X', Key::Key0),
        ('C', Key::KeyB),
        ('V', Key::KeyF),
    ];
    for (c, key) in layout {
        assert_eq!(keymap(c), Some(key));
    }
    for c in ['q', 'z', '5', '0', 'B', ' ', '\n', 'é'] {
        assert_eq!(keymap(c), None);
    }
}

#[test]
fn upper_case_of_ascii_letters() {
    for c in 0u8..=127 {
        let c = c as char;
        assert_eq!(to_ascii_upper(c), c.to_ascii_uppercase());
    }
    assert_eq!(to_ascii_upper('q'), 'Q');
    assert_eq!(to_ascii_upper('é'), 'é');
    assert_eq!(to_ascii_upper('ß'), 'ß');
}

#[test]
fn strokes_that_interrupt() {
    let ctrl_c = KeyStroke { code: StrokeCode::Char('c'), control: true, kind: Some(InputKind::Press) };
    assert!(ctrl_c.interrupts());
    assert_eq!(ctrl_c.interpret(), Err(Chip8Error::Interrupt));

    let escape = KeyStroke { code: StrokeCode::Esc, control: false, kind: Some(InputKind::Release) };
    assert!(escape.interrupts());
    assert_eq!(escape.interpret(), Err(Chip8Error::Interrupt));

    let ctrl_escape = KeyStroke { code: StrokeCode::Esc, control: true, kind: None };
    assert_eq!(ctrl_escape.interpret(), Err(Chip8Error::Interrupt));

    let ctrl_upper_c = KeyStroke { code: StrokeCode::Char('C'), control: true, kind: Some(InputKind::Press) };
    assert!(!ctrl_upper_c.interrupts());
    assert_eq!(
        ctrl_upper_c.interpret(),
        Ok(Some(InputEvent { key: Key::KeyB, kind: InputKind::Press }))
    );
}

#[test]
fn strokes_that_move_keys() {
    let down = KeyStroke { code: StrokeCode::Char('w'), control: false, kind: Some(InputKind::Press) };
    assert_eq!(down.interpret(), Ok(Some(InputEvent { key: Key::Key5, kind: InputKind::Press })));
    let up = KeyStroke { code: StrokeCode::Char('W'), control: false, kind: Some(InputKind::Release) };
    assert_eq!(up.interpret(), Ok(Some(InputEvent { key: Key::Key5, kind: InputKind::Release })));
    let plain_c = KeyStroke { code: StrokeCode::Char('c'), control: false, kind: Some(InputKind::Press) };
    assert!(!plain_c.interrupts());
    assert_eq!(plain_c.interpret(), Ok(Some(InputEvent { key: Key::KeyB, kind: InputKind::Press })));
}

#[test]
fn strokes_that_mean_nothing() {
    let repeat = KeyStroke { code: StrokeCode::Char('w'), control: false, kind: None };
    assert_eq!(repeat.interpret(), Ok(None));
    let unmapped = KeyStroke { code: StrokeCode::Char('p'), control: false, kind: Some(InputKind::Press) };
    assert_eq!(unmapped.interpret(), Ok(None));
    let other = KeyStroke { code: StrokeCode::Other, control: true, kind: Some(InputKind::Press) };
    assert!(!other.interrupts());
    assert_eq!(other.interpret(), Ok(None));
}

#[test]
fn font_and_addresses() {
    assert_eq!(FONTSET.len(), 80);
    assert_eq!(&FONTSET[0..5], &[0xF0, 0x90, 0x90, 0x90, 0xF0]);
    assert_eq!(&FONTSET[5..10], &[0x20, 0x60, 0x20, 0x20, 0x70]);
    assert_eq!(&FONTSET[35..40], &[0xF0, 0x10, 0x20, 0x40, 0x40]);
    assert_eq!(&FONTSET[75..80], &[0xF0, 0x80, 0xF0, 0x80, 0x80]);
    assert!(FONTSET.iter().all(|row| row & 0x0F == 0));
    assert_eq!(PROGRAM_START_ADDRESS, 0x200);
}

#[test]
fn font_is_the_canonical_one() {
    let canonical: [u8; 80] = [
        0xF0, 0x90, 0x90, 0x90, 0xF0, 0x20, 0x60, 0x20, 0x20, 0x70, 0xF0, 0x10, 0xF0, 0x80, 0xF0,
        0xF0, 0x10, 0xF0, 0x10, 0xF0, 0x90, 0x90, 0xF0, 0x10, 0x10, 0xF0, 0x80, 0xF0, 0x10, 0xF0,
        0xF0, 0x80, 0xF0, 0x90, 0xF0, 0xF0, 0x10, 0x20, 0x40, 0x40, 0xF0, 0x90, 0xF0, 0x90, 0xF0,
        0xF0, 0x90, 0xF0, 0x10, 0xF0, 0xF0, 0x90, 0xF0, 0x90, 0x90, 0xE0, 0x90, 0xE0, 0x90, 0xE0,
        0xF0, 0x80, 0x80, 0x80, 0xF0, 0xE0, 0x90, 0x90, 0x90, 0xE0, 0xF0, 0x80, 0xF0, 0x80, 0xF0,
        0xF0, 0x80, 0xF0, 0x80, 0x80,
    ];
    assert_eq!(FONTSET, canonical);
    let state = chip8_core::state::Chip8State::new();
    assert_eq!(&state.memory[0..80], &canonical[..]);
}
