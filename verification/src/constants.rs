use vstd::prelude::*;

verus! {

pub const NUM_REGISTERS: usize = 16;

pub const MEMORY_SIZE: usize = 4096;

pub const STACK_DEPTH: usize = 16;

pub const OPCODE_SIZE: u16 = 2;

/// Index of `VF`, the register that arithmetic, shift and draw instructions use as a flag.
pub const FLAG_REGISTER: usize = 0xF;

pub const FONTSET_START_ADDRESS: u16 = 0x0;

pub const PROGRAM_START_ADDRESS: u16 = 0x200;

pub const NUM_KEYS: usize = 16;

pub const DISPLAY_WIDTH: usize = 64;

pub const DISPLAY_HEIGHT: usize = 32;

/// Bytes per glyph of the built-in font.
pub const FONT_SIZE: usize = 5;

/// Size in bytes of the built-in font: sixteen glyphs.
pub const FONTSET_SIZE: usize = 80;

/// The sixteen hexadecimal glyphs, five rows each, one byte per row with the
/// four pixels of the row in the high nibble.
pub const FONTSET: [u8; 80] = [
    // 0
    0b11110000, 0b10010000, 0b10010000, 0b10010000, 0b11110000,
    // 1
    0b00100000, 0b01100000, 0b00100000, 0b00100000, 0b01110000,
    // 2
    0b11110000, 0b00010000, 0b11110000, 0b10000000, 0b11110000,
    // 3
    0b11110000, 0b00010000, 0b11110000, 0b00010000, 0b11110000,
    // 4
    0b10010000, 0b10010000, 0b11110000, 0b00010000, 0b00010000,
    // 5
    0b11110000, 0b10000000, 0b11110000, 0b00010000, 0b11110000,
    // 6
    0b11110000, 0b10000000, 0b11110000, 0b10010000, 0b11110000,
    // 7
    0b11110000, 0b00010000, 0b00100000, 0b01000000, 0b01000000,
    // 8
    0b11110000, 0b10010000, 0b11110000, 0b10010000, 0b11110000,
    // 9
    0b11110000, 0b10010000, 0b11110000, 0b00010000, 0b11110000,
    // A
    0b11110000, 0b10010000, 0b11110000, 0b10010000, 0b10010000,
    // B
    0b11100000, 0b10010000, 0b11100000, 0b10010000, 0b11100000,
    // C
    0b11110000, 0b10000000, 0b10000000, 0b10000000, 0b11110000,
    // D
    0b11100000, 0b10010000, 0b10010000, 0b10010000, 0b11100000,
    // E
    0b11110000, 0b10000000, 0b11110000, 0b10000000, 0b11110000,
    // F
    0b11110000, 0b10000000, 0b11110000, 0b10000000, 0b10000000,
];

/// Rate at which the delay and sound timers count down, in Hz.
pub const TIMER_FREQ: u64 = 60;

} // verus!
