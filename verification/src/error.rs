use vstd::prelude::*;
use vstd::string::*;
use crate::text::{decimal, hex4, to_decimal, to_hex4};

verus! {

/// Everything that can stop the machine.
#[derive(Debug, Clone, PartialEq, Eq)]
pub enum Chip8Error {
    /// An instruction fetch, a sprite read or a register transfer reached the
    /// given address, which lies outside memory.
    MemoryAccessOutOfBounds(u16),
    /// The word fetched is not an instruction of the machine.
    UnimplementedOpcode(u16),
    /// A program of the given length does not fit between the program start
    /// address and the end of memory.
    RomTooBig(usize),
    /// A call with sixteen return addresses already stacked, or a return with none.
    StackFault,
    DisplayError(String),
    InputError(String),
    AudioError(String),
    AsyncAwaitError(String),
    MutexReadError(String),
    MutexWriteError(String),
    /// The user asked the machine to stop.
    Interrupt,
}

impl Chip8Error {
    /// The one-line diagnostic for the error.
    pub open spec fn spec_message(&self) -> Seq<char> {
        match self {
            Chip8Error::RomTooBig(size) => "ROM size too big: "@ + decimal(*size as nat) + "bytes"@,
            Chip8Error::MemoryAccessOutOfBounds(addr) => "Memory access out of bounds: 0x"@ + hex4(
                *addr,
            ),
            Chip8Error::UnimplementedOpcode(op) => "Unimplemented opcode: 0x"@ + hex4(*op),
            Chip8Error::StackFault => "Stack fault"@,
            Chip8Error::DisplayError(text) => "Display Error: "@ + text@,
            Chip8Error::InputError(text) => "Input Error: "@ + text@,
            Chip8Error::AudioError(text) => "Audio Error: "@ + text@,
            Chip8Error::AsyncAwaitError(text) => "Async/Await Error: "@ + text@,
            Chip8Error::MutexReadError(text) => "Mutex read error: "@ + text@,
            Chip8Error::MutexWriteError(text) => "Mutex write error: "@ + text@,
            Chip8Error::Interrupt => "Interrupted"@,
        }
    }

    /// Writes the one-line diagnostic for the error.
    pub fn message(&self) -> (text: String)
        ensures
            text@ == self.spec_message(),
    {
        match self {
            Chip8Error::RomTooBig(size) => {
                let mut text = String::from_str("ROM size too big: ");
                let number = to_decimal(*size as u64);
                text.append(number.as_str());
                text.append("bytes");
                text
            },
            Chip8Error::MemoryAccessOutOfBounds(addr) => {
                let mut text = String::from_str("Memory access out of bounds: 0x");
                let number = to_hex4(*addr);
                text.append(number.as_str());
                text
            },
            Chip8Error::UnimplementedOpcode(op) => {
                let mut text = String::from_str("Unimplemented opcode: 0x");
                let number = to_hex4(*op);
                text.append(number.as_str());
                text
            },
            Chip8Error::StackFault => String::from_str("Stack fault"),
            Chip8Error::DisplayError(detail) => {
                let mut text = String::from_str("Display Error: ");
                text.append(detail.as_str());
                text
            },
            Chip8Error::InputError(detail) => {
                let mut text = String::from_str("Input Error: ");
                text.append(detail.as_str());
                text
            },
            Chip8Error::AudioError(detail) => {
                let mut text = String::from_str("Audio Error: ");
                text.append(detail.as_str());
                text
            },
            Chip8Error::AsyncAwaitError(detail) => {
                let mut text = String::from_str("Async/Await Error: ");
                text.append(detail.as_str());
                text
            },
            Chip8Error::MutexReadError(detail) => {
                let mut text = String::from_str("Mutex read error: ");
                text.append(detail.as_str());
                text
            },
            Chip8Error::MutexWriteError(detail) => {
                let mut text = String::from_str("Mutex write error: ");
                text.append(detail.as_str());
                text
            },
            Chip8Error::Interrupt => String::from_str("Interrupted"),
        }
    }
}

} // verus!
