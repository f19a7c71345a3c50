//! A CHIP-8 virtual machine: the register file, memory map and framebuffer, the
//! instruction decoder and executor, the clock-stamped input queue, and the
//! rules by which the processor and its drivers are paced and shut down.
//!
//! Contracts are stated over `machine::Machine`, the machine as a
//! mathematical value; `laws` holds what is proved of every machine.

pub mod chip8;
pub mod constants;
pub mod cpu;
pub mod display;
pub mod drivers;
pub mod error;
pub mod execute;
pub mod fault;
pub mod input;
pub mod instructions;
pub mod keyboard;
pub mod keypad;
pub mod laws;
pub mod machine;
pub mod pacing;
pub mod state;
pub mod text;

pub use crate::chip8::Chip8;
