//! A CHIP-8 virtual machine core with verified instruction semantics.
//!
//! The library owns the interpreter state (registers, address register,
//! program counter, call stack, timers, 4096-byte memory, 64x32 monochrome
//! framebuffer, keypad snapshot and keypad-wait latch) and a fetch-decode-
//! execute cycle whose effect on that state is specified opcode by opcode.
//! Rendering, audio and keyboard handling are left to the host program.
use vstd::prelude::*;

pub mod cpu;
pub mod memory;
pub mod laws;

verus! {

/// Width of the framebuffer in pixels.
pub const CHIP8_WIDTH: usize = 64;

/// Height of the framebuffer in pixels.
pub const CHIP8_HEIGHT: usize = 32;

} // verus!
