//! A verified CHIP-8 interpreter core: a fetch-decode-execute engine over a
//! 4096-byte memory, sixteen 8-bit registers, a 64x32 monochrome framebuffer,
//! a call stack and two countdown timers.
use vstd::prelude::*;

pub mod cpu;
pub mod interp;
pub mod laws;
pub mod model;

verus! {

/// Screen width in pixels.
pub const WIDTH: usize = 64;

/// Screen height in pixels.
pub const HEIGHT: usize = 32;

/// Errors surfaced to the host at initialization or load time.
#[derive(Clone, Copy, Debug, PartialEq, Eq, Structural)]
pub enum Chip8Error {
    /// A program image does not fit into memory at the requested address.
    RomTooLarge,
}

} // verus!
