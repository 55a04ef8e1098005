//! A CHIP-8 interpreter core: a 4096-byte address space, sixteen 8-bit
//! registers, a fixed-depth call stack, two countdown timers, a 16-key input
//! latch and a 64x32 monochrome frame buffer, driven by a fetch-decode-execute
//! step.  Every instruction's effect on the machine is stated over a
//! mathematical view of the state and proved.

pub mod cpu;
pub mod decode;
pub mod font;
pub mod laws;
pub mod semantics;
pub mod state;
