//! A verified CHIP-8 interpreter core.
//!
//! The machine state (registers, memory, stack, timers, framebuffer) lives in
//! [`cpu::CPU`]; one call to [`cpu::CPU::emulate_cycle`] fetches, decodes and
//! executes a single instruction. Every state change is specified against a
//! mathematical model of the machine and proved.

pub mod cpu;
pub mod font;
pub mod instruction;
pub mod laws;
mod random;
