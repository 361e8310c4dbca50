//! A verified CHIP-8 virtual machine core.
//!
//! The machine's architectural state (memory, registers, stack, timers,
//! input latch, framebuffer) lives in [`chip8::Chip8`]; one call to
//! [`chip8::Chip8::cycle`] fetches, decodes and executes a single two-byte
//! opcode and ticks the timers. Every operation is specified against the
//! ghost state in [`state`] by the transition functions in [`semantics`],
//! and [`laws`] proves the instruction set's algebraic properties.

pub mod chip8;
pub mod laws;
pub mod semantics;
pub mod state;

pub use chip8::Chip8;
pub use chip8::new_chip8;
