//! A verified CHIP-8 execution engine.
//!
//! The library holds the core of the virtual machine: the 4096-byte memory,
//! the register file with its call stack and timers, the 64x32 XOR-composited
//! framebuffer, the 16-key keypad state, and the decoder/executor for the
//! 35-instruction set. Everything here is verified; rendering, audio and
//! input are left to the embedding program, which drives the machine through
//! the public interface.

pub mod chip8;
pub mod display;
pub mod exceptions;
pub mod instruction;
pub mod keyboard;
pub mod memory;
pub mod processor;
pub mod sprite;
