//! A verified interpreter core for an 8-bit register machine with 35 opcodes,
//! 16 general registers, a 16-bit index register, a bounded call stack, two
//! decoupled 8-bit timers, a 64x32 monochrome display written by XOR-sprite
//! compositing, and a 16-key input device.
//!
//! The machine's semantics are stated once, as spec functions over a ghost
//! model of the whole machine state (`model`), and the executable engine
//! (`cpu`) is proved to follow them step for step.

pub mod cpu;
pub mod keypad;
pub mod laws;
pub mod model;
