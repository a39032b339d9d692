//! A verified interpreter for a small fixed-instruction-set 8-bit virtual
//! machine: a flat 4096-byte memory with a glyph table, sixteen 8-bit
//! registers, a 16-slot call stack, a 64x32 monochrome pixel grid, and two
//! wall-clock countdown timers.

pub mod cpu;
pub mod emulator;
pub mod fault;
pub mod font;
pub mod instr;
pub mod memory;
pub mod rng;
pub mod screen;
pub mod timer;

pub use emulator::Emulator;
