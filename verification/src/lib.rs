//! A verified interpreter for a 16-bit virtual machine with a 15-bit value
//! space: eight registers, 32,768 words of memory, an unbounded stack, and
//! byte-oriented I/O ports.

pub mod codec;
pub mod ops;
pub mod state;
pub mod vm;
