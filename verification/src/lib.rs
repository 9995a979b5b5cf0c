//! A 16-bit instruction-set computer: a fixed register file, a 64K-word
//! address space, a 16-opcode instruction set, condition-code flags,
//! memory-mapped console input, and software trap routines for character
//! I/O, with the execution engine verified against the stated semantics.

mod console;
pub mod hardware;
pub mod image;
pub mod input_buffering;
pub mod laws;
pub mod operations;
pub mod traps;
pub mod vm;
