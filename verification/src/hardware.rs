//! Machine-level constants of the LC-3 architecture: register file layout,
//! condition flags, and the memory-mapped keyboard ports.

use vstd::prelude::*;

verus! {

/// Number of addressable 16-bit memory cells.
pub const MEMORY_MAX: usize = 65536;

/// Number of cells in the register file: R0-R7, PC, COND.
pub const R_COUNT: usize = 10;

/// Index of general-purpose register R0.
pub const R_R0: usize = 0;
/// Index of general-purpose register R1.
pub const R_R1: usize = 1;
/// Index of general-purpose register R2.
pub const R_R2: usize = 2;
/// Index of general-purpose register R3.
pub const R_R3: usize = 3;
/// Index of general-purpose register R4.
pub const R_R4: usize = 4;
/// Index of general-purpose register R5.
pub const R_R5: usize = 5;
/// Index of general-purpose register R6.
pub const R_R6: usize = 6;
/// Index of general-purpose register R7, the conventional link register.
pub const R_R7: usize = 7;
/// Index of the program counter.
pub const R_PC: usize = 8;
/// Index of the condition-code register.
pub const R_COND: usize = 9;

/// Condition flag: last result was strictly positive.
pub const FL_POS: u16 = 1;
/// Condition flag: last result was zero.
pub const FL_ZRO: u16 = 2;
/// Condition flag: last result was negative (bit 15 set).
pub const FL_NEG: u16 = 4;

/// Address of the memory-mapped keyboard status register.
pub const MR_KBSR: u16 = 0xFE00;
/// Address of the memory-mapped keyboard data register.
pub const MR_KBDR: u16 = 0xFE02;

/// The condition flag that a 16-bit register value earns: zero, negative
/// (two's-complement sign bit set), or positive.
pub open spec fn flag_for(v: u16) -> u16 {
    if v == 0 {
        FL_ZRO
    } else if v >= 0x8000 {
        FL_NEG
    } else {
        FL_POS
    }
}

} // verus!
