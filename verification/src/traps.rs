//! The trap service vectors: five console I/O routines selected by the low
//! byte of a TRAP instruction, plus a fallback for undefined vectors.

use vstd::prelude::*;

verus! {

/// A trap service vector. The low byte of a TRAP instruction selects one of
/// the five defined routines; every other value is invalid.
#[allow(non_camel_case_types)]
#[derive(Clone, Copy, Debug, PartialEq, Eq, Structural)]
pub enum Traps {
    /// Get one character from the keyboard, not echoed (vector 0x20).
    TRAP_GETC,
    /// Output one character (vector 0x21).
    TRAP_OUT,
    /// Output a word string, one character per cell (vector 0x22).
    TRAP_PUTS,
    /// Get one character from the keyboard, echoed (vector 0x23).
    TRAP_IN,
    /// Output a byte string, two characters per cell (vector 0x24).
    TRAP_PUTSP,
    /// Halt the machine (vector 0x25).
    TRAP_HALT,
    /// Any other vector: execution cannot continue.
    TRAP_INVALID,
}

/// The trap vector that a 16-bit value selects.
pub open spec fn trap_of(value: u16) -> Traps {
    if value == 0x20 {
        Traps::TRAP_GETC
    } else if value == 0x21 {
        Traps::TRAP_OUT
    } else if value == 0x22 {
        Traps::TRAP_PUTS
    } else if value == 0x23 {
        Traps::TRAP_IN
    } else if value == 0x24 {
        Traps::TRAP_PUTSP
    } else if value == 0x25 {
        Traps::TRAP_HALT
    } else {
        Traps::TRAP_INVALID
    }
}

impl From<u16> for Traps {
    fn from(value: u16) -> (t: Traps) {
        match value {
            0x20 => Traps::TRAP_GETC,
            0x21 => Traps::TRAP_OUT,
            0x22 => Traps::TRAP_PUTS,
            0x23 => Traps::TRAP_IN,
            0x24 => Traps::TRAP_PUTSP,
            0x25 => Traps::TRAP_HALT,
            _ => Traps::TRAP_INVALID,
        }
    }
}

impl vstd::std_specs::convert::FromSpecImpl<u16> for Traps {
    open spec fn obeys_from_spec() -> bool {
        true
    }

    open spec fn from_spec(value: u16) -> Traps {
        trap_of(value)
    }
}

} // verus!
