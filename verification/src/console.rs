//! Trusted boundary to the host console: one byte in, one byte out.
//!
//! The values that come in depend on the user at the keyboard, so the
//! contracts promise nothing about them; callers must state what holds of
//! every possible byte.

use std::io::Read;
use std::io::Write;
use vstd::prelude::*;

verus! {

/// Relies on std::io::Stdin::read_exact: blocks until one byte arrives on
/// standard input and returns it. The byte depends on the user, so nothing
/// is promised of its value.
#[verifier::external_body]
pub(crate) fn read_byte() -> u8 {
    let mut buffer = [0u8; 1];
    std::io::stdin()
        .read_exact(&mut buffer)
        .expect("failed to read from standard input");
    buffer[0]
}

/// Relies on std::io::Stdout::write_all: writes one byte to standard output.
#[verifier::external_body]
pub(crate) fn write_byte(c: u8) {
    let _ = std::io::stdout().write_all(&[c]);
}

/// Relies on the writeln macro over std::io::Stdout: writes a line of text
/// to standard output.
#[verifier::external_body]
pub(crate) fn write_line(s: &str) {
    let _ = writeln!(std::io::stdout(), "{}", s);
}

} // verus!
