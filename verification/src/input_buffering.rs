//! Trusted boundary to the host terminal's keyboard: a non-blocking probe
//! for a pending keystroke.

use vstd::prelude::*;

verus! {

/// Relies on crossterm::event::poll with a zero timeout: returns whether a
/// terminal event is pending, without blocking. Whether a key is pending
/// depends on the user, so nothing is promised of the result.
#[verifier::external_body]
pub fn check_key() -> bool {
    crossterm::event::poll(std::time::Duration::from_millis(0)).unwrap_or(false)
}

} // verus!
