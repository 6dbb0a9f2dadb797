//! The host's side of the front of house.

use vstd::prelude::*;

verus! {

/// Puts the guest on the waitlist.
pub fn add_to_waitlist() {
}

#[allow(dead_code)]
fn seat_at_table() {
}

} // verus!
