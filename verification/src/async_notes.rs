//! Notes on why cooperative scheduling is worth having, kept beside the
//! executor they motivate.

use vstd::prelude::*;

verus! {

/// Why asynchrony at all: threads that block on I/O sit idle while holding
/// their stacks; suspendable computations let one thread interleave many
/// waits, paying only for the state each computation keeps.
#[allow(non_snake_case)]
pub fn Chp_1_1_Why_Async() {
}

/// Where that leads: a computation is polled to completion by an executor,
/// hands back a wake callback when it cannot progress, and is polled again
/// only once that callback is invoked — the contract the executor in this
/// crate makes precise.
#[allow(non_snake_case)]
pub fn Chp_1_2_State_of_Async_Rust() {
}

} // verus!
