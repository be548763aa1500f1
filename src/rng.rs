//! Fresh randomness from the operating system, for callers that do not inject their own.

use rand::RngCore;
use vstd::prelude::*;

verus! {

/// Relies on rand's `thread_rng` and `RngCore::fill_bytes`: 32 bytes from a generator seeded
/// by the operating system. Nothing is promised of their value.
#[verifier::external_body]
fn thread_random_bytes() -> (r: [u8; 32]) {
    let mut res = [0u8; 32];
    rand::thread_rng().fill_bytes(&mut res);
    res
}

/// 32 random bytes.
pub fn rand_u832() -> (r: [u8; 32]) {
    thread_random_bytes()
}

} // verus!
