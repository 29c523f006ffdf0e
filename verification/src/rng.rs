//! The machine's source of random bytes.

use rand::Rng;
use vstd::prelude::*;

verus! {

/// A byte from the calling thread's generator, by `rand::thread_rng` and
/// `Rng::gen`. Any byte may come back, so the contract promises nothing of
/// it: what the machine does with it is verified for every value. The
/// generator takes its seed from the system, at a thread's first call and
/// again whenever it has handed out enough bytes to reseed; a call that
/// seeds panics if the system has no entropy to give.
#[verifier::external_body]
pub(crate) fn random_byte() -> (r: u8) {
    rand::thread_rng().gen::<u8>()
}

} // verus!
