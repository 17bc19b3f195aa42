//! Random bytes.

use rand::RngCore;
use vstd::prelude::*;

verus! {

/// `rand::rngs::OsRng`'s `fill_bytes`: random bytes from the system. Nothing is
/// known of their values. A system that has none to give makes it panic,
/// whatever is asked of it.
#[verifier::external_body]
pub(crate) fn random_bytes<const N: usize>() -> (bytes: [u8; N]) {
    let mut bytes = [0u8; N];
    rand::rngs::OsRng.fill_bytes(&mut bytes);
    bytes
}

} // verus!
