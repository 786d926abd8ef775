//! What hashers are fed.
use std::hash::{Hash, Hasher};
use vstd::prelude::*;

verus! {

/// Calls `hash` of `u64`, which feeds the number to the hasher. What a hasher makes of it is up to
/// the hasher, and is not said.
#[verifier::external_body]
pub fn feed_u64<H: Hasher>(value: u64, state: &mut H) {
    value.hash(state)
}

/// Calls `hash` of `u32`, which feeds the number to the hasher. What a hasher makes of it is up to
/// the hasher, and is not said.
#[verifier::external_body]
pub fn feed_u32<H: Hasher>(value: u32, state: &mut H) {
    value.hash(state)
}

} // verus!
