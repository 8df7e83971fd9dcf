//! The random number source for food relocation.
//!
//! The generator is injected by the caller, so tests and drivers can seed it
//! deterministically; the engine only ever asks it for a coordinate within
//! the configured placement bound.

use vstd::prelude::*;

verus! {

#[verifier::external_type_specification]
#[verifier::external_body]
pub struct ExRng(fastrand::Rng);

/// Relies on fastrand::Rng::i32: a draw from the inclusive range `lo..=hi`
/// lies within that range, and the call panics only when the range is empty.
#[verifier::external_body]
pub(crate) fn rand_range_i32(rng: &mut fastrand::Rng, lo: i32, hi: i32) -> (r: i32)
    requires
        lo <= hi,
    ensures
        lo <= r <= hi,
{
    rng.i32(lo..=hi)
}

} // verus!
