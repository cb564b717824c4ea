//! Trusted boundary to the `rand` crate.
//!
//! The selection loop draws candidates uniformly at random. The draw itself
//! is the only thing the library takes on trust from `rand`: the generator
//! type is opaque, and the one wrapped call promises no more than that the
//! returned index is in range.

use vstd::prelude::*;

verus! {

/// `rand::rngs::StdRng` is opaque to the library: it is carried through
/// and handed back to `rand` for each draw.
#[verifier::external_type_specification]
#[verifier::external_body]
pub struct ExStdRng(rand::rngs::StdRng);

/// Relies on `rand::RngExt::random_range` over `0..n`: it returns a value of
/// that range, and panics only on an empty range, which the precondition
/// excludes. Nothing is assumed about which value comes back.
#[verifier::external_body]
pub(crate) fn rand_index(rng: &mut rand::rngs::StdRng, n: usize) -> (r: usize)
    requires
        n >= 1,
    ensures
        r < n,
{
    rand::RngExt::random_range(rng, 0..n)
}

} // verus!
