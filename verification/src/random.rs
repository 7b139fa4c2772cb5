//! The source of randomness: the thread-local generator of the `rand` crate.

use rand::Rng;
use vstd::prelude::*;

verus! {

/// Draws a number from the half-open range `low..high`.
///
/// Trusted: the body calls `rand::Rng::gen_range` on the handle that `rand::thread_rng()`
/// returns. `gen_range` panics on an empty range, which `requires` leaves out, and
/// otherwise returns `low` plus an offset below `high - low`. Which number comes is up
/// to the generator, so nothing more is claimed of it. The generator seeds itself from
/// the operating system when a thread first uses it, and panics if that fails.
#[verifier::external_body]
pub(crate) fn random_in_range(low: u64, high: u64) -> (drawn: u64)
    requires
        low < high,
    ensures
        low <= drawn < high,
{
    rand::thread_rng().gen_range(low..high)
}

/// Draws an index into a collection of `bound` items.
pub(crate) fn random_index(bound: usize) -> (index: usize)
    requires
        0 < bound,
    ensures
        index < bound,
{
    random_in_range(0, bound as u64) as usize
}

/// Draws `length` indices into a collection of `bound` items, one after the other.
pub(crate) fn random_indices(bound: usize, length: u64) -> (indices: Vec<usize>)
    requires
        0 < bound,
    ensures
        indices@.len() == length,
        forall|i: int| 0 <= i < indices@.len() ==> indices@[i] < bound,
{
    let mut indices: Vec<usize> = Vec::new();
    let mut drawn: u64 = 0;
    while drawn < length
        invariant
            0 < bound,
            drawn <= length,
            indices@.len() == drawn,
            forall|i: int| 0 <= i < indices@.len() ==> indices@[i] < bound,
        decreases length - drawn,
    {
        indices.push(random_index(bound));
        drawn += 1;
    }
    indices
}

} // verus!
