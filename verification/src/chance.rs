//! Random choices, drawn from the thread-local generator of the `rand` crate.

use rand::Rng;
use vstd::prelude::*;

verus! {

/// Draws a number from `low..=high` with `Rng::gen_range` on
/// `rand::thread_rng()`. Every draw may differ; all that is claimed is that
/// the number lies in the range. An empty range, on which `gen_range`
/// panics, is left out.
#[verifier::external_body]
pub(crate) fn draw(low: u64, high: u64) -> (r: u64)
    requires
        low <= high,
    ensures
        low <= r <= high,
{
    rand::thread_rng().gen_range(low..=high)
}

/// A random index into a collection of `len` items.
pub fn random_index(len: usize) -> (r: usize)
    requires
        len > 0,
    ensures
        r < len,
{
    draw(0, (len - 1) as u64) as usize
}

} // verus!
