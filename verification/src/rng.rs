//! The simulator's randomness source, behind one trusted wrapper.

use vstd::prelude::*;

verus! {

/// Relies on `rand::Rng::gen_range` over the half-open range `lo..hi` on
/// `u64`, drawn from `rand::thread_rng()`: the result is uniformly
/// distributed in `[lo, hi)`; the call panics only when the range is empty,
/// which the precondition rules out.
#[verifier::external_body]
pub(crate) fn rand_u64(lo: u64, hi: u64) -> (r: u64)
    requires
        lo < hi,
    ensures
        lo <= r < hi,
{
    rand::Rng::gen_range(&mut rand::thread_rng(), lo..hi)
}

} // verus!
