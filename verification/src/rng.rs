//! The single source of randomness.  Spawners, drop chances and cosmetic
//! jitter all draw through `sample_range`; every caller states what holds
//! of any value in the range, never of a particular one.

use vstd::prelude::*;
use rand::Rng;

verus! {

/// Relies on rand::Rng::gen_range on the thread-local generator: it returns
/// a uniform sample in `[lo, hi)` and panics only on an empty range.
#[verifier::external_body]
pub fn sample_range(lo: i64, hi: i64) -> (r: i64)
    requires
        lo < hi,
    ensures
        lo <= r < hi,
{
    rand::thread_rng().gen_range(lo..hi)
}

} // verus!
