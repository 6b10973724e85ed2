//! Random numbers.

use rand::Rng;
use vstd::prelude::*;

verus! {

/// A value drawn by `Rng::gen_range` from the thread-local generator of
/// `rand`, over the range from 0 up to but excluding `max`. The range must
/// not be empty. The draw is random: all that is claimed of it is that it
/// lies in the range.
#[verifier::external_body]
pub(crate) fn random_below(max: usize) -> (r: usize)
    requires
        max > 0,
    ensures
        r < max,
{
    rand::thread_rng().gen_range(0..max)
}

} // verus!
