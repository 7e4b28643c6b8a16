use rand::Rng;
use vstd::prelude::*;

verus! {

/// `rand::Rng::gen_range` on the generator of the current thread, with a
/// half-open range of `u32`. The range must not be empty, or the call
/// panics. Of the number that comes back only this is claimed: it lies in
/// the range.
#[verifier::external_body]
fn sample_range(low: u32, high: u32) -> (r: u32)
    requires
        low < high,
    ensures
        low <= r < high,
{
    rand::thread_rng().gen_range(low..high)
}

/// A random integer between `min` and `max`, both included.
pub fn random_int(min: u32, max: u32) -> (r: u32)
    requires
        min <= max < u32::MAX,
    ensures
        min <= r <= max,
{
    sample_range(min, max + 1)
}

} // verus!
