use vstd::prelude::*;

use rand::Rng;

verus! {

/// Relies on rand's `thread_rng().gen_range(1..=255)`: a byte drawn uniformly from 1 through 255.
#[verifier::external_body]
pub(crate) fn random_byte() -> (r: u8)
    ensures
        1 <= r,
{
    rand::thread_rng().gen_range(1..=255)
}

} // verus!
