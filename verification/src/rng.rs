use vstd::prelude::*;

use rand::Rng;

verus! {

/// Relies on rand::random::<u8>: an arbitrary byte from the thread-local
/// generator; nothing is promised of its value.
#[verifier::external_body]
pub(crate) fn random_byte() -> u8 {
    rand::random::<u8>()
}

/// Relies on rand::Rng::gen_range over `0..bound`: it panics only on an
/// empty range and otherwise returns a value of the range, which excludes
/// `bound`.
#[verifier::external_body]
pub(crate) fn random_below(bound: usize) -> (r: usize)
    requires
        bound >= 1,
    ensures
        r < bound,
{
    rand::thread_rng().gen_range(0..bound)
}

} // verus!
