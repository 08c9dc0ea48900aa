use vstd::prelude::*;
use rand::Rng;

verus! {

/// Relies on rand's `Rng::gen_range` over `0..n` on the thread-local
/// generator: returns a uniformly distributed index strictly below `n`. It
/// panics only on an empty range, which the precondition rules out.
#[verifier::external_body]
pub(crate) fn random_below(n: usize) -> (r: usize)
    requires
        n >= 1,
    ensures
        r < n,
{
    rand::thread_rng().gen_range(0..n)
}

/// Relies on rand's `Rng::gen_range` over `0..n` for `u128` bounds, as
/// `random_below` does for `usize`: a uniformly distributed value strictly
/// below `n`.
#[verifier::external_body]
pub(crate) fn random_below_u128(n: u128) -> (r: u128)
    requires
        n >= 1,
    ensures
        r < n,
{
    rand::thread_rng().gen_range(0..n)
}

} // verus!
