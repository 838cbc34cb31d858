use vstd::prelude::*;

verus! {

/// Relies on rand::thread_rng and rand::Rng::gen_range: the result is drawn
/// from the half-open range `0..n`, so it is strictly below `n`. The bound
/// `n >= 1` keeps the range non-empty; `gen_range` panics on an empty range.
#[verifier::external_body]
pub(crate) fn random_below(n: usize) -> (r: usize)
    requires
        n >= 1,
    ensures
        r < n,
{
    rand::Rng::gen_range(&mut rand::thread_rng(), 0..n)
}

/// Relies on rand::random to draw one random byte; nothing is assumed of its
/// value.
#[verifier::external_body]
pub(crate) fn random_byte() -> (b: u8) {
    rand::random::<u8>()
}

} // verus!
