//! Random choices (the `rand` crate, with the thread's generator).
use vstd::prelude::*;

verus! {

/// `SliceRandom::choose` with `rand::thread_rng()`: one of the items,
/// picked at random. Which one is not claimed, only that it is one of
/// them; the list must not be empty (on an empty list `choose` gives
/// nothing).
#[verifier::external_body]
pub(crate) fn pick<T>(items: &Vec<T>) -> (r: &T)
    requires
        items@.len() > 0,
    ensures
        items@.contains(*r),
{
    rand::seq::SliceRandom::choose(items.as_slice(), &mut rand::thread_rng()).unwrap()
}

/// `Rng::gen_range(0..n)` with `rand::thread_rng()`: a number below `n`,
/// picked at random. The range must not be empty (`gen_range` stops on an
/// empty range).
#[verifier::external_body]
pub(crate) fn below(n: usize) -> (r: usize)
    requires
        n > 0,
    ensures
        r < n,
{
    rand::Rng::gen_range(&mut rand::thread_rng(), 0..n)
}

} // verus!
