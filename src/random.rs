//! Random draws, taken from the thread-local generator of `rand`.
use rand::seq::SliceRandom;
use rand::Rng;
use vstd::prelude::*;

verus! {

/// Relies on `rand::Rng::gen::<usize>` on `rand::thread_rng()`: some `usize`;
/// nothing is known of which one.
#[verifier::external_body]
pub(crate) fn random_usize() -> (r: usize) {
    rand::thread_rng().gen::<usize>()
}

/// Relies on `rand::Rng::gen_range` on `rand::thread_rng()`: a value of the
/// half-open range `0..n`, which panics when the range is empty.
#[verifier::external_body]
pub(crate) fn random_below(n: usize) -> (r: usize)
    requires
        n > 0,
    ensures
        r < n,
{
    rand::thread_rng().gen_range(0..n)
}

/// Relies on `rand::seq::SliceRandom::choose` on `rand::thread_rng()`: none
/// for an empty list, otherwise a reference to one of its elements.
#[verifier::external_body]
pub(crate) fn random_choice<T>(items: &Vec<T>) -> (r: Option<&T>)
    ensures
        r is None <==> items.len() == 0,
        r matches Some(x) ==> items@.contains(*x),
{
    items.choose(&mut rand::thread_rng())
}

} // verus!
