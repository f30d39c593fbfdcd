use vstd::prelude::*;

verus! {

/// Picks one of `cells` at random, each with the same chance.
///
/// Calls `rand::seq::IndexedRandom::choose` on the slice of `cells`, with the
/// thread's generator `rand::rng()`. Trusted, not proved: the call returns
/// nothing for an empty slice, and otherwise one of the slice's elements.
/// Which one is left open, so two calls on the same slice may differ.
#[verifier::external_body]
pub(crate) fn pick_target(cells: &Vec<usize>) -> (chosen: Option<usize>)
    ensures
        chosen is None <==> cells@.len() == 0,
        chosen matches Some(k) ==> cells@.contains(k),
{
    rand::seq::IndexedRandom::choose(cells.as_slice(), &mut rand::rng()).copied()
}

/// Draws a lot that comes up with a chance of `numerator` in `denominator`.
///
/// Calls `rand::random_ratio`, which panics for a zero denominator and for a
/// numerator above the denominator. Trusted, not proved: a chance of zero
/// never comes up and a chance of one always does. Of any other draw nothing
/// is known.
#[verifier::external_body]
pub(crate) fn chance(numerator: u32, denominator: u32) -> (yes: bool)
    requires
        denominator > 0,
        numerator <= denominator,
    ensures
        yes ==> numerator > 0,
        !yes ==> numerator < denominator,
{
    rand::random_ratio(numerator, denominator)
}

} // verus!
