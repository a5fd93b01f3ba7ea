//! The random source the simulation draws from. The generator is an outside
//! type; the three draws below are all the library ever asks of it, and
//! their contracts state only what holds of every outcome.

use crate::element::Element;
use crate::probability::Probability;
use rand::seq::IndexedRandom;
use rand::Rng;
use rand_xorshift::XorShiftRng;
use vstd::prelude::*;

verus! {

#[verifier::external_type_specification]
#[verifier::external_body]
pub struct ExXorShiftRng(XorShiftRng);

/// Calls `Rng::random_ratio`, which answers `true` with the given chance.
/// Its documentation guarantees `true` where numerator and denominator are
/// equal and `false` where the numerator is zero; nothing else is known of
/// the answer. It panics on a zero denominator or a ratio above one, which
/// a valid probability rules out.
#[verifier::external_body]
pub(crate) fn draw_ratio(rng: &mut XorShiftRng, chance: Probability) -> (answer: bool)
    requires
        chance.wf(),
    ensures
        chance.numerator == 0 ==> !answer,
        chance.numerator == chance.denominator ==> answer,
{
    rng.random_ratio(chance.numerator, chance.denominator)
}

/// Calls `Rng::random_range` on the inclusive range from `low` to `high`,
/// which yields some index of that range. It panics on an empty range.
#[verifier::external_body]
pub(crate) fn draw_index(rng: &mut XorShiftRng, low: usize, high: usize) -> (index: usize)
    requires
        low <= high,
    ensures
        low <= index <= high,
{
    rng.random_range(low..=high)
}

/// Calls `IndexedRandom::choose` on the candidates, which yields one of
/// them, or nothing where there is none.
#[verifier::external_body]
pub(crate) fn choose_candidate(rng: &mut XorShiftRng, candidates: &Vec<Element>) -> (picked: Option<
    Element,
>)
    ensures
        candidates@.len() == 0 ==> picked is None,
        candidates@.len() > 0 ==> picked is Some && candidates@.contains(picked.unwrap()),
{
    candidates.choose(rng).copied()
}

} // verus!
