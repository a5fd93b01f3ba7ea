//! Probabilities as exact ratios of two machine integers.

use vstd::prelude::*;

verus! {

/// The number of parts in a whole, for probabilities given in parts per million.
pub const MILLION: u32 = 1_000_000;

/// The chance `numerator / denominator` of a yes/no draw.
#[derive(Copy, Clone, PartialEq, Eq, Debug, Structural)]
pub struct Probability {
    pub numerator: u32,
    pub denominator: u32,
}

impl Probability {
    /// A ratio is a probability when it lies between zero and one.
    pub open spec fn wf(&self) -> bool {
        0 < self.denominator && self.numerator <= self.denominator
    }

    /// The event never happens.
    pub open spec fn is_never(&self) -> bool {
        self.numerator == 0
    }

    /// The event always happens.
    pub open spec fn is_certain(&self) -> bool {
        self.numerator == self.denominator
    }

    /// What a draw of this probability counts as, given what the random
    /// source answered: chance zero never fires, chance one always does, and
    /// anything between goes by the answer.
    pub open spec fn spec_settle(&self, answer: bool) -> bool {
        if self.is_certain() {
            true
        } else if self.is_never() {
            false
        } else {
            answer
        }
    }

    /// What a draw of this probability counts as, given what the random
    /// source answered.
    #[verifier::when_used_as_spec(spec_settle)]
    pub fn settle(&self, answer: bool) -> (fires: bool)
        ensures
            fires == self.spec_settle(answer),
    {
        if self.numerator == self.denominator {
            true
        } else if self.numerator == 0 {
            false
        } else {
            answer
        }
    }

    /// `self` is the ratio `numerator / denominator`, compared exactly.
    pub open spec fn is_ratio(&self, numerator: int, denominator: int) -> bool {
        self.numerator * denominator == numerator * self.denominator
    }

    /// `self` is at most `other`, compared exactly by cross-multiplication.
    pub open spec fn at_most(&self, other: Probability) -> bool {
        self.numerator * other.denominator <= other.numerator * self.denominator
    }

    /// The ratio `numerator / denominator`.
    pub fn new(numerator: u32, denominator: u32) -> (p: Probability)
        requires
            0 < denominator,
            numerator <= denominator,
        ensures
            p.numerator == numerator,
            p.denominator == denominator,
            p.wf(),
    {
        Probability { numerator, denominator }
    }

    /// The probability of `parts` in a million.
    pub fn per_million(parts: u32) -> (p: Probability)
        requires
            parts <= MILLION,
        ensures
            p.numerator == parts,
            p.denominator == MILLION,
            p.wf(),
    {
        Probability { numerator: parts, denominator: MILLION }
    }
}

} // verus!
