//! Chemistry: the table of reactions between a cell and a neighbour, and
//! the decay and transmutation of single cells.

use crate::element::{Element, ElementKind, Flammability};
use crate::probability::{Probability, MILLION};
use crate::random::{choose_candidate, draw_ratio};
use crate::world::grid::{lemma_put_same, put};
use crate::world::rules::{decay_outcome, ProbeDraw, ReactionDraws};
use crate::world::GameWorld;
use rand_xorshift::XorShiftRng;
use vstd::prelude::*;

verus! {

/// Chance, in parts per million, that a liquid source fills an empty neighbour.
pub const LIQUID_SOURCE_SPAWN_PROBABILITY: u32 = 15_000;

/// Chance, in parts per million, that a gas burner fills an empty neighbour.
pub const GAS_SOURCE_SPAWN_PROBABILITY: u32 = 25_000;

/// What happens between an element `a` and a neighbour `b`.
#[allow(inconsistent_fields)]
pub enum Transmutation {
    /// The two do not react.
    NoReaction,
    /// With the given probability `a` turns into `outcome_a` and `b` into
    /// `outcome_b`, or into the empty element where there is none.
    WithProbability {
        probability: Probability,
        outcome_a: Option<Element>,
        outcome_b: Option<Element>,
    },
    /// As before, but `a` turns into one of several candidates, each as
    /// likely as the others.
    WithProbabilityOfMultipleA {
        probability: Probability,
        outcome_a: Vec<Element>,
        outcome_b: Option<Element>,
    },
    /// As before, but `b` turns into one of several candidates, each as
    /// likely as the others.
    WithProbabilityOfMultipleB {
        probability: Probability,
        outcome_b: Vec<Element>,
        outcome_a: Option<Element>,
    },
}

/// A reaction as a mathematical value: a [`Transmutation`] with its
/// candidate lists as sequences.
#[allow(inconsistent_fields)]
pub enum Reaction {
    NoReaction,
    WithProbability {
        probability: Probability,
        outcome_a: Option<Element>,
        outcome_b: Option<Element>,
    },
    WithProbabilityOfMultipleA {
        probability: Probability,
        outcome_a: Seq<Element>,
        outcome_b: Option<Element>,
    },
    WithProbabilityOfMultipleB {
        probability: Probability,
        outcome_b: Seq<Element>,
        outcome_a: Option<Element>,
    },
}

impl View for Transmutation {
    type V = Reaction;

    open spec fn view(&self) -> Reaction {
        match self {
            Transmutation::NoReaction => Reaction::NoReaction,
            Transmutation::WithProbability { probability, outcome_a, outcome_b } => {
                Reaction::WithProbability {
                    probability: *probability,
                    outcome_a: *outcome_a,
                    outcome_b: *outcome_b,
                }
            },
            Transmutation::WithProbabilityOfMultipleA { probability, outcome_a, outcome_b } => {
                Reaction::WithProbabilityOfMultipleA {
                    probability: *probability,
                    outcome_a: outcome_a@,
                    outcome_b: *outcome_b,
                }
            },
            Transmutation::WithProbabilityOfMultipleB { probability, outcome_b, outcome_a } => {
                Reaction::WithProbabilityOfMultipleB {
                    probability: *probability,
                    outcome_b: outcome_b@,
                    outcome_a: *outcome_a,
                }
            },
        }
    }
}

/// The element, or the empty one where there is none.
pub open spec fn or_empty(outcome: Option<Element>) -> Element {
    match outcome {
        Some(element) => element,
        None => Element::Empty,
    }
}

/// The candidate that the pick names: the one at that place in the list,
/// at the nearest end of the list where the pick lies outside it, and the
/// empty element where the list is empty.
pub open spec fn candidate(candidates: Seq<Element>, pick: int) -> Element {
    if candidates.len() == 0 {
        Element::Empty
    } else if pick < 0 {
        candidates[0]
    } else if pick >= candidates.len() {
        candidates[candidates.len() - 1]
    } else {
        candidates[pick]
    }
}

impl Reaction {
    /// The probability with which the reaction fires, if there is one.
    pub open spec fn probability(self) -> Option<Probability> {
        match self {
            Reaction::NoReaction => None,
            Reaction::WithProbability { probability, .. } => Some(probability),
            Reaction::WithProbabilityOfMultipleA { probability, .. } => Some(probability),
            Reaction::WithProbabilityOfMultipleB { probability, .. } => Some(probability),
        }
    }

    /// Every probability is one, and every element that can come out is valid.
    pub open spec fn wf(self) -> bool {
        match self {
            Reaction::NoReaction => true,
            Reaction::WithProbability { probability, outcome_a, outcome_b } => {
                &&& probability.wf()
                &&& or_empty(outcome_a).wf()
                &&& or_empty(outcome_b).wf()
            },
            Reaction::WithProbabilityOfMultipleA { probability, outcome_a, outcome_b } => {
                &&& probability.wf()
                &&& forall|i: int| 0 <= i < outcome_a.len() ==> (#[trigger] outcome_a[i]).wf()
                &&& or_empty(outcome_b).wf()
            },
            Reaction::WithProbabilityOfMultipleB { probability, outcome_b, outcome_a } => {
                &&& probability.wf()
                &&& forall|i: int| 0 <= i < outcome_b.len() ==> (#[trigger] outcome_b[i]).wf()
                &&& or_empty(outcome_a).wf()
            },
        }
    }

    /// Whether the reaction fires, given what the random source answered.
    pub open spec fn fires(self, answer: bool) -> bool {
        match self.probability() {
            Some(probability) => probability.settle(answer),
            None => false,
        }
    }

    /// What `a` and `b` are after the reaction had its chance: unchanged
    /// unless it fired, else the outcomes, with `picked` standing for the
    /// candidate that was chosen where there are several.
    pub open spec fn outcome(self, a: Element, b: Element, answer: bool, picked: Element) -> (
        Element,
        Element,
    ) {
        if !self.fires(answer) {
            (a, b)
        } else {
            match self {
                Reaction::NoReaction => (a, b),
                Reaction::WithProbability { outcome_a, outcome_b, .. } => (
                    or_empty(outcome_a),
                    or_empty(outcome_b),
                ),
                Reaction::WithProbabilityOfMultipleA { outcome_b, .. } => (
                    picked,
                    or_empty(outcome_b),
                ),
                Reaction::WithProbabilityOfMultipleB { outcome_a, .. } => (
                    or_empty(outcome_a),
                    picked,
                ),
            }
        }
    }

    /// The candidates one of which is chosen, where the reaction has several.
    pub open spec fn candidates(self) -> Seq<Element> {
        match self {
            Reaction::WithProbabilityOfMultipleA { outcome_a, .. } => outcome_a,
            Reaction::WithProbabilityOfMultipleB { outcome_b, .. } => outcome_b,
            _ => Seq::empty(),
        }
    }

    /// What `a` and `b` are after the reaction had its chance, given the
    /// answer to the draw and the number that chose among the candidates.
    pub open spec fn outcome_at(self, a: Element, b: Element, answer: bool, pick: int) -> (
        Element,
        Element,
    ) {
        self.outcome(a, b, answer, candidate(self.candidates(), pick))
    }
}

/// A reaction with a probability given in parts per million and one
/// outcome on each side.
pub open spec fn fixed(
    parts: u32,
    outcome_a: Option<Element>,
    outcome_b: Option<Element>,
) -> Reaction {
    Reaction::WithProbability {
        probability: Probability { numerator: parts, denominator: MILLION },
        outcome_a,
        outcome_b,
    }
}

/// The burning particle that a flammable element turns into: it keeps the
/// element's kind, decay rate and flame rate, and leaves ash if it was wood.
pub open spec fn ignited(fuel: Element) -> Element {
    match fuel.spec_flammability() {
        Flammability::Flammable { prob, decay_prob, flame_spawn_prob } => Element::BurningParticle {
            burned_element_kind: fuel.spec_kind(),
            decay_prob,
            flame_spawn_prob,
            spawns_ash: fuel == Element::Wood,
        },
        Flammability::NotFlammable => fuel,
    }
}

/// The ignition of `fuel` by a neighbour that becomes `igniter` (or stays
/// empty): no reaction unless the fuel is flammable, else the fuel turns
/// into its burning particle, with the fuel's ignition probability times
/// `factor / divisor`, capped at one.
pub open spec fn ignition(
    fuel: Element,
    igniter: Option<Element>,
    factor: int,
    divisor: int,
) -> Reaction {
    match fuel.spec_flammability() {
        Flammability::Flammable { prob, decay_prob, flame_spawn_prob } => {
            Reaction::WithProbability {
                probability: Probability {
                    numerator: if prob * factor >= MILLION * divisor {
                        (MILLION * divisor) as u32
                    } else {
                        (prob * factor) as u32
                    },
                    denominator: (MILLION * divisor) as u32,
                },
                outcome_a: igniter,
                outcome_b: Some(ignited(fuel)),
            }
        },
        Flammability::NotFlammable => Reaction::NoReaction,
    }
}

/// The table of reactions: what `a` does to its neighbour `b`.
pub open spec fn reaction(a: Element, b: Element) -> Reaction {
    match (a, b) {
        // Salt dissolves in water.
        (Element::Salt, Element::Water) => fixed(50_000, None, Some(Element::SaltWater)),
        // Water puts out fire and turns to steam on it.
        (Element::Water, Element::Flame) => fixed(100_000, None, Some(Element::Steam)),
        (Element::Water, Element::BurningParticle { flame_spawn_prob, .. }) => {
            Reaction::WithProbability {
                probability: Probability {
                    numerator: (MILLION - flame_spawn_prob) as u32,
                    denominator: 10_000_000,
                },
                outcome_a: None,
                outcome_b: Some(Element::Steam),
            }
        },
        // Water boils on hot surfaces.
        (Element::Water, Element::FireSource) => fixed(
            10_000,
            Some(Element::Steam),
            Some(Element::FireSource),
        ),
        (Element::Water, Element::Volcano) => fixed(
            100_000,
            Some(Element::Steam),
            Some(Element::Volcano),
        ),
        // So does salt water, and leaves its salt.
        (Element::SaltWater, Element::Flame) => fixed(
            100_000,
            Some(Element::Salt),
            Some(Element::Steam),
        ),
        (Element::SaltWater, Element::FireSource) => Reaction::WithProbabilityOfMultipleA {
            probability: Probability { numerator: 10_000, denominator: MILLION },
            outcome_a: seq![Element::Steam, Element::Salt],
            outcome_b: Some(Element::FireSource),
        },
        (Element::SaltWater, Element::Volcano) => Reaction::WithProbabilityOfMultipleA {
            probability: Probability { numerator: 100_000, denominator: MILLION },
            outcome_a: seq![Element::Steam, Element::Salt],
            outcome_b: Some(Element::Volcano),
        },
        // Sources fill the empty cells beside them.
        (Element::WaterSource, Element::Empty) => fixed(
            LIQUID_SOURCE_SPAWN_PROBABILITY,
            Some(Element::WaterSource),
            Some(Element::Water),
        ),
        (Element::GasolineSource, Element::Empty) => fixed(
            LIQUID_SOURCE_SPAWN_PROBABILITY,
            Some(Element::GasolineSource),
            Some(Element::Gasoline),
        ),
        (Element::HydrogenBurner, Element::Empty) => fixed(
            GAS_SOURCE_SPAWN_PROBABILITY,
            Some(Element::HydrogenBurner),
            Some(Element::Hydrogen),
        ),
        (Element::MethaneBurner, Element::Empty) => fixed(
            GAS_SOURCE_SPAWN_PROBABILITY,
            Some(Element::MethaneBurner),
            Some(Element::Methane),
        ),
        (Element::FireSource, Element::Empty) => fixed(
            85_000,
            Some(Element::FireSource),
            Some(Element::Flame),
        ),
        // A volcano emits flames and, more rarely, lava, and sets fire to
        // what burns one and a half times as readily as a flame does.
        (Element::Volcano, Element::Empty) | (Element::Volcano, Element::Flame) => {
            Reaction::WithProbabilityOfMultipleB {
                probability: Probability { numerator: 4_000, denominator: MILLION },
                outcome_a: Some(Element::Volcano),
                outcome_b: seq![Element::Flame, Element::Flame, Element::Flame, Element::Lava],
            }
        },
        (Element::Volcano, fuel) => ignition(fuel, Some(Element::Volcano), 3, 2),
        // Steam condenses, rarely in the air and more often on solids.
        (Element::Steam, Element::Empty) => fixed(50, Some(Element::Water), None),
        (Element::Steam, wall) => if wall.spec_kind() is Solid {
            fixed(1_000, Some(Element::Water), Some(wall))
        } else {
            Reaction::NoReaction
        },
        // Dust soaks up water.
        (Element::Dust, Element::Water) => fixed(5_000, Some(Element::WetDust), None),
        (Element::Dust, Element::SaltWater) => fixed(
            5_000,
            Some(Element::Salt),
            Some(Element::WetDust),
        ),
        // Wet dust bleeds water, smothers flames and dries on hot surfaces.
        (Element::WetDust, Element::Empty) => fixed(
            1_000,
            Some(Element::Dust),
            Some(Element::Water),
        ),
        (Element::WetDust, Element::Flame) => fixed(50_000, Some(Element::WetDust), None),
        (Element::WetDust, Element::FireSource) => Reaction::WithProbabilityOfMultipleA {
            probability: Probability { numerator: 10_000, denominator: MILLION },
            outcome_a: seq![Element::Dust, Element::Steam],
            outcome_b: Some(Element::FireSource),
        },
        (Element::WetDust, Element::Volcano) => Reaction::WithProbabilityOfMultipleA {
            probability: Probability { numerator: 40_000, denominator: MILLION },
            outcome_a: seq![Element::Dust, Element::Steam],
            outcome_b: Some(Element::Volcano),
        },
        // A flame sets fire to what burns and is used up by it.
        (Element::Flame, fuel) => ignition(fuel, None, 1, 1),
        // A burning particle spawns flames and sets fire to what burns,
        // half as readily as a flame does.
        (Element::BurningParticle { flame_spawn_prob, .. }, Element::Empty) => {
            Reaction::WithProbability {
                probability: Probability { numerator: flame_spawn_prob, denominator: MILLION },
                outcome_a: Some(a),
                outcome_b: Some(Element::Flame),
            }
        },
        (Element::BurningParticle { .. }, fuel) => ignition(fuel, Some(a), 1, 2),
        // Ash burns away in flames and dissolves in water.
        (Element::Ash, Element::Flame) => fixed(100_000, None, Some(Element::Flame)),
        (Element::Ash, Element::Water) => fixed(1_000, None, Some(Element::Water)),
        (Element::Ash, Element::SaltWater) => fixed(1_000, None, Some(Element::SaltWater)),
        // A sink swallows whatever is neither solid nor empty.
        (Element::Sink, prey) => if prey.spec_kind() is Empty || prey.spec_kind() is Solid {
            Reaction::NoReaction
        } else {
            fixed(300_000, Some(Element::Sink), None)
        },
        // Lava turns water to steam and mostly cools on it, rarely emits
        // flames, and sets fire to what burns a tenth as readily as a flame.
        (Element::Lava, Element::Water) => Reaction::WithProbabilityOfMultipleA {
            probability: Probability { numerator: 500_000, denominator: MILLION },
            outcome_a: seq![Element::Lava, Element::ColdLava, Element::ColdLava],
            outcome_b: Some(Element::Steam),
        },
        (Element::Lava, Element::SaltWater) => Reaction::WithProbabilityOfMultipleA {
            probability: Probability { numerator: 500_000, denominator: MILLION },
            outcome_a: seq![Element::Lava, Element::ColdLava, Element::ColdLava, Element::Salt],
            outcome_b: Some(Element::Steam),
        },
        (Element::Lava, Element::Empty) => fixed(500, Some(Element::Lava), Some(Element::Flame)),
        (Element::Lava, fuel) => ignition(fuel, Some(Element::Lava), 1, 10),
        _ => Reaction::NoReaction,
    }
}

/// The burning particle that a flammable element with the given rates turns
/// into.
fn burning(fuel: &Element, decay_prob: u32, flame_spawn_prob: u32) -> (particle: Element)
    ensures
        particle == (Element::BurningParticle {
            burned_element_kind: fuel.spec_kind(),
            decay_prob,
            flame_spawn_prob,
            spawns_ash: *fuel == Element::Wood,
        }),
{
    Element::BurningParticle {
        burned_element_kind: fuel.kind(),
        decay_prob,
        flame_spawn_prob,
        spawns_ash: matches!(fuel, Element::Wood),
    }
}

/// A reaction with a probability given in parts per million and one
/// outcome on each side.
fn with_probability(parts: u32, outcome_a: Option<Element>, outcome_b: Option<Element>) -> (t:
    Transmutation)
    ensures
        t@ == fixed(parts, outcome_a, outcome_b),
{
    Transmutation::WithProbability {
        probability: Probability { numerator: parts, denominator: MILLION },
        outcome_a,
        outcome_b,
    }
}

/// Given adjacent elements `a` and `b`: can `a` transmute `b`, with which
/// probability, and into what?
pub fn can_transmute(a: &Element, b: &Element) -> (t: Transmutation)
    requires
        a.wf(),
        b.wf(),
    ensures
        t@ == reaction(*a, *b),
        t@.wf(),
{
    match a {
        Element::Empty => Transmutation::NoReaction,
        Element::BrickWall => Transmutation::NoReaction,
        Element::Wood => Transmutation::NoReaction,
        Element::Sand => Transmutation::NoReaction,
        Element::Salt => match b {
            Element::Water => with_probability(50_000, None, Some(Element::SaltWater)),
            _ => Transmutation::NoReaction,
        },
        Element::Water => match b {
            Element::Flame => with_probability(100_000, None, Some(Element::Steam)),
            Element::BurningParticle { flame_spawn_prob, .. } => Transmutation::WithProbability {
                probability: Probability {
                    numerator: MILLION - *flame_spawn_prob,
                    denominator: 10_000_000,
                },
                outcome_a: None,
                outcome_b: Some(Element::Steam),
            },
            Element::FireSource => with_probability(
                10_000,
                Some(Element::Steam),
                Some(Element::FireSource),
            ),
            Element::Volcano => with_probability(
                100_000,
                Some(Element::Steam),
                Some(Element::Volcano),
            ),
            _ => Transmutation::NoReaction,
        },
        Element::SaltWater => match b {
            Element::Flame => with_probability(
                100_000,
                Some(Element::Salt),
                Some(Element::Steam),
            ),
            Element::FireSource => Transmutation::WithProbabilityOfMultipleA {
                probability: Probability { numerator: 10_000, denominator: MILLION },
                outcome_a: vec![Element::Steam, Element::Salt],
                outcome_b: Some(Element::FireSource),
            },
            Element::Volcano => Transmutation::WithProbabilityOfMultipleA {
                probability: Probability { numerator: 100_000, denominator: MILLION },
                outcome_a: vec![Element::Steam, Element::Salt],
                outcome_b: Some(Element::Volcano),
            },
            _ => Transmutation::NoReaction,
        },
        Element::WaterSource => match b {
            Element::Empty => with_probability(
                LIQUID_SOURCE_SPAWN_PROBABILITY,
                Some(Element::WaterSource),
                Some(Element::Water),
            ),
            _ => Transmutation::NoReaction,
        },
        Element::GasolineSource => match b {
            Element::Empty => with_probability(
                LIQUID_SOURCE_SPAWN_PROBABILITY,
                Some(Element::GasolineSource),
                Some(Element::Gasoline),
            ),
            _ => Transmutation::NoReaction,
        },
        Element::HydrogenBurner => match b {
            Element::Empty => with_probability(
                GAS_SOURCE_SPAWN_PROBABILITY,
                Some(Element::HydrogenBurner),
                Some(Element::Hydrogen),
            ),
            _ => Transmutation::NoReaction,
        },
        Element::MethaneBurner => match b {
            Element::Empty => with_probability(
                GAS_SOURCE_SPAWN_PROBABILITY,
                Some(Element::MethaneBurner),
                Some(Element::Methane),
            ),
            _ => Transmutation::NoReaction,
        },
        Element::FireSource => match b {
            Element::Empty => with_probability(
                85_000,
                Some(Element::FireSource),
                Some(Element::Flame),
            ),
            _ => Transmutation::NoReaction,
        },
        Element::Volcano => match b {
            Element::Empty | Element::Flame => Transmutation::WithProbabilityOfMultipleB {
                probability: Probability { numerator: 4_000, denominator: MILLION },
                outcome_a: Some(Element::Volcano),
                outcome_b: vec![Element::Flame, Element::Flame, Element::Flame, Element::Lava],
            },
            e => match e.flammability() {
                Flammability::NotFlammable => Transmutation::NoReaction,
                Flammability::Flammable { prob, decay_prob, flame_spawn_prob } => {
                    let tripled: u32 = prob * 3;
                    Transmutation::WithProbability {
                        probability: Probability {
                            numerator: if tripled >= 2 * MILLION {
                                2 * MILLION
                            } else {
                                tripled
                            },
                            denominator: 2 * MILLION,
                        },
                        outcome_a: Some(*a),
                        outcome_b: Some(burning(b, decay_prob, flame_spawn_prob)),
                    }
                },
            },
        },
        Element::Hydrogen => Transmutation::NoReaction,
        Element::Steam => match b {
            Element::Empty => with_probability(50, Some(Element::Water), None),
            e => if matches!(e.kind(), ElementKind::Solid) {
                with_probability(1_000, Some(Element::Water), Some(*e))
            } else {
                Transmutation::NoReaction
            },
        },
        Element::Dust => match b {
            Element::Water => with_probability(5_000, Some(Element::WetDust), None),
            Element::SaltWater => with_probability(
                5_000,
                Some(Element::Salt),
                Some(Element::WetDust),
            ),
            _ => Transmutation::NoReaction,
        },
        Element::WetDust => match b {
            Element::Empty => with_probability(1_000, Some(Element::Dust), Some(Element::Water)),
            Element::Flame => with_probability(50_000, Some(Element::WetDust), None),
            Element::FireSource => Transmutation::WithProbabilityOfMultipleA {
                probability: Probability { numerator: 10_000, denominator: MILLION },
                outcome_a: vec![Element::Dust, Element::Steam],
                outcome_b: Some(Element::FireSource),
            },
            Element::Volcano => Transmutation::WithProbabilityOfMultipleA {
                probability: Probability { numerator: 40_000, denominator: MILLION },
                outcome_a: vec![Element::Dust, Element::Steam],
                outcome_b: Some(Element::Volcano),
            },
            _ => Transmutation::NoReaction,
        },
        Element::Flame => match b.flammability() {
            Flammability::NotFlammable => Transmutation::NoReaction,
            Flammability::Flammable { prob, decay_prob, flame_spawn_prob } => {
                Transmutation::WithProbability {
                    probability: Probability { numerator: prob, denominator: MILLION },
                    outcome_a: None,
                    outcome_b: Some(burning(b, decay_prob, flame_spawn_prob)),
                }
            },
        },
        Element::BurningParticle { flame_spawn_prob, .. } => match b {
            Element::Empty => Transmutation::WithProbability {
                probability: Probability { numerator: *flame_spawn_prob, denominator: MILLION },
                outcome_a: Some(*a),
                outcome_b: Some(Element::Flame),
            },
            e => match e.flammability() {
                Flammability::NotFlammable => Transmutation::NoReaction,
                Flammability::Flammable { prob, decay_prob, flame_spawn_prob } => {
                    Transmutation::WithProbability {
                        probability: Probability { numerator: prob, denominator: 2 * MILLION },
                        outcome_a: Some(*a),
                        outcome_b: Some(burning(b, decay_prob, flame_spawn_prob)),
                    }
                },
            },
        },
        Element::Gasoline => Transmutation::NoReaction,
        Element::Methane => Transmutation::NoReaction,
        Element::Ash => match b {
            Element::Flame => with_probability(100_000, None, Some(Element::Flame)),
            Element::Water => with_probability(1_000, None, Some(*b)),
            Element::SaltWater => with_probability(1_000, None, Some(*b)),
            _ => Transmutation::NoReaction,
        },
        Element::Sink => match b.kind() {
            ElementKind::Empty => Transmutation::NoReaction,
            ElementKind::Solid => Transmutation::NoReaction,
            _ => with_probability(300_000, Some(Element::Sink), None),
        },
        Element::ColdLava => Transmutation::NoReaction,
        Element::Lava => match b {
            Element::Water => Transmutation::WithProbabilityOfMultipleA {
                probability: Probability { numerator: 500_000, denominator: MILLION },
                outcome_a: vec![Element::Lava, Element::ColdLava, Element::ColdLava],
                outcome_b: Some(Element::Steam),
            },
            Element::SaltWater => Transmutation::WithProbabilityOfMultipleA {
                probability: Probability { numerator: 500_000, denominator: MILLION },
                outcome_a: vec![
                    Element::Lava,
                    Element::ColdLava,
                    Element::ColdLava,
                    Element::Salt,
                ],
                outcome_b: Some(Element::Steam),
            },
            Element::Empty => with_probability(500, Some(*a), Some(Element::Flame)),
            e => match e.flammability() {
                Flammability::NotFlammable => Transmutation::NoReaction,
                Flammability::Flammable { prob, decay_prob, flame_spawn_prob } => {
                    Transmutation::WithProbability {
                        probability: Probability { numerator: prob, denominator: 10 * MILLION },
                        outcome_a: Some(*a),
                        outcome_b: Some(burning(b, decay_prob, flame_spawn_prob)),
                    }
                },
            },
        },
    }
}

/// The element, or the empty one where there is none.
pub fn unwrap_or_empty(outcome: Option<Element>) -> (element: Element)
    ensures
        element == or_empty(outcome),
{
    match outcome {
        Some(element) => element,
        None => Element::Empty,
    }
}

impl Transmutation {
    /// The probability with which the reaction fires, if there is one.
    pub fn probability(&self) -> (chance: Option<Probability>)
        ensures
            chance == self@.probability(),
    {
        match self {
            Transmutation::NoReaction => None,
            Transmutation::WithProbability { probability, .. } => Some(*probability),
            Transmutation::WithProbabilityOfMultipleA { probability, .. } => Some(*probability),
            Transmutation::WithProbabilityOfMultipleB { probability, .. } => Some(*probability),
        }
    }

    /// What `a` and `b` are after the reaction had its chance, given the
    /// answer of the draw and the candidate that was picked, where the
    /// reaction has several and the draw was made.
    pub fn outcome(
        &self,
        a: Element,
        b: Element,
        answer: bool,
        picked: Option<Element>,
    ) -> (after: (Element, Element))
        ensures
            after == self@.outcome(a, b, answer, or_empty(picked)),
    {
        let fires = match self.probability() {
            None => false,
            Some(chance) => chance.settle(answer),
        };
        if !fires {
            (a, b)
        } else {
            match self {
                Transmutation::NoReaction => (a, b),
                Transmutation::WithProbability { outcome_a, outcome_b, .. } => (
                    unwrap_or_empty(*outcome_a),
                    unwrap_or_empty(*outcome_b),
                ),
                Transmutation::WithProbabilityOfMultipleA { outcome_b, .. } => (
                    unwrap_or_empty(picked),
                    unwrap_or_empty(*outcome_b),
                ),
                Transmutation::WithProbabilityOfMultipleB { outcome_a, .. } => (
                    unwrap_or_empty(*outcome_a),
                    unwrap_or_empty(picked),
                ),
            }
        }
    }

    /// Draws the candidate that comes out, where the reaction has several.
    fn pick(&self, rng: &mut XorShiftRng) -> (picked: Option<Element>)
        requires
            self@.wf(),
        ensures
            exists|pick: int| or_empty(picked) == #[trigger] candidate(self@.candidates(), pick),
            or_empty(picked).wf(),
    {
        match self {
            Transmutation::WithProbabilityOfMultipleA { outcome_a, .. } => {
                let picked = choose_candidate(rng, outcome_a);
                proof {
                    lemma_candidate_drawn(outcome_a@, picked);
                }
                picked
            },
            Transmutation::WithProbabilityOfMultipleB { outcome_b, .. } => {
                let picked = choose_candidate(rng, outcome_b);
                proof {
                    lemma_candidate_drawn(outcome_b@, picked);
                }
                picked
            },
            _ => {
                assert(Element::Empty == candidate(self@.candidates(), 0));
                None
            },
        }
    }
}

/// What was drawn from a list of candidates is the candidate at some index.
proof fn lemma_candidate_drawn(candidates: Seq<Element>, picked: Option<Element>)
    requires
        candidates.len() == 0 ==> picked is None,
        candidates.len() > 0 ==> picked is Some && candidates.contains(picked.unwrap()),
    ensures
        exists|pick: int| or_empty(picked) == #[trigger] candidate(candidates, pick),
{
    if candidates.len() == 0 {
        assert(or_empty(picked) == candidate(candidates, 0));
    } else {
        let index = choose|i: int| 0 <= i < candidates.len() && candidates[i] == picked.unwrap();
        assert(or_empty(picked) == candidate(candidates, index));
    }
}

/// What an element is after it had its chance to decay, given the answer
/// of the draw: what it decays to if it can decay and the draw fires, else
/// itself.
pub fn decayed(element: &Element, answer: bool) -> (after: Element)
    ensures
        after == decay_outcome(*element, answer),
{
    match element.decay_prob() {
        Some(chance) => if chance.settle(answer) {
            unwrap_or_empty(element.decays_to())
        } else {
            *element
        },
        None => *element,
    }
}

impl GameWorld {
    /// Gives the element in `(x, y)` its chance to decay: where it can
    /// decay, a draw with its decay probability decides; the rest is
    /// [`decayed`].
    pub fn decay(&mut self, x: usize, y: usize, rng: &mut XorShiftRng)
        requires
            old(self).wf(),
            old(self)@.in_viewport(x as int, y as int),
        ensures
            final(self).wf(),
            final(self).pending() == old(self).pending(),
            exists|answer: bool|
                final(self)@ == old(self)@.with_cells(
                    put(
                        old(self)@.cells,
                        x as int,
                        y as int,
                        #[trigger] decay_outcome(old(self)@.at(x as int, y as int), answer),
                    ),
                ),
    {
        let ghost world = self@;
        proof {
            world.lemma_viewport_on_board(x as int, y as int);
            lemma_put_same(world.cells, x as int, y as int);
        }
        let element = self.at(x, y);
        if let Some(chance) = element.decay_prob() {
            let answer = draw_ratio(rng, chance);
            if answer {
                self.set_cell(x, y, decayed(&element, answer));
            }
            assert(self@ == world.with_cells(
                put(
                    world.cells,
                    x as int,
                    y as int,
                    decay_outcome(world.at(x as int, y as int), answer),
                ),
            ));
        } else {
            assert(self@ == world.with_cells(
                put(
                    world.cells,
                    x as int,
                    y as int,
                    decay_outcome(world.at(x as int, y as int), false),
                ),
            ));
        }
    }

    /// Gives the element in `(x, y)` its chance to react with its neighbour
    /// in `(to_x, to_y)`.
    pub fn probe(&mut self, x: usize, y: usize, to_x: usize, to_y: usize, rng: &mut XorShiftRng)
        requires
            old(self).wf(),
            old(self)@.in_viewport(x as int, y as int),
            old(self)@.in_viewport(to_x as int, to_y as int),
        ensures
            final(self).wf(),
            final(self).pending() == old(self).pending(),
            exists|draw: ProbeDraw|
                final(self)@ == #[trigger] old(self)@.probed(
                    x as int,
                    y as int,
                    to_x as int,
                    to_y as int,
                    draw,
                ),
    {
        let ghost world = self@;
        proof {
            world.lemma_viewport_on_board(x as int, y as int);
            world.lemma_viewport_on_board(to_x as int, to_y as int);
            lemma_put_same(world.cells, x as int, y as int);
            lemma_put_same(world.cells, to_x as int, to_y as int);
        }
        let a = self.at(x, y);
        let b = self.at(to_x, to_y);
        let transmutation = can_transmute(&a, &b);
        match transmutation.probability() {
            None => {
                assert(self@ == world.probed(
                    x as int,
                    y as int,
                    to_x as int,
                    to_y as int,
                    ProbeDraw { answer: false, pick: 0 },
                ));
            },
            Some(chance) => {
                let answer = draw_ratio(rng, chance);
                if answer {
                    let picked = transmutation.pick(rng);
                    let after = transmutation.outcome(a, b, answer, picked);
                    let ghost pick = choose|pick: int|
                        or_empty(picked) == #[trigger] candidate(transmutation@.candidates(), pick);
                    self.set_cell(x, y, after.0);
                    self.set_cell(to_x, to_y, after.1);
                    assert(self@ == world.probed(
                        x as int,
                        y as int,
                        to_x as int,
                        to_y as int,
                        ProbeDraw { answer, pick },
                    ));
                } else {
                    assert(self@ == world.probed(
                        x as int,
                        y as int,
                        to_x as int,
                        to_y as int,
                        ProbeDraw { answer, pick: 0 },
                    ));
                }
            },
        }
    }

    /// Gives the element in `(x, y)` its chance to react with each of its
    /// neighbours in the viewport: first the one above, then the one to the
    /// left, the one to the right and the one below.
    pub fn transmute(&mut self, x: usize, y: usize, rng: &mut XorShiftRng)
        requires
            old(self).wf(),
            old(self)@.in_viewport(x as int, y as int),
        ensures
            final(self).wf(),
            final(self).pending() == old(self).pending(),
            exists|draws: ReactionDraws|
                final(self)@ == #[trigger] old(self)@.transmuted_cell(x as int, y as int, draws),
    {
        let ghost world = self@;
        let ghost idle = ProbeDraw { answer: false, pick: 0 };
        let height = self.viewport_height();
        let width = self.viewport_width();
        let ghost mut top = idle;
        if y > 0 {
            self.probe(x, y, x, y - 1, rng);
            proof {
                top = choose|draw: ProbeDraw|
                    self@ == #[trigger] world.probed(x as int, y as int, x as int, y - 1, draw);
            }
        }
        let ghost after_top = self@;
        let ghost mut left = idle;
        if x > 0 {
            self.probe(x, y, x - 1, y, rng);
            proof {
                left = choose|draw: ProbeDraw|
                    self@ == #[trigger] after_top.probed(x as int, y as int, x - 1, y as int, draw);
            }
        }
        let ghost after_left = self@;
        let ghost mut right = idle;
        if x + 1 < width {
            self.probe(x, y, x + 1, y, rng);
            proof {
                right = choose|draw: ProbeDraw|
                    self@ == #[trigger] after_left.probed(
                        x as int,
                        y as int,
                        x + 1,
                        y as int,
                        draw,
                    );
            }
        }
        let ghost after_right = self@;
        let ghost mut bottom = idle;
        if y + 1 < height {
            self.probe(x, y, x, y + 1, rng);
            proof {
                bottom = choose|draw: ProbeDraw|
                    self@ == #[trigger] after_right.probed(
                        x as int,
                        y as int,
                        x as int,
                        y + 1,
                        draw,
                    );
            }
        }
        assert(self@ == world.transmuted_cell(
            x as int,
            y as int,
            ReactionDraws { top, left, right, bottom },
        ));
    }
}

} // verus!
