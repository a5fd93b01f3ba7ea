//! Elements and their physical and chemical properties.
//!
//! A density is a whole number of units of 10 mg/m³, so 100 000 units are
//! one kilogram per cubic metre; a probability carried by an element is a
//! whole number of parts per million.

use crate::probability::{Probability, MILLION};
use vstd::prelude::*;

verus! {

/// Density units in one kilogram per cubic metre.
pub const DENSITY_UNITS_PER_KG: u32 = 100_000;

/// The density of the air that fills empty cells (1.2754 kg/m³).
pub const AIR_DENSITY: u32 = 127_540;

/// The largest density an element may have (10 000 kg/m³).
pub const MAX_DENSITY: u32 = 1_000_000_000;

/// The density difference (3000 kg/m³) from which on nothing spreads.
pub const SPREAD_RANGE: u32 = 300_000_000;

/// The denominator of every spread probability: the spread range over 0.3.
pub const SPREAD_SCALE: u32 = 1_000_000_000;

/// A flame decays with a chance of one in this many per tick.
pub const FLAME_DECAY_PROB: u32 = 10;

/// The physical category of an element.
#[derive(Copy, Clone, PartialEq, Eq, Debug, Default, Structural)]
pub enum ElementKind {
    #[default]
    Empty,
    Solid,
    /// A powder falls, piles up and sinks in anything lighter.
    Powder { density: u32 },
    /// A liquid falls, levels out and can be displaced by what is denser.
    Liquid { density: u32 },
    /// A gas moves against gravity when it is lighter than air.
    Gas { density: u32 },
}

/// Whether, and how, an element catches fire.
#[derive(Copy, Clone, PartialEq, Eq, Debug, Default, Structural)]
pub enum Flammability {
    #[default]
    NotFlammable,
    Flammable {
        /// Chance, in parts per million, of igniting when touched by a flame.
        prob: u32,
        /// The burning particle decays with a chance of one in this many.
        decay_prob: u32,
        /// Chance, in parts per million, that the burning particle spawns a flame.
        flame_spawn_prob: u32,
    },
}

/// What one cell of the grid holds.
#[derive(Copy, Clone, PartialEq, Eq, Debug, Structural)]
pub enum Element {
    /// The empty cell, filled with air.
    Empty,
    BrickWall,
    Wood,
    Sand,
    Salt,
    Dust,
    WetDust,
    Ash,
    ColdLava,
    Water,
    SaltWater,
    Gasoline,
    Lava,
    WaterSource,
    GasolineSource,
    FireSource,
    Volcano,
    Sink,
    Steam,
    Hydrogen,
    Methane,
    HydrogenBurner,
    MethaneBurner,
    Flame,
    /// An element on fire. It keeps the kind of what it was, decays with a
    /// chance of one in `decay_prob`, spawns flames with a chance of
    /// `flame_spawn_prob` parts per million, and may leave ash behind.
    BurningParticle {
        burned_element_kind: ElementKind,
        decay_prob: u32,
        flame_spawn_prob: u32,
        spawns_ash: bool,
    },
}

impl ElementKind {
    /// A kind is valid when its density is within the supported range.
    pub open spec fn wf(&self) -> bool {
        match self {
            ElementKind::Empty => true,
            ElementKind::Solid => true,
            ElementKind::Powder { density } => *density <= MAX_DENSITY,
            ElementKind::Liquid { density } => *density <= MAX_DENSITY,
            ElementKind::Gas { density } => *density <= MAX_DENSITY,
        }
    }

    /// The density by which this kind takes part in spreading: that of air
    /// for the empty kind, none for solids.
    pub open spec fn spread_density(&self) -> Option<u32> {
        match self {
            ElementKind::Empty => Some(AIR_DENSITY),
            ElementKind::Solid => None,
            ElementKind::Powder { density } => Some(*density),
            ElementKind::Liquid { density } => Some(*density),
            ElementKind::Gas { density } => Some(*density),
        }
    }

    /// Whether a kind would pass [`ElementKind::wf`].
    pub fn is_valid(&self) -> (ok: bool)
        ensures
            ok == self.wf(),
    {
        match self {
            ElementKind::Empty => true,
            ElementKind::Solid => true,
            ElementKind::Powder { density } => *density <= MAX_DENSITY,
            ElementKind::Liquid { density } => *density <= MAX_DENSITY,
            ElementKind::Gas { density } => *density <= MAX_DENSITY,
        }
    }

    /// The four kinds under which the picker groups its elements, and the
    /// empty kind, each with density zero.
    pub fn all() -> (kinds: Vec<ElementKind>)
        ensures
            kinds@ == seq![
                ElementKind::Empty,
                ElementKind::Solid,
                (ElementKind::Powder { density: 0 }),
                (ElementKind::Liquid { density: 0 }),
                (ElementKind::Gas { density: 0 }),
            ],
    {
        vec![
            ElementKind::Empty,
            ElementKind::Solid,
            ElementKind::Powder { density: 0 },
            ElementKind::Liquid { density: 0 },
            ElementKind::Gas { density: 0 },
        ]
    }
}

impl Flammability {
    /// The probabilities of a flammable element are probabilities, and its
    /// burning particle can decay.
    pub open spec fn wf(&self) -> bool {
        match self {
            Flammability::NotFlammable => true,
            Flammability::Flammable { prob, decay_prob, flame_spawn_prob } => {
                &&& *prob <= MILLION
                &&& 1 <= *decay_prob
                &&& *flame_spawn_prob <= MILLION
            },
        }
    }
}

impl Element {
    /// An element is valid when the burning particle's payload is: a valid
    /// kind, a decay chance of one in at least one, and a spawn probability
    /// of at most a million parts per million.
    pub open spec fn wf(&self) -> bool {
        match self {
            Element::BurningParticle {
                burned_element_kind,
                decay_prob,
                flame_spawn_prob,
                spawns_ash,
            } => {
                &&& burned_element_kind.wf()
                &&& 1 <= *decay_prob
                &&& *flame_spawn_prob <= MILLION
            },
            _ => true,
        }
    }

    /// Whether an element would pass [`Element::wf`].
    pub fn is_valid(&self) -> (ok: bool)
        ensures
            ok == self.wf(),
    {
        match self {
            Element::BurningParticle { burned_element_kind, decay_prob, flame_spawn_prob, .. } => {
                burned_element_kind.is_valid() && 1 <= *decay_prob && *flame_spawn_prob <= MILLION
            },
            _ => true,
        }
    }

    /// The element kind and the density that goes with it.
    pub open spec fn spec_kind(&self) -> ElementKind {
        match self {
            Element::Empty => ElementKind::Empty,
            Element::BrickWall => ElementKind::Solid,
            Element::Wood => ElementKind::Solid,
            Element::Sand => ElementKind::Powder { density: 170_000_000 },
            Element::Salt => ElementKind::Powder { density: 217_000_000 },
            Element::Dust => ElementKind::Powder { density: 300_000 },
            Element::WetDust => ElementKind::Powder { density: 103_500_000 },
            Element::Ash => ElementKind::Powder { density: 64_000_000 },
            Element::ColdLava => ElementKind::Powder { density: 280_000_000 },
            Element::Water => ElementKind::Liquid { density: 99_700_000 },
            Element::SaltWater => ElementKind::Liquid { density: 102_700_000 },
            Element::Gasoline => ElementKind::Liquid { density: 73_700_000 },
            Element::Lava => ElementKind::Liquid { density: 310_000_000 },
            Element::WaterSource => ElementKind::Solid,
            Element::GasolineSource => ElementKind::Solid,
            Element::FireSource => ElementKind::Solid,
            Element::Volcano => ElementKind::Solid,
            Element::Sink => ElementKind::Solid,
            Element::Steam => ElementKind::Gas { density: 60_000 },
            Element::Hydrogen => ElementKind::Gas { density: 8_988 },
            Element::Methane => ElementKind::Gas { density: 65_700 },
            Element::HydrogenBurner => ElementKind::Solid,
            Element::MethaneBurner => ElementKind::Solid,
            Element::Flame => ElementKind::Gas { density: 10_000 },
            Element::BurningParticle { burned_element_kind, .. } => *burned_element_kind,
        }
    }

    /// The element kind and the density that goes with it.
    #[verifier::when_used_as_spec(spec_kind)]
    pub fn kind(&self) -> (kind: ElementKind)
        ensures
            kind == self.spec_kind(),
            self.wf() ==> kind.wf(),
    {
        match self {
            Element::Empty => ElementKind::Empty,
            Element::BrickWall => ElementKind::Solid,
            Element::Wood => ElementKind::Solid,
            Element::Sand => ElementKind::Powder { density: 170_000_000 },
            Element::Salt => ElementKind::Powder { density: 217_000_000 },
            Element::Dust => ElementKind::Powder { density: 300_000 },
            Element::WetDust => ElementKind::Powder { density: 103_500_000 },
            Element::Ash => ElementKind::Powder { density: 64_000_000 },
            Element::ColdLava => ElementKind::Powder { density: 280_000_000 },
            Element::Water => ElementKind::Liquid { density: 99_700_000 },
            Element::SaltWater => ElementKind::Liquid { density: 102_700_000 },
            Element::Gasoline => ElementKind::Liquid { density: 73_700_000 },
            Element::Lava => ElementKind::Liquid { density: 310_000_000 },
            Element::WaterSource => ElementKind::Solid,
            Element::GasolineSource => ElementKind::Solid,
            Element::FireSource => ElementKind::Solid,
            Element::Volcano => ElementKind::Solid,
            Element::Sink => ElementKind::Solid,
            Element::Steam => ElementKind::Gas { density: 60_000 },
            Element::Hydrogen => ElementKind::Gas { density: 8_988 },
            Element::Methane => ElementKind::Gas { density: 65_700 },
            Element::HydrogenBurner => ElementKind::Solid,
            Element::MethaneBurner => ElementKind::Solid,
            Element::Flame => ElementKind::Gas { density: 10_000 },
            Element::BurningParticle { burned_element_kind, .. } => *burned_element_kind,
        }
    }

    /// The flammability of the elements that can burn.
    pub open spec fn spec_flammability(&self) -> Flammability {
        match self {
            Element::Wood => Flammability::Flammable {
                prob: 2_500,
                decay_prob: 1000,
                flame_spawn_prob: 50_000,
            },
            Element::Dust => Flammability::Flammable {
                prob: 750_000,
                decay_prob: 25,
                flame_spawn_prob: 50_000,
            },
            Element::Gasoline => Flammability::Flammable {
                prob: 450_000,
                decay_prob: 65,
                flame_spawn_prob: 120_000,
            },
            Element::Hydrogen => Flammability::Flammable {
                prob: 980_000,
                decay_prob: 2,
                flame_spawn_prob: 950_000,
            },
            Element::Methane => Flammability::Flammable {
                prob: 120_000,
                decay_prob: 8,
                flame_spawn_prob: 620_000,
            },
            _ => Flammability::NotFlammable,
        }
    }

    /// The flammability of the elements that can burn.
    #[verifier::when_used_as_spec(spec_flammability)]
    pub fn flammability(&self) -> (flammability: Flammability)
        ensures
            flammability == self.spec_flammability(),
            flammability.wf(),
    {
        match self {
            Element::Empty => Flammability::NotFlammable,
            Element::BrickWall => Flammability::NotFlammable,
            Element::Wood => Flammability::Flammable {
                prob: 2_500,
                decay_prob: 1000,
                flame_spawn_prob: 50_000,
            },
            Element::Sand => Flammability::NotFlammable,
            Element::Salt => Flammability::NotFlammable,
            Element::Dust => Flammability::Flammable {
                prob: 750_000,
                decay_prob: 25,
                flame_spawn_prob: 50_000,
            },
            Element::WetDust => Flammability::NotFlammable,
            Element::Ash => Flammability::NotFlammable,
            Element::ColdLava => Flammability::NotFlammable,
            Element::Water => Flammability::NotFlammable,
            Element::SaltWater => Flammability::NotFlammable,
            Element::Gasoline => Flammability::Flammable {
                prob: 450_000,
                decay_prob: 65,
                flame_spawn_prob: 120_000,
            },
            Element::Lava => Flammability::NotFlammable,
            Element::WaterSource => Flammability::NotFlammable,
            Element::GasolineSource => Flammability::NotFlammable,
            Element::FireSource => Flammability::NotFlammable,
            Element::Volcano => Flammability::NotFlammable,
            Element::Sink => Flammability::NotFlammable,
            Element::Steam => Flammability::NotFlammable,
            Element::Hydrogen => Flammability::Flammable {
                prob: 980_000,
                decay_prob: 2,
                flame_spawn_prob: 950_000,
            },
            Element::Methane => Flammability::Flammable {
                prob: 120_000,
                decay_prob: 8,
                flame_spawn_prob: 620_000,
            },
            Element::HydrogenBurner => Flammability::NotFlammable,
            Element::MethaneBurner => Flammability::NotFlammable,
            Element::Flame => Flammability::NotFlammable,
            Element::BurningParticle { .. } => Flammability::NotFlammable,
        }
    }

    /// The density of what has one: powders, liquids and gases.
    pub open spec fn spec_density(&self) -> Option<u32> {
        match self.spec_kind() {
            ElementKind::Empty => None,
            ElementKind::Solid => None,
            ElementKind::Powder { density } => Some(density),
            ElementKind::Liquid { density } => Some(density),
            ElementKind::Gas { density } => Some(density),
        }
    }

    /// The density of what has one: powders, liquids and gases.
    #[verifier::when_used_as_spec(spec_density)]
    pub fn density(&self) -> (density: Option<u32>)
        ensures
            density == self.spec_density(),
            self.wf() ==> (density matches Some(d) ==> d <= MAX_DENSITY),
    {
        match self.kind() {
            ElementKind::Empty => None,
            ElementKind::Solid => None,
            ElementKind::Powder { density } => Some(density),
            ElementKind::Liquid { density } => Some(density),
            ElementKind::Gas { density } => Some(density),
        }
    }

    /// Whether the element is a liquid or a gas: only those give way to a
    /// denser neighbour.
    pub open spec fn spec_is_liquid_or_gas(&self) -> bool {
        self.spec_kind() is Liquid || self.spec_kind() is Gas
    }

    /// Whether the element is a liquid or a gas: only those give way to a
    /// denser neighbour.
    #[verifier::when_used_as_spec(spec_is_liquid_or_gas)]
    pub fn is_liquid_or_gas(&self) -> (fluid: bool)
        ensures
            fluid == self.spec_is_liquid_or_gas(),
    {
        match self.kind() {
            ElementKind::Empty => false,
            ElementKind::Solid => false,
            ElementKind::Powder { .. } => false,
            ElementKind::Liquid { .. } => true,
            ElementKind::Gas { .. } => true,
        }
    }

    /// Whether the element's kind is the given one, whatever the densities.
    pub open spec fn spec_is_kind_of(&self, kind: &ElementKind) -> bool {
        match self.spec_kind() {
            ElementKind::Empty => *kind is Empty,
            ElementKind::Solid => *kind is Solid,
            ElementKind::Powder { .. } => *kind is Powder,
            ElementKind::Liquid { .. } => *kind is Liquid,
            ElementKind::Gas { .. } => *kind is Gas,
        }
    }

    /// Whether the element's kind is the given one, whatever the densities.
    #[verifier::when_used_as_spec(spec_is_kind_of)]
    pub fn is_kind_of(&self, kind: &ElementKind) -> (same: bool)
        ensures
            same == self.spec_is_kind_of(kind),
    {
        match self.kind() {
            ElementKind::Empty => matches!(kind, ElementKind::Empty),
            ElementKind::Solid => matches!(kind, ElementKind::Solid),
            ElementKind::Powder { .. } => matches!(kind, ElementKind::Powder { .. }),
            ElementKind::Liquid { .. } => matches!(kind, ElementKind::Liquid { .. }),
            ElementKind::Gas { .. } => matches!(kind, ElementKind::Gas { .. }),
        }
    }

    /// The chance that the element decays in one tick: one in
    /// [`FLAME_DECAY_PROB`] for a flame, one in its own `decay_prob` for a
    /// burning particle, none for anything else.
    pub open spec fn spec_decay_prob(&self) -> Option<Probability> {
        match self {
            Element::Flame => Some(Probability { numerator: 1, denominator: FLAME_DECAY_PROB }),
            Element::BurningParticle { decay_prob, .. } => Some(
                Probability { numerator: 1, denominator: *decay_prob },
            ),
            _ => None,
        }
    }

    /// The chance that the element decays in one tick.
    #[verifier::when_used_as_spec(spec_decay_prob)]
    pub fn decay_prob(&self) -> (chance: Option<Probability>)
        ensures
            chance == self.spec_decay_prob(),
            self.wf() ==> (chance matches Some(p) ==> p.wf()),
    {
        match self {
            Element::Flame => Some(Probability { numerator: 1, denominator: FLAME_DECAY_PROB }),
            Element::BurningParticle { decay_prob, .. } => Some(
                Probability { numerator: 1, denominator: *decay_prob },
            ),
            _ => None,
        }
    }

    /// What is left when the element has decayed: ash where a burning
    /// particle recorded that it leaves ash, nothing otherwise.
    pub open spec fn spec_decays_to(&self) -> Option<Element> {
        match self {
            Element::BurningParticle { spawns_ash, .. } => if *spawns_ash {
                Some(Element::Ash)
            } else {
                None
            },
            _ => None,
        }
    }

    /// What is left when the element has decayed.
    #[verifier::when_used_as_spec(spec_decays_to)]
    pub fn decays_to(&self) -> (rest: Option<Element>)
        ensures
            rest == self.spec_decays_to(),
    {
        match self {
            Element::BurningParticle { spawns_ash, .. } => if *spawns_ash {
                Some(Element::Ash)
            } else {
                None
            },
            _ => None,
        }
    }

    /// The gap between the densities by which two elements spread, none
    /// where one of them is solid.
    pub open spec fn density_gap(&self, environment: &Element) -> Option<int> {
        match (self.spec_kind().spread_density(), environment.spec_kind().spread_density()) {
            (Some(mine), Some(theirs)) => Some(
                if mine <= theirs {
                    theirs - mine
                } else {
                    mine - theirs
                },
            ),
            _ => None,
        }
    }

    /// The probability that the element spreads instead of moving into
    /// `environment`: `max(0, (1 - gap / 3000 kg/m³) * 0.3)`, and zero where
    /// one of the two is solid.
    pub open spec fn spec_spread_prob(&self, environment: &Element) -> Probability {
        match self.density_gap(environment) {
            Some(gap) => Probability {
                numerator: if gap >= SPREAD_RANGE {
                    0u32
                } else {
                    (SPREAD_RANGE - gap) as u32
                },
                denominator: SPREAD_SCALE,
            },
            None => Probability { numerator: 0, denominator: SPREAD_SCALE },
        }
    }

    /// The probability that the element spreads instead of moving into
    /// `environment`.
    #[verifier::when_used_as_spec(spec_spread_prob)]
    pub fn spread_prob(&self, environment: &Element) -> (chance: Probability)
        ensures
            chance == self.spec_spread_prob(environment),
            chance.wf(),
    {
        let displaced_density: u32 = match environment.kind() {
            ElementKind::Empty => AIR_DENSITY,
            ElementKind::Solid => {
                return Probability { numerator: 0, denominator: SPREAD_SCALE };
            },
            ElementKind::Powder { density } => density,
            ElementKind::Liquid { density } => density,
            ElementKind::Gas { density } => density,
        };
        let own_density: u32 = match self.kind() {
            ElementKind::Empty => AIR_DENSITY,
            ElementKind::Solid => {
                return Probability { numerator: 0, denominator: SPREAD_SCALE };
            },
            ElementKind::Powder { density } => density,
            ElementKind::Liquid { density } => density,
            ElementKind::Gas { density } => density,
        };
        let density_diff: u32 = if own_density <= displaced_density {
            displaced_density - own_density
        } else {
            own_density - displaced_density
        };
        let numerator: u32 = if density_diff >= SPREAD_RANGE {
            0
        } else {
            SPREAD_RANGE - density_diff
        };
        Probability { numerator, denominator: SPREAD_SCALE }
    }

    /// Half the spread probability: the chance to skip a move to the side.
    pub open spec fn spec_spread_side_prob(&self, environment: &Element) -> Probability {
        Probability {
            numerator: self.spec_spread_prob(environment).numerator,
            denominator: 2_000_000_000,
        }
    }

    /// Half the spread probability: the chance to skip a move to the side.
    #[verifier::when_used_as_spec(spec_spread_side_prob)]
    pub fn spread_side_prob(&self, environment: &Element) -> (chance: Probability)
        ensures
            chance == self.spec_spread_side_prob(environment),
            chance.wf(),
            chance.is_ratio(
                self.spec_spread_prob(environment).numerator as int,
                2 * self.spec_spread_prob(environment).denominator,
            ),
    {
        let spread = self.spread_prob(environment);
        Probability { numerator: spread.numerator, denominator: 2_000_000_000 }
    }
}

impl Element {
    /// The name under which the element is shown.
    pub open spec fn label_text(&self) -> Seq<char> {
        match self {
            Element::Empty => "Air"@,
            Element::BrickWall => "Wall"@,
            Element::Wood => "Wood"@,
            Element::Sand => "Sand"@,
            Element::Salt => "Salt"@,
            Element::Dust => "Dust"@,
            Element::WetDust => "Wet Dust"@,
            Element::Ash => "Ash"@,
            Element::ColdLava => "Cold Lava"@,
            Element::Water => "Water"@,
            Element::SaltWater => "Saltwater"@,
            Element::Gasoline => "Gasoline"@,
            Element::Lava => "Lava"@,
            Element::WaterSource => "Water Source"@,
            Element::GasolineSource => "Gas Station"@,
            Element::FireSource => "Fire Source"@,
            Element::Volcano => "Volcano"@,
            Element::Sink => "Sink"@,
            Element::Steam => "Steam"@,
            Element::Hydrogen => "Hydrogen"@,
            Element::Methane => "Methane"@,
            Element::HydrogenBurner => "Hydrogen Burner"@,
            Element::MethaneBurner => "Methane Burner"@,
            Element::Flame => "Fire"@,
            Element::BurningParticle { .. } => "INVALID"@,
        }
    }

    /// The name under which the element is shown.
    pub fn label(&self) -> (name: &'static str)
        ensures
            name@ == self.label_text(),
    {
        match self {
            Element::Empty => "Air",
            Element::BrickWall => "Wall",
            Element::Wood => "Wood",
            Element::Sand => "Sand",
            Element::Salt => "Salt",
            Element::Dust => "Dust",
            Element::WetDust => "Wet Dust",
            Element::Ash => "Ash",
            Element::ColdLava => "Cold Lava",
            Element::Water => "Water",
            Element::SaltWater => "Saltwater",
            Element::Gasoline => "Gasoline",
            Element::Lava => "Lava",
            Element::WaterSource => "Water Source",
            Element::GasolineSource => "Gas Station",
            Element::FireSource => "Fire Source",
            Element::Volcano => "Volcano",
            Element::Sink => "Sink",
            Element::Steam => "Steam",
            Element::Hydrogen => "Hydrogen",
            Element::Methane => "Methane",
            Element::HydrogenBurner => "Hydrogen Burner",
            Element::MethaneBurner => "Methane Burner",
            Element::Flame => "Fire",
            Element::BurningParticle { .. } => "INVALID",
        }
    }

    /// What the tooltip says of the element.
    pub open spec fn description_text(&self) -> Seq<char> {
        match self {
            Element::Empty => "Nothing but air. Use it to erase."@,
            Element::BrickWall => "A solid wall that nothing moves or burns."@,
            Element::Wood => "A solid that catches fire slowly, burns for long and leaves ash."@,
            Element::Sand => "A powder that piles up and sinks in liquids."@,
            Element::Salt => "A heavy powder that dissolves in water."@,
            Element::Dust => "A very light powder that burns well and soaks up water."@,
            Element::WetDust => "Dust that has soaked up water. It smothers flames."@,
            Element::Ash => "What wood leaves when it has burned."@,
            Element::ColdLava => "Lava that has cooled down to rock."@,
            Element::Water => "A liquid that puts out fire and boils on hot surfaces."@,
            Element::SaltWater => "Water with salt in it, a little heavier than water."@,
            Element::Gasoline => "A light liquid that burns fiercely."@,
            Element::Lava => "Molten rock that sets things on fire and cools in water."@,
            Element::WaterSource => "A solid that keeps spilling water."@,
            Element::GasolineSource => "A solid that keeps spilling gasoline."@,
            Element::FireSource => "A hot solid that keeps spawning flames."@,
            Element::Volcano => "A very hot solid that emits flames and lava."@,
            Element::Sink => "A solid that swallows whatever touches it."@,
            Element::Steam => "Hot water vapour that rises and condenses again."@,
            Element::Hydrogen => "The lightest gas. It burns in an instant."@,
            Element::Methane => "A light gas that burns."@,
            Element::HydrogenBurner => "A solid that keeps releasing hydrogen."@,
            Element::MethaneBurner => "A solid that keeps releasing methane."@,
            Element::Flame => "A flame that rises, sets things on fire and dies down."@,
            Element::BurningParticle { .. } => "Something on fire."@,
        }
    }

    /// What the tooltip says of the element.
    pub fn ui_description(&self) -> (text: &'static str)
        ensures
            text@ == self.description_text(),
    {
        match self {
            Element::Empty => "Nothing but air. Use it to erase.",
            Element::BrickWall => "A solid wall that nothing moves or burns.",
            Element::Wood => "A solid that catches fire slowly, burns for long and leaves ash.",
            Element::Sand => "A powder that piles up and sinks in liquids.",
            Element::Salt => "A heavy powder that dissolves in water.",
            Element::Dust => "A very light powder that burns well and soaks up water.",
            Element::WetDust => "Dust that has soaked up water. It smothers flames.",
            Element::Ash => "What wood leaves when it has burned.",
            Element::ColdLava => "Lava that has cooled down to rock.",
            Element::Water => "A liquid that puts out fire and boils on hot surfaces.",
            Element::SaltWater => "Water with salt in it, a little heavier than water.",
            Element::Gasoline => "A light liquid that burns fiercely.",
            Element::Lava => "Molten rock that sets things on fire and cools in water.",
            Element::WaterSource => "A solid that keeps spilling water.",
            Element::GasolineSource => "A solid that keeps spilling gasoline.",
            Element::FireSource => "A hot solid that keeps spawning flames.",
            Element::Volcano => "A very hot solid that emits flames and lava.",
            Element::Sink => "A solid that swallows whatever touches it.",
            Element::Steam => "Hot water vapour that rises and condenses again.",
            Element::Hydrogen => "The lightest gas. It burns in an instant.",
            Element::Methane => "A light gas that burns.",
            Element::HydrogenBurner => "A solid that keeps releasing hydrogen.",
            Element::MethaneBurner => "A solid that keeps releasing methane.",
            Element::Flame => "A flame that rises, sets things on fire and dies down.",
            Element::BurningParticle { .. } => "Something on fire.",
        }
    }

    /// Whether the picker offers the element: all but the burning particle,
    /// which only fire brings about.
    pub fn show_in_ui(&self) -> (shown: bool)
        ensures
            shown == !(*self is BurningParticle),
    {
        !matches!(self, Element::BurningParticle { .. })
    }

    /// Whether the tooltip shows the element's density: where it has one
    /// and is not itself fire.
    pub fn show_density(&self) -> (shown: bool)
        ensures
            shown == (self.spec_density() is Some && !(*self is Flame) && !(
            *self is BurningParticle)),
    {
        self.density().is_some() && !matches!(self, Element::Flame) && !matches!(
            self,
            Element::BurningParticle { .. }
        )
    }

    /// The elements without a payload, in the order of their declaration.
    pub fn all() -> (elements: Vec<Element>)
        ensures
            elements@ == seq![
                Element::Empty,
                Element::BrickWall,
                Element::Wood,
                Element::Sand,
                Element::Salt,
                Element::Dust,
                Element::WetDust,
                Element::Ash,
                Element::ColdLava,
                Element::Water,
                Element::SaltWater,
                Element::Gasoline,
                Element::Lava,
                Element::WaterSource,
                Element::GasolineSource,
                Element::FireSource,
                Element::Volcano,
                Element::Sink,
                Element::Steam,
                Element::Hydrogen,
                Element::Methane,
                Element::HydrogenBurner,
                Element::MethaneBurner,
                Element::Flame,
            ],
            forall|i: int| 0 <= i < elements@.len() ==> (#[trigger] elements@[i]).wf(),
    {
        vec![
            Element::Empty,
            Element::BrickWall,
            Element::Wood,
            Element::Sand,
            Element::Salt,
            Element::Dust,
            Element::WetDust,
            Element::Ash,
            Element::ColdLava,
            Element::Water,
            Element::SaltWater,
            Element::Gasoline,
            Element::Lava,
            Element::WaterSource,
            Element::GasolineSource,
            Element::FireSource,
            Element::Volcano,
            Element::Sink,
            Element::Steam,
            Element::Hydrogen,
            Element::Methane,
            Element::HydrogenBurner,
            Element::MethaneBurner,
            Element::Flame,
        ]
    }
}

/// The spread probability is capped at 0.3, which it reaches where the two
/// densities are equal, and never falls below zero.
pub proof fn lemma_spread_prob_bounds(a: Element, b: Element)
    ensures
        0 <= a.spec_spread_prob(&b).numerator <= SPREAD_RANGE,
        a.spec_spread_prob(&b).denominator == SPREAD_SCALE,
        a.spec_spread_prob(&b).at_most(Probability { numerator: 3, denominator: 10 }),
        a.density_gap(&b) == Some(0int) ==> a.spec_spread_prob(&b).is_ratio(3, 10),
        a.density_gap(&b) matches Some(gap) ==> (gap >= SPREAD_RANGE ==> a.spec_spread_prob(
            &b,
        ).is_never()),
{
}

/// The spread probability falls as the density gap grows: of two pairs of
/// elements without a solid, the pair with the smaller gap spreads at least
/// as readily as the other.
pub proof fn lemma_spread_prob_monotone(a: Element, b: Element, c: Element, d: Element)
    requires
        a.density_gap(&b) is Some,
        c.density_gap(&d) is Some,
        a.density_gap(&b).unwrap() <= c.density_gap(&d).unwrap(),
    ensures
        c.spec_spread_prob(&d).at_most(a.spec_spread_prob(&b)),
        c.spec_spread_prob(&d).numerator <= a.spec_spread_prob(&b).numerator,
        c.spec_spread_side_prob(&d).at_most(a.spec_spread_side_prob(&b)),
{
    let near = a.spec_spread_prob(&b).numerator as int;
    let far = c.spec_spread_prob(&d).numerator as int;
    assert(far <= near);
    assert(far * 1_000_000_000 <= near * 1_000_000_000);
    assert(far * 2_000_000_000 <= near * 2_000_000_000);
}

/// Beyond equal gaps the order is strict as long as the smaller gap is
/// inside the spread range.
pub proof fn lemma_spread_prob_strict(a: Element, b: Element, c: Element, d: Element)
    requires
        a.density_gap(&b) is Some,
        c.density_gap(&d) is Some,
        a.density_gap(&b).unwrap() < c.density_gap(&d).unwrap(),
        a.density_gap(&b).unwrap() < SPREAD_RANGE,
    ensures
        c.spec_spread_prob(&d).numerator < a.spec_spread_prob(&b).numerator,
{
}

} // verus!
