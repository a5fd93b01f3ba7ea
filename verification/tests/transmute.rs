use sandbox::element::{Element, ElementKind};
use sandbox::probability::Probability;
use sandbox::world::transmute::{can_transmute, unwrap_or_empty, Transmutation};

fn parts(probability: Probability) -> f64 {
    probability.numerator as f64 / probability.denominator as f64
}

fn fixed(a: Element, b: Element) -> (f64, Option<Element>, Option<Element>) {
    match can_transmute(&a, &b) {
        Transmutation::WithProbability { probability, outcome_a, outcome_b } => {
            (parts(probability), outcome_a, outcome_b)
        },
        _ => panic!("{:?} and {:?} have no simple reaction", a, b),
    }
}

fn inert(a: Element, b: Element) -> bool {
    matches!(can_transmute(&a, &b), Transmutation::NoReaction)
}

fn ember(flame_spawn_prob: u32) -> Element {
    Element::BurningParticle {
        burned_element_kind: ElementKind::Powder { density: 300_000 },
        decay_prob: 25,
        flame_spawn_prob,
        spawns_ash: false,
    }
}

fn close(a: f64, b: f64) -> bool {
    (a - b).abs() < 1e-12
}

#[test]
fn salt_dissolves_in_water() {
    let (p, a, b) = fixed(Element::Salt, Element::Water);
    assert!(close(p, 0.05));
    assert_eq!(a, None);
    assert_eq!(b, Some(Element::SaltWater));
    assert!(inert(Element::Water, Element::Salt));
    assert!(inert(Element::Salt, Element::SaltWater));
}

#[test]
fn water_puts_out_fire() {
    let (p, a, b) = fixed(Element::Water, Element::Flame);
    assert!(close(p, 0.1));
    assert_eq!((a, b), (None, Some(Element::Steam)));
    let (p, a, b) = fixed(Element::Water, ember(50_000));
    assert!(close(p, 0.095));
    assert_eq!((a, b), (None, Some(Element::Steam)));
    let (p, _, _) = fixed(Element::Water, ember(1_000_000));
    assert_eq!(p, 0.0);
    let (p, a, b) = fixed(Element::SaltWater, Element::Flame);
    assert!(close(p, 0.1));
    assert_eq!((a, b), (Some(Element::Salt), Some(Element::Steam)));
}

#[test]
fn water_boils_on_hot_surfaces() {
    let (p, a, b) = fixed(Element::Water, Element::FireSource);
    assert!(close(p, 0.01));
    assert_eq!((a, b), (Some(Element::Steam), Some(Element::FireSource)));
    let (p, a, b) = fixed(Element::Water, Element::Volcano);
    assert!(close(p, 0.1));
    assert_eq!((a, b), (Some(Element::Steam), Some(Element::Volcano)));
    match can_transmute(&Element::SaltWater, &Element::FireSource) {
        Transmutation::WithProbabilityOfMultipleA { probability, outcome_a, outcome_b } => {
            assert!(close(parts(probability), 0.01));
            assert_eq!(outcome_a, vec![Element::Steam, Element::Salt]);
            assert_eq!(outcome_b, Some(Element::FireSource));
        },
        _ => panic!("salt water boils on a fire source"),
    }
    match can_transmute(&Element::SaltWater, &Element::Volcano) {
        Transmutation::WithProbabilityOfMultipleA { probability, outcome_a, outcome_b } => {
            assert!(close(parts(probability), 0.1));
            assert_eq!(outcome_a, vec![Element::Steam, Element::Salt]);
            assert_eq!(outcome_b, Some(Element::Volcano));
        },
        _ => panic!("salt water boils on a volcano"),
    }
}

#[test]
fn sources_fill_empty_neighbours() {
    let (p, a, b) = fixed(Element::WaterSource, Element::Empty);
    assert!(close(p, 0.015));
    assert_eq!((a, b), (Some(Element::WaterSource), Some(Element::Water)));
    let (p, a, b) = fixed(Element::GasolineSource, Element::Empty);
    assert!(close(p, 0.015));
    assert_eq!((a, b), (Some(Element::GasolineSource), Some(Element::Gasoline)));
    let (p, a, b) = fixed(Element::HydrogenBurner, Element::Empty);
    assert!(close(p, 0.025));
    assert_eq!((a, b), (Some(Element::HydrogenBurner), Some(Element::Hydrogen)));
    let (p, a, b) = fixed(Element::MethaneBurner, Element::Empty);
    assert!(close(p, 0.025));
    assert_eq!((a, b), (Some(Element::MethaneBurner), Some(Element::Methane)));
    let (p, a, b) = fixed(Element::FireSource, Element::Empty);
    assert!(close(p, 0.085));
    assert_eq!((a, b), (Some(Element::FireSource), Some(Element::Flame)));
    assert!(inert(Element::WaterSource, Element::Water));
    assert!(inert(Element::FireSource, Element::Wood));
}

#[test]
fn a_volcano_emits_and_ignites() {
    for b in [Element::Empty, Element::Flame] {
        match can_transmute(&Element::Volcano, &b) {
            Transmutation::WithProbabilityOfMultipleB { probability, outcome_b, outcome_a } => {
                assert!(close(parts(probability), 0.004));
                assert_eq!(outcome_a, Some(Element::Volcano));
                assert_eq!(
                    outcome_b,
                    vec![Element::Flame, Element::Flame, Element::Flame, Element::Lava]
                );
            },
            _ => panic!("a volcano emits into {:?}", b),
        }
    }
    let (p, a, b) = fixed(Element::Volcano, Element::Methane);
    assert!(close(p, 0.18));
    assert_eq!(a, Some(Element::Volcano));
    assert_eq!(
        b,
        Some(Element::BurningParticle {
            burned_element_kind: ElementKind::Gas { density: 65_700 },
            decay_prob: 8,
            flame_spawn_prob: 620_000,
            spawns_ash: false,
        })
    );
    // One and a half times 0.75 and 0.98 is capped at one.
    let (p, _, _) = fixed(Element::Volcano, Element::Dust);
    assert_eq!(p, 1.0);
    let (p, _, _) = fixed(Element::Volcano, Element::Hydrogen);
    assert_eq!(p, 1.0);
    let (p, _, b) = fixed(Element::Volcano, Element::Wood);
    assert!(close(p, 0.00375));
    assert_eq!(
        b,
        Some(Element::BurningParticle {
            burned_element_kind: ElementKind::Solid,
            decay_prob: 1000,
            flame_spawn_prob: 50_000,
            spawns_ash: true,
        })
    );
    assert!(inert(Element::Volcano, Element::Sand));
    assert!(inert(Element::Volcano, Element::Water));
}

#[test]
fn steam_condenses() {
    let (p, a, b) = fixed(Element::Steam, Element::Empty);
    assert!(close(p, 0.00005));
    assert_eq!((a, b), (Some(Element::Water), None));
    for wall in [Element::BrickWall, Element::Wood, Element::Sink, Element::FireSource] {
        let (p, a, b) = fixed(Element::Steam, wall);
        assert!(close(p, 0.001));
        assert_eq!((a, b), (Some(Element::Water), Some(wall)));
    }
    assert!(inert(Element::Steam, Element::Water));
    assert!(inert(Element::Steam, Element::Sand));
}

#[test]
fn dust_and_wet_dust() {
    let (p, a, b) = fixed(Element::Dust, Element::Water);
    assert!(close(p, 0.005));
    assert_eq!((a, b), (Some(Element::WetDust), None));
    let (p, a, b) = fixed(Element::Dust, Element::SaltWater);
    assert!(close(p, 0.005));
    assert_eq!((a, b), (Some(Element::Salt), Some(Element::WetDust)));
    let (p, a, b) = fixed(Element::WetDust, Element::Empty);
    assert!(close(p, 0.001));
    assert_eq!((a, b), (Some(Element::Dust), Some(Element::Water)));
    let (p, a, b) = fixed(Element::WetDust, Element::Flame);
    assert!(close(p, 0.05));
    assert_eq!((a, b), (Some(Element::WetDust), None));
    match can_transmute(&Element::WetDust, &Element::FireSource) {
        Transmutation::WithProbabilityOfMultipleA { probability, outcome_a, outcome_b } => {
            assert!(close(parts(probability), 0.01));
            assert_eq!(outcome_a, vec![Element::Dust, Element::Steam]);
            assert_eq!(outcome_b, Some(Element::FireSource));
        },
        _ => panic!("wet dust dries on a fire source"),
    }
    match can_transmute(&Element::WetDust, &Element::Volcano) {
        Transmutation::WithProbabilityOfMultipleA { probability, outcome_a, outcome_b } => {
            assert!(close(parts(probability), 0.04));
            assert_eq!(outcome_a, vec![Element::Dust, Element::Steam]);
            assert_eq!(outcome_b, Some(Element::Volcano));
        },
        _ => panic!("wet dust dries on a volcano"),
    }
}

#[test]
fn flames_and_embers_ignite_what_burns() {
    let (p, a, b) = fixed(Element::Flame, Element::Gasoline);
    assert!(close(p, 0.45));
    assert_eq!(a, None);
    assert_eq!(
        b,
        Some(Element::BurningParticle {
            burned_element_kind: ElementKind::Liquid { density: 73_700_000 },
            decay_prob: 65,
            flame_spawn_prob: 120_000,
            spawns_ash: false,
        })
    );
    let (p, _, b) = fixed(Element::Flame, Element::Wood);
    assert!(close(p, 0.0025));
    assert!(matches!(b, Some(Element::BurningParticle { spawns_ash: true, .. })));
    assert!(inert(Element::Flame, Element::Sand));
    assert!(inert(Element::Flame, Element::Empty));
    assert!(inert(Element::Flame, ember(1)));

    let burning = ember(50_000);
    let (p, a, b) = fixed(burning, Element::Empty);
    assert!(close(p, 0.05));
    assert_eq!((a, b), (Some(burning), Some(Element::Flame)));
    // An ember ignites half as readily as a flame.
    let (p, a, b) = fixed(burning, Element::Hydrogen);
    assert!(close(p, 0.49));
    assert_eq!(a, Some(burning));
    assert!(matches!(b, Some(Element::BurningParticle { decay_prob: 2, .. })));
    assert!(inert(burning, Element::Water));
    assert!(inert(burning, burning));
}

#[test]
fn ash_sink_and_lava() {
    let (p, a, b) = fixed(Element::Ash, Element::Flame);
    assert!(close(p, 0.1));
    assert_eq!((a, b), (None, Some(Element::Flame)));
    let (p, a, b) = fixed(Element::Ash, Element::Water);
    assert!(close(p, 0.001));
    assert_eq!((a, b), (None, Some(Element::Water)));
    let (p, a, b) = fixed(Element::Ash, Element::SaltWater);
    assert!(close(p, 0.001));
    assert_eq!((a, b), (None, Some(Element::SaltWater)));

    for prey in [Element::Sand, Element::Water, Element::Steam, Element::Flame, ember(3)] {
        let (p, a, b) = fixed(Element::Sink, prey);
        assert!(close(p, 0.3));
        assert_eq!((a, b), (Some(Element::Sink), None));
    }
    assert!(inert(Element::Sink, Element::Empty));
    assert!(inert(Element::Sink, Element::BrickWall));
    assert!(inert(Element::Sink, Element::Sink));

    match can_transmute(&Element::Lava, &Element::Water) {
        Transmutation::WithProbabilityOfMultipleA { probability, outcome_a, outcome_b } => {
            assert!(close(parts(probability), 0.5));
            assert_eq!(outcome_a, vec![Element::Lava, Element::ColdLava, Element::ColdLava]);
            assert_eq!(outcome_b, Some(Element::Steam));
        },
        _ => panic!("lava reacts with water"),
    }
    match can_transmute(&Element::Lava, &Element::SaltWater) {
        Transmutation::WithProbabilityOfMultipleA { probability, outcome_a, outcome_b } => {
            assert!(close(parts(probability), 0.5));
            assert_eq!(
                outcome_a,
                vec![Element::Lava, Element::ColdLava, Element::ColdLava, Element::Salt]
            );
            assert_eq!(outcome_b, Some(Element::Steam));
        },
        _ => panic!("lava reacts with salt water"),
    }
    let (p, a, b) = fixed(Element::Lava, Element::Empty);
    assert!(close(p, 0.0005));
    assert_eq!((a, b), (Some(Element::Lava), Some(Element::Flame)));
    let (p, a, _) = fixed(Element::Lava, Element::Dust);
    assert!(close(p, 0.075));
    assert_eq!(a, Some(Element::Lava));
    assert!(inert(Element::Lava, Element::Sand));
    assert!(inert(Element::ColdLava, Element::Water));
}

#[test]
fn what_does_not_react() {
    for a in [
        Element::Empty,
        Element::BrickWall,
        Element::Wood,
        Element::Sand,
        Element::Hydrogen,
        Element::Gasoline,
        Element::Methane,
        Element::ColdLava,
    ] {
        for b in Element::all() {
            assert!(inert(a, b), "{:?} reacts with {:?}", a, b);
        }
    }
}

#[test]
fn outcomes_of_a_reaction() {
    let reaction = can_transmute(&Element::Salt, &Element::Water);
    assert_eq!(
        reaction.outcome(Element::Salt, Element::Water, true, None),
        (Element::Empty, Element::SaltWater)
    );
    assert_eq!(
        reaction.outcome(Element::Salt, Element::Water, false, None),
        (Element::Salt, Element::Water)
    );
    let cooling = can_transmute(&Element::Lava, &Element::Water);
    assert_eq!(
        cooling.outcome(Element::Lava, Element::Water, true, Some(Element::ColdLava)),
        (Element::ColdLava, Element::Steam)
    );
    assert_eq!(
        cooling.outcome(Element::Lava, Element::Water, false, Some(Element::ColdLava)),
        (Element::Lava, Element::Water)
    );
    let eruption = can_transmute(&Element::Volcano, &Element::Empty);
    assert_eq!(
        eruption.outcome(Element::Volcano, Element::Empty, true, Some(Element::Lava)),
        (Element::Volcano, Element::Lava)
    );
    // A certain reaction fires whatever the answer, an impossible one never.
    let certain = can_transmute(&Element::Volcano, &Element::Dust);
    assert!(matches!(
        certain.outcome(Element::Volcano, Element::Dust, false, None),
        (Element::Volcano, Element::BurningParticle { .. })
    ));
    let impossible = can_transmute(&Element::Water, &ember(1_000_000));
    assert_eq!(
        impossible.outcome(Element::Water, ember(1_000_000), true, None),
        (Element::Water, ember(1_000_000))
    );
    let none = can_transmute(&Element::Sand, &Element::Water);
    assert_eq!(none.probability(), None);
    assert_eq!(
        none.outcome(Element::Sand, Element::Water, true, None),
        (Element::Sand, Element::Water)
    );
    assert_eq!(unwrap_or_empty(None), Element::Empty);
    assert_eq!(unwrap_or_empty(Some(Element::Ash)), Element::Ash);
}
