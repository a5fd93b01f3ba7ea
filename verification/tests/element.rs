use sandbox::colors::Rgba8888Color;
use sandbox::element::{
    Element, ElementKind, Flammability, AIR_DENSITY, DENSITY_UNITS_PER_KG, FLAME_DECAY_PROB,
    MAX_DENSITY,
};
use sandbox::probability::Probability;

fn ember(kind: ElementKind, spawns_ash: bool) -> Element {
    Element::BurningParticle {
        burned_element_kind: kind,
        decay_prob: 25,
        flame_spawn_prob: 50_000,
        spawns_ash,
    }
}

#[test]
fn densities_are_those_of_the_elements() {
    let unit = DENSITY_UNITS_PER_KG;
    assert_eq!(AIR_DENSITY, 127_540);
    assert_eq!(Element::Water.density(), Some(997 * unit));
    assert_eq!(Element::SaltWater.density(), Some(1027 * unit));
    assert_eq!(Element::Sand.density(), Some(1700 * unit));
    assert_eq!(Element::Salt.density(), Some(2170 * unit));
    assert_eq!(Element::Hydrogen.density(), Some(8_988));
    assert_eq!(Element::Steam.density(), Some(60_000));
    assert_eq!(Element::Methane.density(), Some(65_700));
    assert_eq!(Element::Dust.density(), Some(3 * unit));
    assert_eq!(Element::WetDust.density(), Some(1035 * unit));
    assert_eq!(Element::Flame.density(), Some(10_000));
    assert_eq!(Element::Gasoline.density(), Some(737 * unit));
    assert_eq!(Element::Empty.density(), None);
    assert_eq!(Element::BrickWall.density(), None);
    assert_eq!(Element::Volcano.density(), None);
}

#[test]
fn kinds_of_all_elements() {
    assert_eq!(Element::Empty.kind(), ElementKind::Empty);
    for solid in [
        Element::BrickWall,
        Element::Wood,
        Element::WaterSource,
        Element::GasolineSource,
        Element::FireSource,
        Element::Volcano,
        Element::Sink,
        Element::HydrogenBurner,
        Element::MethaneBurner,
    ] {
        assert_eq!(solid.kind(), ElementKind::Solid);
        assert!(!solid.is_liquid_or_gas());
    }
    for powder in [
        Element::Sand,
        Element::Salt,
        Element::Dust,
        Element::WetDust,
        Element::Ash,
        Element::ColdLava,
    ] {
        assert!(matches!(powder.kind(), ElementKind::Powder { .. }));
        assert!(!powder.is_liquid_or_gas());
        assert!(powder.is_kind_of(&ElementKind::Powder { density: 0 }));
        assert!(!powder.is_kind_of(&ElementKind::Liquid { density: 0 }));
    }
    for liquid in [Element::Water, Element::SaltWater, Element::Gasoline, Element::Lava] {
        assert!(matches!(liquid.kind(), ElementKind::Liquid { .. }));
        assert!(liquid.is_liquid_or_gas());
        assert!(liquid.is_kind_of(&ElementKind::Liquid { density: 7 }));
    }
    for gas in [Element::Steam, Element::Hydrogen, Element::Methane, Element::Flame] {
        assert!(matches!(gas.kind(), ElementKind::Gas { .. }));
        assert!(gas.is_liquid_or_gas());
        assert!(gas.is_kind_of(&ElementKind::Gas { density: 0 }));
        assert!(!gas.is_kind_of(&ElementKind::Solid));
    }
    assert!(Element::Empty.is_kind_of(&ElementKind::Empty));
    assert!(!Element::Empty.is_liquid_or_gas());
}

#[test]
fn a_burning_particle_keeps_the_kind_it_had() {
    let burning_liquid = ember(ElementKind::Liquid { density: 73_700_000 }, false);
    assert_eq!(burning_liquid.kind(), ElementKind::Liquid { density: 73_700_000 });
    assert_eq!(burning_liquid.density(), Some(73_700_000));
    assert!(burning_liquid.is_liquid_or_gas());
    let burning_wood = ember(ElementKind::Solid, true);
    assert_eq!(burning_wood.kind(), ElementKind::Solid);
    assert_eq!(burning_wood.density(), None);
    assert_eq!(burning_wood.flammability(), Flammability::NotFlammable);
}

#[test]
fn flammability_of_what_burns() {
    assert_eq!(
        Element::Dust.flammability(),
        Flammability::Flammable { prob: 750_000, decay_prob: 25, flame_spawn_prob: 50_000 }
    );
    assert_eq!(
        Element::Hydrogen.flammability(),
        Flammability::Flammable { prob: 980_000, decay_prob: 2, flame_spawn_prob: 950_000 }
    );
    assert_eq!(
        Element::Methane.flammability(),
        Flammability::Flammable { prob: 120_000, decay_prob: 8, flame_spawn_prob: 620_000 }
    );
    assert_eq!(
        Element::Gasoline.flammability(),
        Flammability::Flammable { prob: 450_000, decay_prob: 65, flame_spawn_prob: 120_000 }
    );
    assert_eq!(
        Element::Wood.flammability(),
        Flammability::Flammable { prob: 2_500, decay_prob: 1000, flame_spawn_prob: 50_000 }
    );
    for inert in [
        Element::Empty,
        Element::Sand,
        Element::Water,
        Element::Flame,
        Element::Lava,
        Element::Ash,
        Element::Sink,
        Element::WetDust,
    ] {
        assert_eq!(inert.flammability(), Flammability::NotFlammable);
    }
}

#[test]
fn only_fire_decays() {
    assert_eq!(FLAME_DECAY_PROB, 10);
    assert_eq!(Element::Flame.decay_prob(), Some(Probability { numerator: 1, denominator: 10 }));
    assert_eq!(
        ember(ElementKind::Solid, true).decay_prob(),
        Some(Probability { numerator: 1, denominator: 25 })
    );
    assert_eq!(Element::Sand.decay_prob(), None);
    assert_eq!(Element::Lava.decay_prob(), None);
    assert_eq!(Element::Flame.decays_to(), None);
    assert_eq!(ember(ElementKind::Solid, true).decays_to(), Some(Element::Ash));
    assert_eq!(ember(ElementKind::Solid, false).decays_to(), None);
    assert_eq!(Element::Water.decays_to(), None);
}

#[test]
fn spread_probability_follows_the_formula() {
    // max(0, (1 - gap / 3000) * 0.3) with a gap of 1700 - 1.2754 kg/m3.
    let sand_in_air = Element::Sand.spread_prob(&Element::Empty);
    assert_eq!(sand_in_air, Probability { numerator: 130_127_540, denominator: 1_000_000_000 });
    let exact = (1.0 - (1700.0 - 1.2754) / 3000.0) * 0.3;
    let ratio = sand_in_air.numerator as f64 / sand_in_air.denominator as f64;
    assert!((ratio - exact).abs() < 1e-12);
    // The same element on both sides reaches the cap of 0.3.
    assert_eq!(
        Element::Water.spread_prob(&Element::Water),
        Probability { numerator: 300_000_000, denominator: 1_000_000_000 }
    );
    // The order of the two does not matter.
    assert_eq!(
        Element::Water.spread_prob(&Element::Sand),
        Element::Sand.spread_prob(&Element::Water)
    );
    assert_eq!(
        Element::Water.spread_prob(&Element::Sand),
        Probability { numerator: 229_700_000, denominator: 1_000_000_000 }
    );
}

#[test]
fn spread_probability_is_zero_against_solids_and_beyond_the_range() {
    assert_eq!(Element::Sand.spread_prob(&Element::BrickWall).numerator, 0);
    assert_eq!(Element::BrickWall.spread_prob(&Element::Sand).numerator, 0);
    assert_eq!(Element::Wood.spread_prob(&Element::Empty).numerator, 0);
    // Lava is 3100 kg/m3 and hydrogen 0.09: a gap beyond 3000.
    assert_eq!(Element::Lava.spread_prob(&Element::Hydrogen).numerator, 0);
    assert_eq!(Element::Lava.spread_prob(&Element::Empty).numerator, 0);
    let heavy = ember(ElementKind::Powder { density: MAX_DENSITY }, false);
    assert_eq!(heavy.spread_prob(&Element::Water).numerator, 0);
}

#[test]
fn spread_probability_falls_as_the_gap_grows() {
    let others = [
        Element::Water,
        Element::SaltWater,
        Element::WetDust,
        Element::Sand,
        Element::Salt,
        Element::ColdLava,
        Element::Lava,
    ];
    let mut last = u32::MAX;
    for other in others {
        let chance = Element::Water.spread_prob(&other);
        assert_eq!(chance.denominator, 1_000_000_000);
        assert!(chance.numerator <= last);
        assert!(chance.numerator <= 300_000_000);
        last = chance.numerator;
    }
}

#[test]
fn side_spread_is_half_the_spread() {
    for (a, b) in [
        (Element::Sand, Element::Empty),
        (Element::Water, Element::Gasoline),
        (Element::Steam, Element::Hydrogen),
        (Element::Sand, Element::BrickWall),
    ] {
        let spread = a.spread_prob(&b);
        let side = a.spread_side_prob(&b);
        assert_eq!(side.numerator, spread.numerator);
        assert_eq!(side.denominator, 2 * spread.denominator);
    }
}

#[test]
fn labels_and_picker_flags() {
    assert_eq!(Element::Empty.label(), "Air");
    assert_eq!(Element::BrickWall.label(), "Wall");
    assert_eq!(Element::SaltWater.label(), "Saltwater");
    assert_eq!(Element::GasolineSource.label(), "Gas Station");
    assert_eq!(Element::Flame.label(), "Fire");
    assert_eq!(Element::WetDust.label(), "Wet Dust");
    assert_eq!(ember(ElementKind::Solid, true).label(), "INVALID");
    assert!(Element::Sand.show_in_ui());
    assert!(!ember(ElementKind::Solid, true).show_in_ui());
    assert!(Element::Sand.show_density());
    assert!(!Element::BrickWall.show_density());
    assert!(!Element::Flame.show_density());
    for element in Element::all() {
        assert!(!element.ui_description().is_empty());
        assert!(!element.label().is_empty());
        assert!(element.show_in_ui());
        assert!(element.is_valid());
    }
    assert_eq!(Element::all().len(), 24);
    assert_eq!(ElementKind::all().len(), 5);
    assert_eq!(ElementKind::default(), ElementKind::Empty);
    assert_eq!(Flammability::default(), Flammability::NotFlammable);
}

#[test]
fn validity_of_payloads() {
    assert!(ember(ElementKind::Solid, true).is_valid());
    let never_decays = Element::BurningParticle {
        burned_element_kind: ElementKind::Solid,
        decay_prob: 0,
        flame_spawn_prob: 0,
        spawns_ash: false,
    };
    assert!(!never_decays.is_valid());
    let too_likely = Element::BurningParticle {
        burned_element_kind: ElementKind::Solid,
        decay_prob: 3,
        flame_spawn_prob: 1_000_001,
        spawns_ash: false,
    };
    assert!(!too_likely.is_valid());
    assert!(!ember(ElementKind::Gas { density: MAX_DENSITY + 1 }, false).is_valid());
    assert!(ElementKind::Gas { density: MAX_DENSITY }.is_valid());
}

#[test]
fn colors_of_elements() {
    assert_eq!(Element::Empty.color(), Rgba8888Color::new(20, 0, 60, 255));
    assert_eq!(Element::Sand.color(), Rgba8888Color::rgb(0xda, 0xca, 0xb3));
    assert_eq!(Element::Water.color(), Rgba8888Color::rgb(0x05, 0xaf, 0xf2));
    assert_eq!(Element::Gasoline.color(), Rgba8888Color::rgb(0x92, 0x19, 0x09));
    let flame = Element::Flame.color();
    assert_eq!((flame.r(), flame.g(), flame.b(), flame.a()), (0xf2, 0x92, 0x1d, 0xff));
    assert_eq!(ember(ElementKind::Solid, false).color(), Rgba8888Color::rgb(0xd9, 0x67, 0x04));
}

#[test]
fn probabilities_are_built_as_ratios() {
    let half = Probability::new(1, 2);
    assert_eq!(half, Probability { numerator: 1, denominator: 2 });
    assert_eq!(
        Probability::per_million(50_000),
        Probability { numerator: 50_000, denominator: 1_000_000 }
    );
}
