use rand::SeedableRng;
use rand_xorshift::XorShiftRng;
use sandbox::element::{Element, ElementKind};
use sandbox::ui::CursorKind;
use sandbox::world::GameWorld;

fn set(world: &mut GameWorld, x: i32, y: i32, element: Element) {
    world.place(x, y, CursorKind::Square { size: 1 }, None, element);
}

fn count(world: &GameWorld, element: Element) -> usize {
    let mut found = 0;
    for column in world.board() {
        for cell in column {
            if *cell == element {
                found += 1;
            }
        }
    }
    found
}

#[test]
fn world_test_fall_tick_simple() {
    let mut board = GameWorld::new(3, 3);
    let mut rng = XorShiftRng::seed_from_u64(0);
    set(&mut board, 1, 1, Element::Sand);
    board.tick(&mut rng);
    assert_eq!(board.board()[1][1], Element::Empty);
    assert_eq!(board.board()[1][2], Element::Sand);
}

#[test]
fn world_test_fall_tick_stacked() {
    let mut board = GameWorld::new(3, 3);
    let mut rng = XorShiftRng::seed_from_u64(0);
    set(&mut board, 1, 0, Element::Sand);
    set(&mut board, 1, 1, Element::Sand);
    board.tick(&mut rng);
    // With this seed the upper grain spreads instead of moving: only the
    // lower one falls.
    assert_eq!(board.board()[1][0], Element::Sand);
    assert_eq!(board.board()[1][1], Element::Empty);
    assert_eq!(board.board()[1][2], Element::Sand);
    board.tick(&mut rng);
    assert_eq!(board.board()[1][0], Element::Empty);
    assert_eq!(board.board()[1][1], Element::Sand);
    assert_eq!(board.board()[1][2], Element::Sand);
}

#[test]
fn mod_test_fall_tick_simple() {
    let mut board = GameWorld::new(3, 3);
    let mut rng = XorShiftRng::seed_from_u64(0);
    set(&mut board, 1, 1, Element::Sand);
    board.tick(&mut rng);
    assert_eq!(board.board()[1][1], Element::Empty);
    assert_eq!(board.board()[1][2], Element::Sand);
}

#[test]
fn mod_test_fall_tick_stacked() {
    let mut board = GameWorld::new(3, 3);
    let mut rng = XorShiftRng::seed_from_u64(0);
    set(&mut board, 1, 0, Element::Sand);
    set(&mut board, 1, 1, Element::Sand);
    board.tick(&mut rng);
    // With this seed the upper grain spreads instead of moving: only the
    // lower one falls.
    assert_eq!(board.board()[1][0], Element::Sand);
    assert_eq!(board.board()[1][1], Element::Empty);
    assert_eq!(board.board()[1][2], Element::Sand);
    board.tick(&mut rng);
    assert_eq!(board.board()[1][0], Element::Empty);
    assert_eq!(board.board()[1][1], Element::Sand);
    assert_eq!(board.board()[1][2], Element::Sand);
}

#[test]
fn new_world_is_empty_and_viewport_is_board() {
    let world = GameWorld::new(5, 7);
    assert_eq!(world.board_width(), 5);
    assert_eq!(world.board_height(), 7);
    assert_eq!(world.viewport_width(), 5);
    assert_eq!(world.viewport_height(), 7);
    assert_eq!(count(&world, Element::Empty), 35);
}

#[test]
fn empty_worlds_tick_without_harm() {
    let mut rng = XorShiftRng::seed_from_u64(3);
    let mut none = GameWorld::new(0, 0);
    none.tick(&mut rng);
    assert_eq!(none.board_width(), 0);
    assert_eq!(none.board_height(), 0);
    let mut flat = GameWorld::new(4, 0);
    flat.tick(&mut rng);
    assert_eq!(flat.board_width(), 4);
    let mut thin = GameWorld::new(0, 4);
    thin.tick(&mut rng);
    assert_eq!(thin.viewport_height(), 4);
}

#[test]
fn sand_falls_to_the_ground_and_rests() {
    let mut world = GameWorld::new(3, 6);
    let mut rng = XorShiftRng::seed_from_u64(11);
    set(&mut world, 1, 0, Element::Sand);
    for _ in 0..200 {
        world.tick(&mut rng);
    }
    assert_eq!(count(&world, Element::Sand), 1);
    let resting = (0..3).filter(|x| world.element_at(*x, 5) == Element::Sand).count();
    assert_eq!(resting, 1);
}

#[test]
fn bottom_row_powder_never_moves() {
    let mut world = GameWorld::new(5, 4);
    let mut rng = XorShiftRng::seed_from_u64(5);
    set(&mut world, 2, 3, Element::Sand);
    set(&mut world, 0, 3, Element::Salt);
    for _ in 0..300 {
        world.tick(&mut rng);
        assert_eq!(world.element_at(2, 3), Element::Sand);
        assert_eq!(world.element_at(0, 3), Element::Salt);
    }
}

#[test]
fn movement_conserves_every_element() {
    let mut world = GameWorld::new(8, 8);
    let mut rng = XorShiftRng::seed_from_u64(42);
    for x in 0..8 {
        set(&mut world, x, 0, Element::Sand);
        set(&mut world, x, 2, Element::Water);
        set(&mut world, x, 4, Element::Gasoline);
    }
    set(&mut world, 3, 6, Element::BrickWall);
    for _ in 0..500 {
        world.tick(&mut rng);
        assert_eq!(count(&world, Element::Sand), 8);
        assert_eq!(count(&world, Element::Water), 8);
        assert_eq!(count(&world, Element::Gasoline), 8);
        assert_eq!(count(&world, Element::BrickWall), 1);
        assert_eq!(count(&world, Element::Empty), 64 - 25);
    }
}

#[test]
fn the_two_halves_of_the_movement_pass_conserve() {
    let mut world = GameWorld::new(6, 6);
    let mut rng = XorShiftRng::seed_from_u64(9);
    for x in 0..6 {
        set(&mut world, x, 1, Element::Sand);
        set(&mut world, x, 3, Element::Water);
    }
    for _ in 0..100 {
        world.collect_moves(&mut rng);
        world.commit_moves(&mut rng);
        assert_eq!(count(&world, Element::Sand), 6);
        assert_eq!(count(&world, Element::Water), 6);
    }
}

#[test]
fn one_destination_takes_one_particle() {
    // Two grains above walls can only fall into the one free cell between
    // the walls: one of them gets it, the other stays.
    let mut moved_left = 0;
    let mut moved_right = 0;
    let mut rng = XorShiftRng::seed_from_u64(17);
    for _ in 0..400 {
        let mut world = GameWorld::new(3, 2);
        set(&mut world, 0, 0, Element::Sand);
        set(&mut world, 2, 0, Element::Sand);
        set(&mut world, 0, 1, Element::BrickWall);
        set(&mut world, 2, 1, Element::BrickWall);
        world.tick(&mut rng);
        assert_eq!(count(&world, Element::Sand), 2);
        if world.element_at(1, 1) == Element::Sand {
            let left_gone = world.element_at(0, 0) == Element::Empty;
            let right_gone = world.element_at(2, 0) == Element::Empty;
            assert!(left_gone != right_gone);
            if left_gone {
                moved_left += 1;
            } else {
                moved_right += 1;
            }
        } else {
            assert_eq!(world.element_at(0, 0), Element::Sand);
            assert_eq!(world.element_at(2, 0), Element::Sand);
        }
    }
    assert!(moved_left > 50);
    assert!(moved_right > 50);
}

#[test]
fn equal_seeds_give_equal_worlds() {
    let mut first = GameWorld::new(12, 12);
    let mut second = GameWorld::new(12, 12);
    let mut first_rng = XorShiftRng::seed_from_u64(2024);
    let mut second_rng = XorShiftRng::seed_from_u64(2024);
    for step in 0..200 {
        if step % 20 == 0 {
            let x = (step / 20) % 12;
            first.place(x, 0, CursorKind::Circle { size: 3 }, None, Element::Water);
            second.place(x, 0, CursorKind::Circle { size: 3 }, None, Element::Water);
            first.place(x, 5, CursorKind::Square { size: 2 }, None, Element::Dust);
            second.place(x, 5, CursorKind::Square { size: 2 }, None, Element::Dust);
            first.place(6, 11, CursorKind::Square { size: 1 }, None, Element::FireSource);
            second.place(6, 11, CursorKind::Square { size: 1 }, None, Element::FireSource);
        }
        first.tick(&mut first_rng);
        second.tick(&mut second_rng);
        assert_eq!(first.board(), second.board());
    }
}

#[test]
fn gas_rises_and_dense_powder_sinks_in_water() {
    let mut world = GameWorld::new(1, 6);
    let mut rng = XorShiftRng::seed_from_u64(8);
    set(&mut world, 0, 5, Element::Hydrogen);
    set(&mut world, 0, 0, Element::Sand);
    for y in 1..5 {
        set(&mut world, 0, y, Element::Water);
    }
    for _ in 0..2000 {
        world.tick(&mut rng);
    }
    // The hydrogen started in the bottom row, which never proposes a move,
    // but the water above it sinks into it; the sand sinks through the water.
    assert_eq!(count(&world, Element::Sand), 1);
    assert_eq!(count(&world, Element::Water), 4);
    assert_eq!(count(&world, Element::Hydrogen), 1);
    assert_eq!(world.element_at(0, 5), Element::Sand);
    assert_eq!(world.element_at(0, 0), Element::Hydrogen);
}

#[test]
fn salt_dissolves_in_water_with_the_documented_rate() {
    let mut rng = XorShiftRng::seed_from_u64(1);
    let trials = 40_000;
    let mut dissolved = 0;
    for _ in 0..trials {
        let mut world = GameWorld::new(2, 1);
        set(&mut world, 0, 0, Element::Salt);
        set(&mut world, 1, 0, Element::Water);
        world.tick(&mut rng);
        if world.element_at(1, 0) == Element::SaltWater {
            assert_eq!(world.element_at(0, 0), Element::Empty);
            dissolved += 1;
        } else {
            assert_eq!(world.element_at(0, 0), Element::Salt);
            assert_eq!(world.element_at(1, 0), Element::Water);
        }
    }
    let rate = dissolved as f64 / trials as f64;
    assert!(rate > 0.045 && rate < 0.055, "rate was {}", rate);
}

#[test]
fn salt_and_water_end_as_salt_water() {
    let mut world = GameWorld::new(2, 1);
    let mut rng = XorShiftRng::seed_from_u64(7);
    set(&mut world, 0, 0, Element::Salt);
    set(&mut world, 1, 0, Element::Water);
    let mut ticks = 0;
    while world.element_at(1, 0) != Element::SaltWater && ticks < 10_000 {
        world.tick(&mut rng);
        ticks += 1;
    }
    assert_eq!(world.element_at(1, 0), Element::SaltWater);
    assert_eq!(world.element_at(0, 0), Element::Empty);
}

#[test]
fn a_certain_decay_always_happens() {
    let mut rng = XorShiftRng::seed_from_u64(4);
    for _ in 0..50 {
        let mut world = GameWorld::new(1, 1);
        let ember = Element::BurningParticle {
            burned_element_kind: ElementKind::Solid,
            decay_prob: 1,
            flame_spawn_prob: 0,
            spawns_ash: true,
        };
        world.place(0, 0, CursorKind::Square { size: 1 }, None, ember);
        world.decay(0, 0, &mut rng);
        assert_eq!(world.element_at(0, 0), Element::Ash);
    }
}

#[test]
fn flames_decay_at_one_in_ten() {
    let mut rng = XorShiftRng::seed_from_u64(6);
    let trials = 20_000;
    let mut gone = 0;
    for _ in 0..trials {
        let mut world = GameWorld::new(1, 1);
        set(&mut world, 0, 0, Element::Flame);
        world.decay(0, 0, &mut rng);
        if world.element_at(0, 0) == Element::Empty {
            gone += 1;
        } else {
            assert_eq!(world.element_at(0, 0), Element::Flame);
        }
    }
    let rate = gone as f64 / trials as f64;
    assert!(rate > 0.09 && rate < 0.11, "rate was {}", rate);
}

#[test]
fn a_volcano_ignites_dust_at_once() {
    let mut rng = XorShiftRng::seed_from_u64(12);
    for _ in 0..50 {
        let mut world = GameWorld::new(2, 1);
        set(&mut world, 0, 0, Element::Volcano);
        set(&mut world, 1, 0, Element::Dust);
        world.probe(0, 0, 1, 0, &mut rng);
        assert_eq!(world.element_at(0, 0), Element::Volcano);
        assert_eq!(
            world.element_at(1, 0),
            Element::BurningParticle {
                burned_element_kind: ElementKind::Powder { density: 300_000 },
                decay_prob: 25,
                flame_spawn_prob: 50_000,
                spawns_ash: false,
            }
        );
    }
}

#[test]
fn lava_on_water_cools_or_stays() {
    let mut rng = XorShiftRng::seed_from_u64(13);
    let mut stayed = 0;
    let mut cooled = 0;
    let mut idle = 0;
    for _ in 0..3000 {
        let mut world = GameWorld::new(2, 1);
        set(&mut world, 0, 0, Element::Lava);
        set(&mut world, 1, 0, Element::Water);
        world.probe(0, 0, 1, 0, &mut rng);
        match (world.element_at(0, 0), world.element_at(1, 0)) {
            (Element::Lava, Element::Water) => idle += 1,
            (Element::Lava, Element::Steam) => stayed += 1,
            (Element::ColdLava, Element::Steam) => cooled += 1,
            other => panic!("unexpected outcome {:?}", other),
        }
    }
    assert!(idle > 1200 && idle < 1800);
    assert!(stayed > 300 && stayed < 700);
    assert!(cooled > 800 && cooled < 1200);
}

#[test]
fn neighbours_are_probed_top_left_right_bottom() {
    // A sink swallows with a chance of 0.3 per neighbour; all four
    // neighbours get their chance in one call.
    let mut rng = XorShiftRng::seed_from_u64(14);
    let mut swallowed = [0usize; 4];
    let trials = 4000;
    for _ in 0..trials {
        let mut world = GameWorld::new(3, 3);
        set(&mut world, 1, 1, Element::Sink);
        set(&mut world, 1, 0, Element::Sand);
        set(&mut world, 0, 1, Element::Sand);
        set(&mut world, 2, 1, Element::Sand);
        set(&mut world, 1, 2, Element::Sand);
        world.transmute(1, 1, &mut rng);
        assert_eq!(world.element_at(1, 1), Element::Sink);
        let cells = [(1, 0), (0, 1), (2, 1), (1, 2)];
        for (i, (x, y)) in cells.iter().enumerate() {
            if world.element_at(*x, *y) == Element::Empty {
                swallowed[i] += 1;
            }
        }
    }
    for taken in swallowed {
        let rate = taken as f64 / trials as f64;
        assert!(rate > 0.27 && rate < 0.33, "rate was {}", rate);
    }
}

#[test]
fn resize_keeps_content_and_never_shrinks_the_board() {
    let mut world = GameWorld::new(6, 6);
    set(&mut world, 5, 5, Element::Sand);
    set(&mut world, 0, 0, Element::Water);
    let world = world.resize(3, 2);
    assert_eq!(world.viewport_width(), 3);
    assert_eq!(world.viewport_height(), 2);
    assert_eq!(world.board_width(), 6);
    assert_eq!(world.board_height(), 6);
    assert_eq!(world.element_at(5, 5), Element::Sand);
    assert_eq!(world.element_at(0, 0), Element::Water);
    let world = world.resize(9, 7);
    assert_eq!(world.viewport_width(), 9);
    assert_eq!(world.viewport_height(), 7);
    assert_eq!(world.board_width(), 9);
    assert_eq!(world.board_height(), 7);
    assert_eq!(world.element_at(5, 5), Element::Sand);
    assert_eq!(world.element_at(0, 0), Element::Water);
    assert_eq!(world.element_at(8, 6), Element::Empty);
    assert_eq!(count(&world, Element::Empty), 9 * 7 - 2);
}

#[test]
fn resize_grows_to_at_least_four_by_four() {
    let world = GameWorld::new(1, 1).resize(2, 3);
    assert_eq!(world.viewport_width(), 2);
    assert_eq!(world.viewport_height(), 3);
    assert_eq!(world.board_width(), 4);
    assert_eq!(world.board_height(), 4);
    let world = GameWorld::new(0, 0).resize(0, 0);
    assert_eq!(world.board_width(), 4);
    assert_eq!(world.board_height(), 4);
    assert_eq!(world.viewport_width(), 0);
}

#[test]
fn what_lies_outside_the_viewport_is_frozen() {
    let mut world = GameWorld::new(6, 6);
    set(&mut world, 4, 0, Element::Sand);
    set(&mut world, 1, 4, Element::Sand);
    set(&mut world, 0, 0, Element::Sand);
    let mut world = world.resize(3, 3);
    let mut rng = XorShiftRng::seed_from_u64(21);
    for _ in 0..100 {
        world.tick(&mut rng);
    }
    assert_eq!(world.element_at(4, 0), Element::Sand);
    assert_eq!(world.element_at(1, 4), Element::Sand);
    assert_eq!(world.element_at(0, 0), Element::Empty);
    assert_eq!(count(&world, Element::Sand), 3);
    let bottom = (0..3).filter(|x| world.element_at(*x, 2) == Element::Sand).count();
    assert_eq!(bottom, 1);
    // When the viewport grows back, what was frozen moves again.
    let mut world = world.resize(6, 6);
    for _ in 0..200 {
        world.tick(&mut rng);
    }
    assert_eq!(world.element_at(4, 0), Element::Empty);
    assert_eq!(count(&world, Element::Sand), 3);
}

#[test]
fn reset_empties_the_board() {
    let mut world = GameWorld::new(4, 4);
    world.place(1, 1, CursorKind::Square { size: 3 }, None, Element::Lava);
    assert_eq!(count(&world, Element::Lava), 9);
    world.reset();
    assert_eq!(count(&world, Element::Empty), 16);
    assert_eq!(world.viewport_width(), 4);
}

#[test]
fn queries_outside_the_board_see_nothing() {
    let mut world = GameWorld::new(2, 2);
    set(&mut world, 1, 1, Element::Wood);
    assert_eq!(world.element_at(1, 1), Element::Wood);
    assert_eq!(world.element_at(2, 1), Element::Empty);
    assert_eq!(world.element_at(1, 2), Element::Empty);
    assert_eq!(world.element_at(usize::MAX, usize::MAX), Element::Empty);
}

#[test]
fn wood_burns_down_to_ash() {
    let mut world = GameWorld::new(3, 3);
    let mut rng = XorShiftRng::seed_from_u64(31);
    set(&mut world, 0, 0, Element::Wood);
    set(&mut world, 2, 0, Element::Wood);
    set(&mut world, 1, 1, Element::FireSource);
    let mut ashes_seen = false;
    for _ in 0..200_000 {
        world.tick(&mut rng);
        if count(&world, Element::Ash) > 0 {
            ashes_seen = true;
            break;
        }
    }
    assert!(ashes_seen);
}

#[test]
fn a_crowded_world_runs_without_harm() {
    let mut world = GameWorld::new(40, 30);
    let mut rng = XorShiftRng::seed_from_u64(99);
    let elements = Element::all();
    let mut at = 0usize;
    for y in 0..30 {
        for x in 0..40 {
            at = (at * 31 + 17) % 997;
            let element = if at % 3 == 0 { elements[at % elements.len()] } else { Element::Empty };
            world.place(x, y, CursorKind::Square { size: 1 }, None, element);
        }
    }
    for step in 0..400 {
        world.tick(&mut rng);
        if step % 50 == 0 {
            let x = (step / 50) as i32 * 4;
            world.place(x, 3, CursorKind::Circle { size: 5 }, None, Element::Gasoline);
            world.place(x + 2, 20, CursorKind::Pen { size: 2 }, Some((x, 25)), Element::Dust);
            world.place(x + 1, 12, CursorKind::Square { size: 2 }, None, Element::Flame);
        }
    }
    assert_eq!(world.board_width(), 40);
    assert_eq!(world.board_height(), 30);
    for column in world.board() {
        assert_eq!(column.len(), 30);
        for cell in column {
            assert!(cell.is_valid());
        }
    }
    // Solids never move and are never made or unmade by a reaction, but for
    // wood, which burns.
    let mut expected_walls = 0;
    let mut at = 0usize;
    for _ in 0..(30 * 40) {
        at = (at * 31 + 17) % 997;
        if at % 3 == 0 && elements[at % elements.len()] == Element::BrickWall {
            expected_walls += 1;
        }
    }
    assert!(count(&world, Element::BrickWall) <= expected_walls);
}

#[test]
fn the_neighbour_above_reacts_first_and_the_one_below_last() {
    // Water between four flames puts out one of them at most, for it is
    // used up by it: the earlier a neighbour has its turn, the more often
    // it is the one, with chances of 0.1, 0.09, 0.081 and 0.0729.
    let mut rng = XorShiftRng::seed_from_u64(77);
    let trials = 60_000;
    let mut steamed = [0usize; 4];
    let cells = [(1, 0), (0, 1), (2, 1), (1, 2)];
    for _ in 0..trials {
        let mut world = GameWorld::new(3, 3);
        set(&mut world, 1, 1, Element::Water);
        for (x, y) in cells {
            set(&mut world, x as i32, y as i32, Element::Flame);
        }
        world.transmute(1, 1, &mut rng);
        let mut out = 0;
        for (i, (x, y)) in cells.iter().enumerate() {
            if world.element_at(*x, *y) == Element::Steam {
                steamed[i] += 1;
                out += 1;
            }
        }
        assert!(out <= 1);
        assert_eq!(world.element_at(1, 1) == Element::Empty, out == 1);
    }
    let expected = [0.1, 0.09, 0.081, 0.0729];
    for i in 0..4 {
        let rate = steamed[i] as f64 / trials as f64;
        assert!((rate - expected[i]).abs() < 0.004, "rate {} was {}", i, rate);
    }
    assert!(steamed[0] > steamed[3]);
}
