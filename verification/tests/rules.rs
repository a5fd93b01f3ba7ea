use sandbox::element::{Element, ElementKind};
use sandbox::probability::Probability;
use sandbox::ui::CursorKind;
use sandbox::world::movement::{damped_swap_probability, swap_probability, take_side};
use sandbox::world::moves::{sort_by_target, Move};
use sandbox::world::rules::Side;
use sandbox::world::transmute::decayed;
use sandbox::world::GameWorld;

fn world_of(rows: &[&str]) -> GameWorld {
    let height = rows.len();
    let width = rows[0].chars().count();
    let mut world = GameWorld::new(width, height);
    for (y, row) in rows.iter().enumerate() {
        for (x, sign) in row.chars().enumerate() {
            let element = match sign {
                '.' => Element::Empty,
                's' => Element::Sand,
                'w' => Element::Water,
                '#' => Element::BrickWall,
                'h' => Element::Hydrogen,
                'g' => Element::Gasoline,
                'l' => Element::Lava,
                other => panic!("no element for {}", other),
            };
            world.place(x as i32, y as i32, CursorKind::Square { size: 1 }, None, element);
        }
    }
    world
}

fn step(from: (usize, usize), to: (usize, usize)) -> Move {
    Move::MoveElement { from_x: from.0, from_y: from.1, to_x: to.0, to_y: to.1 }
}

fn swap(from: (usize, usize), to: (usize, usize)) -> Move {
    Move::SwapElement { from_x: from.0, from_y: from.1, to_x: to.0, to_y: to.1 }
}

#[test]
fn a_powder_falls_unless_it_spreads() {
    let world = world_of(&["...", ".s.", "..."]);
    assert_eq!(world.move_down_choice(1, 1, false), Some(step((1, 1), (1, 2))));
    assert_eq!(world.move_down_choice(1, 1, true), None);
    // Nothing falls out of the bottom row, and nothing falls from nothing.
    let world = world_of(&["...", "...", ".s."]);
    assert_eq!(world.move_down_choice(1, 2, false), None);
    assert_eq!(world.move_down_choice(0, 0, false), None);
}

#[test]
fn nothing_moves_into_an_occupied_cell() {
    let world = world_of(&[".s.", ".s.", ".#."]);
    assert_eq!(world.move_down_choice(1, 0, false), None);
    assert_eq!(world.move_down_choice(1, 1, false), None);
    // Against a solid the spread probability is zero: the answer of the
    // draw does not matter.
    assert_eq!(world.move_down_choice(1, 1, true), None);
    assert_eq!(world.move_down_choice(1, 2, false), None);
}

#[test]
fn a_light_gas_rises() {
    let world = world_of(&["...", ".h.", "..."]);
    assert_eq!(world.move_down_choice(1, 1, false), Some(step((1, 1), (1, 0))));
    assert_eq!(world.move_down_choice(1, 1, true), None);
    assert_eq!(world.natural_row(1, 1, true), Some(0));
    let world = world_of(&[".h.", "...", "..."]);
    assert_eq!(world.move_down_choice(1, 0, false), None);
    assert_eq!(world.natural_row(1, 0, true), None);
    let world = world_of(&["...", ".s.", "..."]);
    assert_eq!(world.natural_row(1, 1, true), Some(2));
    assert_eq!(world.natural_row(1, 1, false), Some(2));
}

#[test]
fn what_is_as_dense_as_air_rises_straight_but_not_diagonally() {
    let mut world = world_of(&["...", "...", "..."]);
    let balloon = Element::BurningParticle {
        burned_element_kind: ElementKind::Gas { density: 127_540 },
        decay_prob: 5,
        flame_spawn_prob: 0,
        spawns_ash: false,
    };
    world.place(1, 1, CursorKind::Square { size: 1 }, None, balloon);
    assert_eq!(world.natural_row(1, 1, true), Some(0));
    assert_eq!(world.natural_row(1, 1, false), None);
    assert_eq!(world.move_down_choice(1, 1, false), Some(step((1, 1), (1, 0))));
    assert_eq!(world.move_down_side_choice(1, 1, true, false), None);
}

#[test]
fn a_blocked_powder_takes_a_free_diagonal() {
    let world = world_of(&[".s.", ".s.", "..."]);
    assert!(world.diagonal_free(1, 0, 1, Side::Left));
    assert!(world.diagonal_free(1, 0, 1, Side::Right));
    assert_eq!(world.move_down_side_choice(1, 0, true, false), Some(step((1, 0), (0, 1))));
    assert_eq!(world.move_down_side_choice(1, 0, false, false), Some(step((1, 0), (2, 1))));
    assert_eq!(world.move_down_side_choice(1, 0, true, true), None);
    assert_eq!(world.move_down_side_choice(1, 0, false, true), None);
    // Where only one diagonal is free the coin does not matter.
    let world = world_of(&[".s.", "#s.", "..."]);
    assert!(!world.diagonal_free(1, 0, 1, Side::Left));
    assert_eq!(world.move_down_side_choice(1, 0, true, false), Some(step((1, 0), (2, 1))));
    let world = world_of(&[".s.", "#s#", "..."]);
    assert_eq!(world.move_down_side_choice(1, 0, true, false), None);
    // At the edge there is no diagonal beyond the viewport.
    let world = world_of(&["s..", "s..", "..."]);
    assert_eq!(world.move_down_side_choice(0, 0, true, false), Some(step((0, 0), (1, 1))));
    let world = world_of(&["..s", "..s", "..."]);
    assert_eq!(world.move_down_side_choice(2, 0, false, false), Some(step((2, 0), (1, 1))));
}

#[test]
fn a_diagonal_is_blocked_when_both_ways_to_it_are() {
    // The cell beside and the cell below are both taken: no way through.
    let world = world_of(&["ss#", "#s.", "..."]);
    assert!(!world.diagonal_free(1, 0, 1, Side::Right));
    assert_eq!(world.move_down_side_choice(1, 0, false, false), None);
    // One of the two ways is enough.
    let world = world_of(&["ss.", "#s.", "..."]);
    assert!(world.diagonal_free(1, 0, 1, Side::Right));
    let world = world_of(&["ss#", "#..", "..."]);
    assert!(world.diagonal_free(1, 0, 1, Side::Right));
}

#[test]
fn a_light_gas_takes_a_diagonal_upwards() {
    let world = world_of(&[".#.", ".h.", "..."]);
    assert_eq!(world.move_down_side_choice(1, 1, true, false), Some(step((1, 1), (0, 0))));
    assert_eq!(world.move_down_side_choice(1, 1, false, false), Some(step((1, 1), (2, 0))));
}

#[test]
fn a_powder_sinks_into_a_lighter_liquid() {
    let world = world_of(&["s", "w", "w"]);
    assert_eq!(world.swap_down_choice(0, 0, false, true), Some(swap((0, 0), (0, 1))));
    assert_eq!(world.swap_down_choice(0, 0, false, false), None);
    assert_eq!(world.swap_down_choice(0, 0, true, true), None);
    // Water does not sink into water, nor into sand, nor into nothing.
    assert_eq!(world.swap_down_choice(0, 1, false, true), None);
    let world = world_of(&["w", "s", "."]);
    assert_eq!(world.swap_down_choice(0, 0, false, true), None);
    assert_eq!(world.swap_down_choice(0, 1, false, true), None);
    // Gasoline floats on water, water sinks into gasoline.
    let world = world_of(&["w", "g", "w"]);
    assert_eq!(world.swap_down_choice(0, 0, false, true), Some(swap((0, 0), (0, 1))));
    assert_eq!(world.swap_down_choice(0, 1, false, true), None);
    assert_eq!(world.swap_down_choice(0, 2, false, true), None);
}

#[test]
fn the_swap_probabilities() {
    // Sand over water: 1 - 997 / 1700.
    assert_eq!(
        swap_probability(170_000_000, 99_700_000),
        Probability { numerator: 70_300_000, denominator: 170_000_000 }
    );
    assert_eq!(
        damped_swap_probability(170_000_000, 99_700_000),
        Probability { numerator: 210_900_000, denominator: 680_000_000 }
    );
    let chance = damped_swap_probability(170_000_000, 99_700_000);
    let exact = (1.0 - 997.0 / 1700.0) * 0.75;
    assert!((chance.numerator as f64 / chance.denominator as f64 - exact).abs() < 1e-12);
    assert_eq!(
        damped_swap_probability(1_000_000_000, 0),
        Probability { numerator: 3_000_000_000, denominator: 4_000_000_000 }
    );
}

#[test]
fn a_powder_sinks_diagonally_into_a_lighter_liquid() {
    let world = world_of(&[".s.", "wsw", "..."]);
    assert!(world.diagonal_gives_way(1, 0, Side::Left));
    assert!(world.diagonal_gives_way(1, 0, Side::Right));
    assert_eq!(
        world.swap_down_side_choice(1, 0, true, true, false),
        Some(swap((1, 0), (0, 1)))
    );
    assert_eq!(
        world.swap_down_side_choice(1, 0, false, true, false),
        Some(swap((1, 0), (2, 1)))
    );
    assert_eq!(world.swap_down_side_choice(1, 0, true, false, false), None);
    assert_eq!(world.swap_down_side_choice(1, 0, true, true, true), None);
    // Not into what is empty, solid or heavier, nor past both blocked ways.
    let world = world_of(&[".w.", ".ss", "..."]);
    assert!(!world.diagonal_gives_way(1, 0, Side::Left));
    assert!(!world.diagonal_gives_way(1, 0, Side::Right));
    assert_eq!(world.swap_down_side_choice(1, 0, true, true, false), None);
    let world = world_of(&["#s.", "wsw", "..."]);
    assert!(!world.diagonal_gives_way(1, 0, Side::Left));
    assert!(world.diagonal_gives_way(1, 0, Side::Right));
    assert_eq!(
        world.swap_down_side_choice(1, 0, true, true, false),
        Some(swap((1, 0), (2, 1)))
    );
    let world = world_of(&[".s.", "wsw"]);
    assert_eq!(world.swap_down_side_choice(1, 1, true, true, false), None);
}

#[test]
fn a_liquid_flows_to_a_free_side() {
    let world = world_of(&[".w.", "###"]);
    assert!(world.level_free(1, 0, Side::Left));
    assert_eq!(world.move_side_choice(1, 0, true), Some(step((1, 0), (0, 0))));
    assert_eq!(world.move_side_choice(1, 0, false), Some(step((1, 0), (2, 0))));
    let world = world_of(&["#w.", "###"]);
    assert_eq!(world.move_side_choice(1, 0, true), Some(step((1, 0), (2, 0))));
    let world = world_of(&["#w#", "###"]);
    assert_eq!(world.move_side_choice(1, 0, true), None);
    let world = world_of(&["w..", "###"]);
    assert!(!world.level_free(0, 0, Side::Left));
    assert_eq!(world.move_side_choice(0, 0, true), Some(step((0, 0), (1, 0))));
}

#[test]
fn sides_are_taken_by_need_and_by_coin() {
    assert_eq!(take_side(true, true, true), Some(Side::Left));
    assert_eq!(take_side(true, true, false), Some(Side::Right));
    assert_eq!(take_side(true, false, false), Some(Side::Left));
    assert_eq!(take_side(false, true, true), Some(Side::Right));
    assert_eq!(take_side(false, false, true), None);
}

#[test]
fn moves_are_carried_out() {
    let mut world = world_of(&["s.", "w."]);
    world.carry_out(step((0, 0), (1, 1)));
    assert_eq!(world.element_at(0, 0), Element::Empty);
    assert_eq!(world.element_at(1, 1), Element::Sand);
    world.carry_out(swap((1, 1), (0, 1)));
    assert_eq!(world.element_at(1, 1), Element::Water);
    assert_eq!(world.element_at(0, 1), Element::Sand);
}

#[test]
fn moves_go_to_the_same_destination_or_not() {
    let a = step((0, 0), (1, 1));
    let b = swap((2, 0), (1, 1));
    let c = step((0, 0), (1, 2));
    let d = swap((0, 0), (2, 1));
    assert!(a.same_dest_as(&b));
    assert!(b.same_dest_as(&a));
    assert!(a.same_dest_as(&a));
    assert!(!a.same_dest_as(&c));
    assert!(!a.same_dest_as(&d));
    assert_eq!(a.dest(), (1, 1));
    assert!(a.precedes(&b));
    assert!(c.precedes(&a));
    assert!(!a.precedes(&c));
    assert!(d.precedes(&c));
}

#[test]
fn moves_are_sorted_by_destination_largest_first_and_stably() {
    let moves = vec![
        step((0, 0), (1, 1)),
        step((5, 5), (0, 9)),
        swap((2, 0), (1, 1)),
        step((3, 3), (2, 0)),
        step((1, 0), (1, 1)),
        step((4, 4), (1, 2)),
    ];
    let sorted = sort_by_target(&moves);
    assert_eq!(
        sorted,
        vec![
            step((3, 3), (2, 0)),
            step((4, 4), (1, 2)),
            step((0, 0), (1, 1)),
            swap((2, 0), (1, 1)),
            step((1, 0), (1, 1)),
            step((5, 5), (0, 9)),
        ]
    );
    assert_eq!(sort_by_target(&Vec::new()), Vec::new());
    assert_eq!(sort_by_target(&vec![moves[0]]), vec![moves[0]]);
}

#[test]
fn decay_by_the_answer_of_the_draw() {
    assert_eq!(decayed(&Element::Flame, true), Element::Empty);
    assert_eq!(decayed(&Element::Flame, false), Element::Flame);
    assert_eq!(decayed(&Element::Sand, true), Element::Sand);
    let ember = Element::BurningParticle {
        burned_element_kind: ElementKind::Solid,
        decay_prob: 1000,
        flame_spawn_prob: 50_000,
        spawns_ash: true,
    };
    assert_eq!(decayed(&ember, true), Element::Ash);
    assert_eq!(decayed(&ember, false), ember);
    let sure = Element::BurningParticle {
        burned_element_kind: ElementKind::Solid,
        decay_prob: 1,
        flame_spawn_prob: 50_000,
        spawns_ash: false,
    };
    assert_eq!(decayed(&sure, false), Element::Empty);
}

#[test]
fn draws_settle_by_chance_and_answer() {
    let never = Probability { numerator: 0, denominator: 7 };
    let certain = Probability { numerator: 7, denominator: 7 };
    let open = Probability { numerator: 3, denominator: 7 };
    assert!(!never.settle(true));
    assert!(!never.settle(false));
    assert!(certain.settle(true));
    assert!(certain.settle(false));
    assert!(open.settle(true));
    assert!(!open.settle(false));
}
