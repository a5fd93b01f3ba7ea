//! The movement strategies: how a cell looks for a move to propose.

use crate::element::{Element, AIR_DENSITY, MAX_DENSITY};
use crate::probability::Probability;
use crate::random::draw_ratio;
use crate::world::moves::Move;
use crate::world::rules::{beside, damped_swap_chance, proposed, side_taken, swap_chance, Side};
use crate::world::{GameWorld, WorldView};
use rand_xorshift::XorShiftRng;
use vstd::prelude::*;

verus! {

/// The side that is taken: the free one, or the one the coin names where
/// both are free.
pub fn take_side(left: bool, right: bool, coin: bool) -> (side: Option<Side>)
    ensures
        side == side_taken(left, right, coin),
{
    if left && right {
        if coin {
            Some(Side::Left)
        } else {
            Some(Side::Right)
        }
    } else if left {
        Some(Side::Left)
    } else if right {
        Some(Side::Right)
    } else {
        None
    }
}

/// The chance `1 - below / own` with which an element sinks into a lighter
/// one.
pub fn swap_probability(own: u32, below: u32) -> (chance: Probability)
    requires
        below < own,
    ensures
        chance == swap_chance(own, below),
        chance.wf(),
{
    Probability { numerator: own - below, denominator: own }
}

/// Three quarters of the swap chance, for sinking diagonally.
pub fn damped_swap_probability(own: u32, below: u32) -> (chance: Probability)
    requires
        below < own <= MAX_DENSITY,
    ensures
        chance == damped_swap_chance(own, below),
        chance.wf(),
{
    Probability { numerator: 3 * (own - below), denominator: 4 * own }
}

impl GameWorld {
    /// What a cell of the viewport holds.
    pub(crate) fn at(&self, x: usize, y: usize) -> (element: Element)
        requires
            self.wf(),
            self@.in_viewport(x as int, y as int),
        ensures
            element == self@.at(x as int, y as int),
            element.wf(),
    {
        proof {
            self@.lemma_viewport_on_board(x as int, y as int);
        }
        self.cell(x, y)
    }

    /// Whether a cell of the viewport is empty.
    pub(crate) fn is_free(&self, x: usize, y: usize) -> (free: bool)
        requires
            self.wf(),
            self@.in_viewport(x as int, y as int),
        ensures
            free == self@.free(x as int, y as int),
    {
        self.at(x, y) == Element::Empty
    }

    /// The column beside `x` on the given side, if it is in the viewport.
    pub(crate) fn column_beside(&self, x: usize, side: Side) -> (column: Option<usize>)
        requires
            x < self@.width,
        ensures
            match column {
                Some(to_x) => to_x == beside(x as int, side) && to_x < self@.width,
                None => !(0 <= beside(x as int, side) < self@.width),
            },
    {
        match side {
            Side::Left => if x > 0 {
                Some(x - 1)
            } else {
                None
            },
            Side::Right => if x + 1 < self.viewport_width() {
                Some(x + 1)
            } else {
                None
            },
        }
    }

    /// The row that the element in `(x, y)` moves towards, if there is one.
    pub fn natural_row(&self, x: usize, y: usize, rises_at_par: bool) -> (row: Option<usize>)
        requires
            self.wf(),
            self@.in_viewport(x as int, y as int),
        ensures
            match row {
                Some(to_y) => self@.natural_row(x as int, y as int, rises_at_par) == Some(
                    to_y as int,
                ) && to_y < self@.height && to_y != y,
                None => self@.natural_row(x as int, y as int, rises_at_par) is None,
            },
    {
        match self.at(x, y).density() {
            None => None,
            Some(density) => {
                if density > AIR_DENSITY {
                    if y + 1 < self.viewport_height() {
                        Some(y + 1)
                    } else {
                        None
                    }
                } else if density < AIR_DENSITY || rises_at_par {
                    if y > 0 {
                        Some(y - 1)
                    } else {
                        None
                    }
                } else {
                    None
                }
            },
        }
    }

    /// Whether the diagonal cell on the given side, in the row `to_y`, can
    /// be moved into.
    pub fn diagonal_free(&self, x: usize, y: usize, to_y: usize, side: Side) -> (free: bool)
        requires
            self.wf(),
            self@.in_viewport(x as int, y as int),
            to_y < self@.height,
        ensures
            free == self@.diagonal_free(x as int, y as int, to_y as int, side),
    {
        match self.column_beside(x, side) {
            None => false,
            Some(to_x) => self.is_free(to_x, to_y) && (self.is_free(to_x, y) || self.is_free(
                x,
                to_y,
            )),
        }
    }

    /// Whether the element in `(x, y)` can sink into the diagonal cell on
    /// the given side.
    pub fn diagonal_gives_way(&self, x: usize, y: usize, side: Side) -> (gives_way: bool)
        requires
            self.wf(),
            self@.in_viewport(x as int, y as int),
            y + 1 < self@.height,
        ensures
            gives_way == self@.diagonal_gives_way(x as int, y as int, side),
    {
        match self.column_beside(x, side) {
            None => false,
            Some(to_x) => {
                let there = self.at(to_x, y + 1);
                if !there.is_liquid_or_gas() {
                    false
                } else if !self.is_free(to_x, y) && !self.is_free(x, y + 1) {
                    false
                } else {
                    match (self.at(x, y).density(), there.density()) {
                        (Some(own), Some(below)) => below < own,
                        _ => false,
                    }
                }
            },
        }
    }

    /// Whether the cell beside `(x, y)` on the given side can be flowed into.
    pub fn level_free(&self, x: usize, y: usize, side: Side) -> (free: bool)
        requires
            self.wf(),
            self@.in_viewport(x as int, y as int),
        ensures
            free == self@.level_free(x as int, y as int, side),
    {
        match self.column_beside(x, side) {
            None => false,
            Some(to_x) => self.is_free(to_x, y),
        }
    }

    /// Moving straight on, given the answer of the draw: the move into the
    /// cell below or above, if that is empty and the draw does not say to
    /// spread.
    pub fn move_down_choice(&self, x: usize, y: usize, skip: bool) -> (choice: Option<Move>)
        requires
            self.wf(),
            self@.in_viewport(x as int, y as int),
        ensures
            choice == self@.move_down_choice(x as int, y as int, skip),
    {
        proof {
            reveal(WorldView::move_down_choice);
        }
        match self.natural_row(x, y, true) {
            None => None,
            Some(to_y) => {
                if self.at(x, y).spread_prob(&self.at(x, to_y)).settle(skip) {
                    None
                } else if self.is_free(x, to_y) {
                    Some(Move::MoveElement { from_x: x, from_y: y, to_x: x, to_y })
                } else {
                    None
                }
            },
        }
    }

    /// Moving diagonally, given the answers of the draws: the move into a
    /// free diagonal cell, the one the coin names where both are free, if
    /// the second draw does not say to spread.
    pub fn move_down_side_choice(&self, x: usize, y: usize, coin: bool, skip: bool) -> (choice:
        Option<Move>)
        requires
            self.wf(),
            self@.in_viewport(x as int, y as int),
        ensures
            choice == self@.move_down_side_choice(x as int, y as int, coin, skip),
    {
        proof {
            reveal(WorldView::move_down_side_choice);
        }
        match self.natural_row(x, y, false) {
            None => None,
            Some(to_y) => {
                let left = self.diagonal_free(x, y, to_y, Side::Left);
                let right = self.diagonal_free(x, y, to_y, Side::Right);
                match take_side(left, right, coin) {
                    None => None,
                    Some(side) => {
                        let to_x = self.column_beside(x, side).unwrap();
                        if self.at(x, y).spread_side_prob(&self.at(to_x, to_y)).settle(skip) {
                            None
                        } else {
                            Some(Move::MoveElement { from_x: x, from_y: y, to_x, to_y })
                        }
                    },
                }
            },
        }
    }

    /// Sinking, given the answers of the draws: the swap with the liquid or
    /// gas below, if that is lighter, the first draw does not say to spread
    /// and the second says to sink.
    pub fn swap_down_choice(&self, x: usize, y: usize, skip: bool, hit: bool) -> (choice: Option<
        Move,
    >)
        requires
            self.wf(),
            self@.in_viewport(x as int, y as int),
        ensures
            choice == self@.swap_down_choice(x as int, y as int, skip, hit),
    {
        proof {
            reveal(WorldView::swap_down_choice);
        }
        if y + 1 < self.viewport_height() {
            let own_element = self.at(x, y);
            let below_element = self.at(x, y + 1);
            if !below_element.is_liquid_or_gas() {
                None
            } else if own_element.spread_prob(&below_element).settle(skip) {
                None
            } else {
                match (own_element.density(), below_element.density()) {
                    (Some(own), Some(below)) => {
                        if below < own && swap_probability(own, below).settle(hit) {
                            Some(Move::SwapElement { from_x: x, from_y: y, to_x: x, to_y: y + 1 })
                        } else {
                            None
                        }
                    },
                    _ => None,
                }
            }
        } else {
            None
        }
    }

    /// Sinking diagonally, given the answers of the draws: the swap with a
    /// lighter liquid or gas diagonally below, the one the coin names where
    /// both diagonals give way, if the second draw says to sink and the
    /// third does not say to spread.
    pub fn swap_down_side_choice(
        &self,
        x: usize,
        y: usize,
        coin: bool,
        hit: bool,
        skip: bool,
    ) -> (choice: Option<Move>)
        requires
            self.wf(),
            self@.in_viewport(x as int, y as int),
        ensures
            choice == self@.swap_down_side_choice(x as int, y as int, coin, hit, skip),
    {
        proof {
            reveal(WorldView::swap_down_side_choice);
        }
        if y + 1 < self.viewport_height() {
            let left = self.diagonal_gives_way(x, y, Side::Left);
            let right = self.diagonal_gives_way(x, y, Side::Right);
            match take_side(left, right, coin) {
                None => None,
                Some(side) => {
                    let to_x = self.column_beside(x, side).unwrap();
                    let own_element = self.at(x, y);
                    let below_element = self.at(to_x, y + 1);
                    let own: u32 = own_element.density().unwrap();
                    let below: u32 = below_element.density().unwrap();
                    if !damped_swap_probability(own, below).settle(hit) {
                        None
                    } else if own_element.spread_side_prob(&below_element).settle(skip) {
                        None
                    } else {
                        Some(Move::SwapElement { from_x: x, from_y: y, to_x, to_y: y + 1 })
                    }
                },
            }
        } else {
            None
        }
    }

    /// Flowing, given the answer of the coin: the move into an empty cell
    /// of the same row, the one the coin names where both sides are free.
    pub fn move_side_choice(&self, x: usize, y: usize, coin: bool) -> (choice: Option<Move>)
        requires
            self.wf(),
            self@.in_viewport(x as int, y as int),
        ensures
            choice == self@.move_side_choice(x as int, y as int, coin),
    {
        proof {
            reveal(WorldView::move_side_choice);
        }
        let left = self.level_free(x, y, Side::Left);
        let right = self.level_free(x, y, Side::Right);
        match take_side(left, right, coin) {
            None => None,
            Some(side) => {
                let to_x = self.column_beside(x, side).unwrap();
                Some(Move::MoveElement { from_x: x, from_y: y, to_x, to_y: y })
            },
        }
    }

    /// Adds the choice to the pending moves, if it is one, and tells
    /// whether it was.
    fn propose_choice(&mut self, choice: Option<Move>) -> (pushed: bool)
        ensures
            final(self)@ == old(self)@,
            proposed(old(self).pending(), final(self).pending(), pushed, choice),
    {
        match choice {
            Some(chosen) => {
                self.propose(chosen);
                true
            },
            None => false,
        }
    }

    /// Tries to propose a move straight on, down or up as the density
    /// says, and tells whether it did. Where there is a cell to move to, a
    /// draw with the spread probability decides whether the element spreads
    /// instead; the rest is [`GameWorld::move_down_choice`].
    pub fn move_down(&mut self, x: usize, y: usize, rng: &mut XorShiftRng) -> (pushed: bool)
        requires
            old(self).wf(),
            old(self)@.in_viewport(x as int, y as int),
        ensures
            final(self)@ == old(self)@,
            exists|skip: bool|
                proposed(
                    old(self).pending(),
                    final(self).pending(),
                    pushed,
                    #[trigger] old(self)@.move_down_choice(x as int, y as int, skip),
                ),
    {
        let skip = match self.natural_row(x, y, true) {
            None => false,
            Some(to_y) => draw_ratio(rng, self.at(x, y).spread_prob(&self.at(x, to_y))),
        };
        let choice = self.move_down_choice(x, y, skip);
        self.propose_choice(choice)
    }

    /// Tries to propose a move to a diagonal cell, and tells whether it
    /// did. A coin is tossed where both diagonals are free; where one is
    /// taken, a draw with the side spread probability decides whether the
    /// element spreads instead; the rest is
    /// [`GameWorld::move_down_side_choice`].
    pub fn move_down_side(&mut self, x: usize, y: usize, rng: &mut XorShiftRng) -> (pushed: bool)
        requires
            old(self).wf(),
            old(self)@.in_viewport(x as int, y as int),
        ensures
            final(self)@ == old(self)@,
            exists|coin: bool, skip: bool|
                proposed(
                    old(self).pending(),
                    final(self).pending(),
                    pushed,
                    #[trigger] old(self)@.move_down_side_choice(x as int, y as int, coin, skip),
                ),
    {
        let mut coin = false;
        let mut skip = false;
        if let Some(to_y) = self.natural_row(x, y, false) {
            let left = self.diagonal_free(x, y, to_y, Side::Left);
            let right = self.diagonal_free(x, y, to_y, Side::Right);
            if left && right {
                coin = draw_ratio(rng, Probability { numerator: 1, denominator: 2 });
            }
            if let Some(side) = take_side(left, right, coin) {
                let to_x = self.column_beside(x, side).unwrap();
                skip = draw_ratio(rng, self.at(x, y).spread_side_prob(&self.at(to_x, to_y)));
            }
        }
        let choice = self.move_down_side_choice(x, y, coin, skip);
        self.propose_choice(choice)
    }

    /// Tries to propose a swap with the lighter liquid or gas below, and
    /// tells whether it did. Where a liquid or gas lies below, a draw with
    /// the spread probability decides whether the element spreads instead;
    /// if not and the other is lighter, a draw with the swap probability
    /// decides whether the element sinks; the rest is
    /// [`GameWorld::swap_down_choice`].
    pub fn swap_down(&mut self, x: usize, y: usize, rng: &mut XorShiftRng) -> (pushed: bool)
        requires
            old(self).wf(),
            old(self)@.in_viewport(x as int, y as int),
        ensures
            final(self)@ == old(self)@,
            exists|skip: bool, hit: bool|
                proposed(
                    old(self).pending(),
                    final(self).pending(),
                    pushed,
                    #[trigger] old(self)@.swap_down_choice(x as int, y as int, skip, hit),
                ),
    {
        let mut skip = false;
        let mut hit = false;
        if y + 1 < self.viewport_height() {
            let own_element = self.at(x, y);
            let below_element = self.at(x, y + 1);
            if below_element.is_liquid_or_gas() {
                skip = draw_ratio(rng, own_element.spread_prob(&below_element));
                if !skip {
                    if let Some(own) = own_element.density() {
                        if let Some(below) = below_element.density() {
                            if below < own {
                                hit = draw_ratio(rng, swap_probability(own, below));
                            }
                        }
                    }
                }
            }
        }
        let choice = self.swap_down_choice(x, y, skip, hit);
        self.propose_choice(choice)
    }

    /// Tries to propose a swap with a lighter liquid or gas diagonally
    /// below, and tells whether it did. A coin is tossed where both
    /// diagonals give way; where one is taken, a draw with the damped swap
    /// probability decides whether the element sinks, and if so a draw with
    /// the side spread probability whether it spreads instead; the rest is
    /// [`GameWorld::swap_down_side_choice`].
    pub fn swap_down_side(&mut self, x: usize, y: usize, rng: &mut XorShiftRng) -> (pushed: bool)
        requires
            old(self).wf(),
            old(self)@.in_viewport(x as int, y as int),
        ensures
            final(self)@ == old(self)@,
            exists|coin: bool, hit: bool, skip: bool|
                proposed(
                    old(self).pending(),
                    final(self).pending(),
                    pushed,
                    #[trigger] old(self)@.swap_down_side_choice(
                        x as int,
                        y as int,
                        coin,
                        hit,
                        skip,
                    ),
                ),
    {
        let mut coin = false;
        let mut hit = false;
        let mut skip = false;
        if y + 1 < self.viewport_height() {
            let left = self.diagonal_gives_way(x, y, Side::Left);
            let right = self.diagonal_gives_way(x, y, Side::Right);
            if left && right {
                coin = draw_ratio(rng, Probability { numerator: 1, denominator: 2 });
            }
            if let Some(side) = take_side(left, right, coin) {
                let to_x = self.column_beside(x, side).unwrap();
                let own_element = self.at(x, y);
                let below_element = self.at(to_x, y + 1);
                let own: u32 = own_element.density().unwrap();
                let below: u32 = below_element.density().unwrap();
                hit = draw_ratio(rng, damped_swap_probability(own, below));
                if hit {
                    skip = draw_ratio(rng, own_element.spread_side_prob(&below_element));
                }
            }
        }
        let choice = self.swap_down_side_choice(x, y, coin, hit, skip);
        self.propose_choice(choice)
    }

    /// Tries to propose a move to an empty cell of the same row, and tells
    /// whether it did. A coin is tossed where both sides are free; the rest
    /// is [`GameWorld::move_side_choice`].
    pub fn move_side(&mut self, x: usize, y: usize, rng: &mut XorShiftRng) -> (pushed: bool)
        requires
            old(self).wf(),
            old(self)@.in_viewport(x as int, y as int),
        ensures
            final(self)@ == old(self)@,
            exists|coin: bool|
                proposed(
                    old(self).pending(),
                    final(self).pending(),
                    pushed,
                    #[trigger] old(self)@.move_side_choice(x as int, y as int, coin),
                ),
    {
        let left = self.level_free(x, y, Side::Left);
        let right = self.level_free(x, y, Side::Right);
        let coin = if left && right {
            draw_ratio(rng, Probability { numerator: 1, denominator: 2 })
        } else {
            false
        };
        let choice = self.move_side_choice(x, y, coin);
        self.propose_choice(choice)
    }
}

} // verus!
