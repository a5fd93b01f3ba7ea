//! The rules of a tick as mathematical functions of the world and of what
//! the random source answered.
//!
//! Every draw that the simulation makes has a place in a record of draws.
//! A rule reads the draws it needs and ignores the others, so that the
//! world after a tick is a function of the world before it and of the
//! draws alone.

use crate::element::{Element, ElementKind, AIR_DENSITY};
use crate::probability::Probability;
use crate::world::grid::put;
use crate::world::moves::{by_target, Move};
use crate::world::transmute::{or_empty, reaction};
use crate::world::WorldView;
use vstd::prelude::*;

verus! {

/// One of the two sides a particle can give way to.
#[derive(Copy, Clone, PartialEq, Eq, Debug, Structural)]
pub enum Side {
    Left,
    Right,
}

/// The draws that one cell can make while it looks for a move.
pub struct MoveDraws {
    /// Whether to spread instead of moving straight on.
    pub down_skip: bool,
    /// Which diagonal to take where both are free.
    pub side_coin: bool,
    /// Whether to spread instead of moving diagonally.
    pub side_skip: bool,
    /// Whether to spread instead of sinking into what lies below.
    pub swap_skip: bool,
    /// Whether the element sinks into what lies below.
    pub swap_hit: bool,
    /// Which diagonal to sink into where both give way.
    pub swap_side_coin: bool,
    /// Whether the element sinks diagonally.
    pub swap_side_hit: bool,
    /// Whether to spread instead of sinking diagonally.
    pub swap_side_skip: bool,
    /// Which side to flow to where both are free.
    pub level_coin: bool,
}

/// The draws of one reaction between a cell and a neighbour.
pub struct ProbeDraw {
    /// Whether the reaction fires.
    pub answer: bool,
    /// Which of several candidates comes out.
    pub pick: int,
}

/// The draws of the reactions of one cell with its four neighbours.
pub struct ReactionDraws {
    pub top: ProbeDraw,
    pub left: ProbeDraw,
    pub right: ProbeDraw,
    pub bottom: ProbeDraw,
}

/// All the draws of one tick. `decay[(x, y)]` is the draw of the decay of
/// the cell `(x, y)`. The draws of the other two passes stand row by row,
/// in the order in which the cells are visited: `reactions[y][x]` and
/// `moves[y][x]` belong to the cell `(x, y)`. `picks[i]` chooses among the
/// moves that share a destination with the `i`-th sorted move.
pub struct TickDraws {
    pub decay: Map<(int, int), bool>,
    pub reactions: Seq<Seq<ReactionDraws>>,
    pub moves: Seq<Seq<MoveDraws>>,
    pub picks: Seq<int>,
}

/// A table of draws has a row for every row of the viewport and in each row
/// an entry for every column.
pub open spec fn covers<D>(draws: Seq<Seq<D>>, width: nat, height: nat) -> bool {
    &&& draws.len() == height
    &&& forall|y: int| 0 <= y < height ==> (#[trigger] draws[y]).len() == width
}

/// The chance `1 - below / own` with which an element sinks into a lighter one.
pub open spec fn swap_chance(own: u32, below: u32) -> Probability {
    Probability { numerator: (own - below) as u32, denominator: own }
}

/// Three quarters of the swap chance: sinking diagonally is rarer.
pub open spec fn damped_swap_chance(own: u32, below: u32) -> Probability {
    Probability { numerator: (3 * (own - below)) as u32, denominator: (4 * own) as u32 }
}

/// The side that is taken: the free one, or the one the coin names where
/// both are free.
pub open spec fn side_taken(left: bool, right: bool, coin: bool) -> Option<Side> {
    if left && right {
        if coin {
            Some(Side::Left)
        } else {
            Some(Side::Right)
        }
    } else if left {
        Some(Side::Left)
    } else if right {
        Some(Side::Right)
    } else {
        None
    }
}

/// The column beside `x` on the given side.
pub open spec fn beside(x: int, side: Side) -> int {
    match side {
        Side::Left => x - 1,
        Side::Right => x + 1,
    }
}

/// The move of the element in `(x, y)` to the empty cell `(to_x, to_y)`.
pub open spec fn step(x: int, y: int, to_x: int, to_y: int) -> Move {
    Move::MoveElement {
        from_x: x as usize,
        from_y: y as usize,
        to_x: to_x as usize,
        to_y: to_y as usize,
    }
}

/// The exchange of the elements in `(x, y)` and `(to_x, to_y)`.
pub open spec fn swap(x: int, y: int, to_x: int, to_y: int) -> Move {
    Move::SwapElement {
        from_x: x as usize,
        from_y: y as usize,
        to_x: to_x as usize,
        to_y: to_y as usize,
    }
}

/// The first of two proposals that is one.
pub open spec fn first_of(first: Option<Move>, second: Option<Move>) -> Option<Move> {
    if first is Some {
        first
    } else {
        second
    }
}

/// The moves with the proposal added, if it is one.
pub open spec fn extend(moves: Seq<Move>, proposal: Option<Move>) -> Seq<Move> {
    match proposal {
        Some(proposed) => moves.push(proposed),
        None => moves,
    }
}

/// What a strategy did: it reports a move exactly if it proposed one, and
/// the proposal is the one new entry among the pending moves.
pub open spec fn proposed(
    before: Seq<Move>,
    after: Seq<Move>,
    pushed: bool,
    proposal: Option<Move>,
) -> bool {
    pushed == (proposal is Some) && after == extend(before, proposal)
}

/// The number nearest to `pick` between `low` and `high`.
pub open spec fn clamp(pick: int, low: int, high: int) -> int {
    if pick < low {
        low
    } else if pick > high {
        high
    } else {
        pick
    }
}

/// What an element is after it had its chance to decay.
pub open spec fn decay_outcome(element: Element, answer: bool) -> Element {
    match element.spec_decay_prob() {
        Some(chance) => if chance.settle(answer) {
            or_empty(element.spec_decays_to())
        } else {
            element
        },
        None => element,
    }
}

/// The grid after one move was carried out: the source's element stands in
/// the target; the source is empty after a move and holds what the target
/// held after a swap.
pub open spec fn carry_out(cells: Seq<Seq<Element>>, chosen: Move) -> Seq<Seq<Element>> {
    match chosen {
        Move::MoveElement { from_x, from_y, to_x, to_y } => put(
            put(cells, to_x as int, to_y as int, cells[from_x as int][from_y as int]),
            from_x as int,
            from_y as int,
            Element::Empty,
        ),
        Move::SwapElement { from_x, from_y, to_x, to_y } => put(
            put(cells, to_x as int, to_y as int, cells[from_x as int][from_y as int]),
            from_x as int,
            from_y as int,
            cells[to_x as int][to_y as int],
        ),
    }
}

/// The grid after the moves were carried out one after the other.
pub open spec fn carried_out(cells: Seq<Seq<Element>>, chosen: Seq<Move>) -> Seq<Seq<Element>>
    decreases chosen.len(),
{
    if chosen.len() == 0 {
        cells
    } else {
        carry_out(carried_out(cells, chosen.drop_last()), chosen.last())
    }
}

/// Where the run of moves with the destination of the `i`-th move begins.
pub open spec fn run_start(sorted: Seq<Move>, i: int) -> int
    decreases i,
{
    if i <= 0 {
        0
    } else if sorted[i - 1].target() == sorted[i].target() {
        run_start(sorted, i - 1)
    } else {
        i
    }
}

/// The `i`-th move is the last with its destination.
pub open spec fn ends_run(sorted: Seq<Move>, i: int) -> bool {
    i + 1 >= sorted.len() || sorted[i].target() != sorted[i + 1].target()
}

/// The moves that are carried out among the first `picks.len()` sorted
/// moves: of every run of moves with the same destination that ends there,
/// the one that the pick at the end of the run names.
pub open spec fn winners(sorted: Seq<Move>, picks: Seq<int>) -> Seq<Move>
    decreases picks.len(),
{
    if picks.len() == 0 {
        Seq::empty()
    } else {
        let i = picks.len() - 1;
        let before = winners(sorted, picks.drop_last());
        if i < sorted.len() && ends_run(sorted, i) {
            before.push(sorted[clamp(picks.last(), run_start(sorted, i), i)])
        } else {
            before
        }
    }
}

impl WorldView {
    /// The probability with which the element in `(x, y)` spreads instead
    /// of moving into `(to_x, to_y)`.
    pub open spec fn spread_into(self, x: int, y: int, to_x: int, to_y: int) -> Probability {
        self.at(x, y).spec_spread_prob(&self.at(to_x, to_y))
    }

    /// The probability with which the element in `(x, y)` spreads instead
    /// of moving diagonally into `(to_x, to_y)`.
    pub open spec fn spread_side_into(self, x: int, y: int, to_x: int, to_y: int) -> Probability {
        self.at(x, y).spec_spread_side_prob(&self.at(to_x, to_y))
    }

    /// The cell is empty.
    pub open spec fn free(self, x: int, y: int) -> bool {
        self.at(x, y) == Element::Empty
    }

    /// The row that an element moves towards: the one below where it is
    /// denser than air, the one above where it is lighter. An element as
    /// dense as air rises where `rises_at_par` says so and has no such row
    /// otherwise.
    pub open spec fn natural_row(self, x: int, y: int, rises_at_par: bool) -> Option<int> {
        match self.at(x, y).spec_density() {
            None => None,
            Some(density) => if density > AIR_DENSITY {
                if y + 1 < self.height {
                    Some(y + 1)
                } else {
                    None
                }
            } else if density < AIR_DENSITY || rises_at_par {
                if y > 0 {
                    Some(y - 1)
                } else {
                    None
                }
            } else {
                None
            },
        }
    }

    /// Moving straight on: into the cell below or above, if it is empty and
    /// the draw does not say to spread.
    #[verifier::opaque]
    pub open spec fn move_down_choice(self, x: int, y: int, skip: bool) -> Option<Move> {
        match self.natural_row(x, y, true) {
            None => None,
            Some(to_y) => if self.spread_into(x, y, x, to_y).settle(skip) {
                None
            } else if self.free(x, to_y) {
                Some(step(x, y, x, to_y))
            } else {
                None
            },
        }
    }

    /// Whether the diagonal cell on the given side of `(x, y)`, in the row
    /// `to_y`, can be moved into: it is in the viewport and empty, and the
    /// way there is not blocked both beside and ahead.
    pub open spec fn diagonal_free(self, x: int, y: int, to_y: int, side: Side) -> bool {
        let to_x = beside(x, side);
        &&& 0 <= to_x < self.width
        &&& self.free(to_x, to_y)
        &&& (self.free(to_x, y) || self.free(x, to_y))
    }

    /// Moving diagonally: into a free diagonal cell of the row below or
    /// above, if the draw does not say to spread.
    #[verifier::opaque]
    pub open spec fn move_down_side_choice(self, x: int, y: int, coin: bool, skip: bool) -> Option<
        Move,
    > {
        match self.natural_row(x, y, false) {
            None => None,
            Some(to_y) => match side_taken(
                self.diagonal_free(x, y, to_y, Side::Left),
                self.diagonal_free(x, y, to_y, Side::Right),
                coin,
            ) {
                None => None,
                Some(side) => if self.spread_side_into(x, y, beside(x, side), to_y).settle(skip) {
                    None
                } else {
                    Some(step(x, y, beside(x, side), to_y))
                },
            },
        }
    }

    /// Sinking: exchanging places with the liquid or gas below, if that is
    /// lighter and neither draw says otherwise.
    #[verifier::opaque]
    pub open spec fn swap_down_choice(self, x: int, y: int, skip: bool, hit: bool) -> Option<Move> {
        if y + 1 < self.height {
            if !self.at(x, y + 1).spec_is_liquid_or_gas() {
                None
            } else if self.spread_into(x, y, x, y + 1).settle(skip) {
                None
            } else {
                match (self.at(x, y).spec_density(), self.at(x, y + 1).spec_density()) {
                    (Some(own), Some(below)) => if below < own && swap_chance(own, below).settle(
                        hit,
                    ) {
                        Some(swap(x, y, x, y + 1))
                    } else {
                        None
                    },
                    _ => None,
                }
            }
        } else {
            None
        }
    }

    /// Whether the element in `(x, y)` can sink into the diagonal cell on
    /// the given side: that cell is in the viewport and holds a lighter
    /// liquid or gas, and the way there is not blocked both beside and below.
    pub open spec fn diagonal_gives_way(self, x: int, y: int, side: Side) -> bool {
        let to_x = beside(x, side);
        &&& 0 <= to_x < self.width
        &&& self.at(to_x, y + 1).spec_is_liquid_or_gas()
        &&& (self.free(to_x, y) || self.free(x, y + 1))
        &&& match (self.at(x, y).spec_density(), self.at(to_x, y + 1).spec_density()) {
            (Some(own), Some(below)) => below < own,
            _ => false,
        }
    }

    /// Sinking diagonally: exchanging places with a lighter liquid or gas
    /// diagonally below, if the draws allow it.
    #[verifier::opaque]
    pub open spec fn swap_down_side_choice(
        self,
        x: int,
        y: int,
        coin: bool,
        hit: bool,
        skip: bool,
    ) -> Option<Move> {
        if y + 1 < self.height {
            match side_taken(
                self.diagonal_gives_way(x, y, Side::Left),
                self.diagonal_gives_way(x, y, Side::Right),
                coin,
            ) {
                None => None,
                Some(side) => {
                    let to_x = beside(x, side);
                    let own = self.at(x, y).spec_density().unwrap();
                    let below = self.at(to_x, y + 1).spec_density().unwrap();
                    if !damped_swap_chance(own, below).settle(hit) {
                        None
                    } else if self.spread_side_into(x, y, to_x, y + 1).settle(skip) {
                        None
                    } else {
                        Some(swap(x, y, to_x, y + 1))
                    }
                },
            }
        } else {
            None
        }
    }

    /// Whether the cell beside `(x, y)` on the given side is in the
    /// viewport and empty.
    pub open spec fn level_free(self, x: int, y: int, side: Side) -> bool {
        let to_x = beside(x, side);
        0 <= to_x < self.width && self.free(to_x, y)
    }

    /// Flowing: moving into an empty cell of the same row.
    #[verifier::opaque]
    pub open spec fn move_side_choice(self, x: int, y: int, coin: bool) -> Option<Move> {
        match side_taken(
            self.level_free(x, y, Side::Left),
            self.level_free(x, y, Side::Right),
            coin,
        ) {
            None => None,
            Some(side) => Some(step(x, y, beside(x, side), y)),
        }
    }

    /// What the cell `(x, y)` proposes: nothing in the bottom row and for
    /// what is empty or solid; else the first move that one of the
    /// strategies of its kind comes up with, tried in the order of that kind.
    pub open spec fn proposal(self, x: int, y: int, draws: MoveDraws) -> Option<Move> {
        let down = self.move_down_choice(x, y, draws.down_skip);
        let down_side = self.move_down_side_choice(x, y, draws.side_coin, draws.side_skip);
        let sink = self.swap_down_choice(x, y, draws.swap_skip, draws.swap_hit);
        let sink_side = self.swap_down_side_choice(
            x,
            y,
            draws.swap_side_coin,
            draws.swap_side_hit,
            draws.swap_side_skip,
        );
        let level = self.move_side_choice(x, y, draws.level_coin);
        if y + 1 == self.height {
            None
        } else {
            match self.at(x, y).spec_kind() {
                ElementKind::Empty => None,
                ElementKind::Solid => None,
                ElementKind::Powder { .. } => first_of(
                    down,
                    first_of(down_side, first_of(sink, sink_side)),
                ),
                ElementKind::Liquid { .. } => first_of(
                    down,
                    first_of(down_side, first_of(sink, first_of(sink_side, level))),
                ),
                ElementKind::Gas { .. } => first_of(
                    down,
                    first_of(level, first_of(down_side, first_of(sink_side, sink))),
                ),
            }
        }
    }

    /// A move that a cell of this world may propose: it leads from an
    /// occupied cell above the bottom row to another cell of the viewport,
    /// which is empty for a move and holds a liquid or a gas for a swap.
    pub open spec fn admits(self, proposed: Move) -> bool {
        let source = proposed.source();
        let target = proposed.target();
        &&& self.in_viewport(source.0, source.1)
        &&& source.1 + 1 < self.height
        &&& self.in_viewport(target.0, target.1)
        &&& source != target
        &&& !self.free(source.0, source.1)
        &&& match proposed {
            Move::MoveElement { .. } => self.free(target.0, target.1),
            Move::SwapElement { .. } => self.at(target.0, target.1).spec_is_liquid_or_gas(),
        }
    }

    /// The proposal, if it is one, is a move of the cell `(x, y)` that the
    /// world admits.
    pub open spec fn own_and_admitted(self, x: int, y: int, proposal: Option<Move>) -> bool {
        proposal matches Some(proposed) ==> self.admits(proposed) && proposed.source() == (x, y)
    }

    /// Moving straight on is admitted.
    pub proof fn lemma_move_down_admitted(self, x: int, y: int, skip: bool)
        requires
            self.wf(),
            self.in_viewport(x, y),
            y + 1 < self.height,
            !self.free(x, y),
        ensures
            self.own_and_admitted(x, y, self.move_down_choice(x, y, skip)),
    {
        reveal(WorldView::move_down_choice);
    }

    /// Moving diagonally is admitted.
    pub proof fn lemma_move_down_side_admitted(self, x: int, y: int, coin: bool, skip: bool)
        requires
            self.wf(),
            self.in_viewport(x, y),
            y + 1 < self.height,
            !self.free(x, y),
        ensures
            self.own_and_admitted(x, y, self.move_down_side_choice(x, y, coin, skip)),
    {
        reveal(WorldView::move_down_side_choice);
    }

    /// Sinking is admitted.
    pub proof fn lemma_swap_down_admitted(self, x: int, y: int, skip: bool, hit: bool)
        requires
            self.wf(),
            self.in_viewport(x, y),
            y + 1 < self.height,
            !self.free(x, y),
        ensures
            self.own_and_admitted(x, y, self.swap_down_choice(x, y, skip, hit)),
    {
        reveal(WorldView::swap_down_choice);
    }

    /// Sinking diagonally is admitted.
    pub proof fn lemma_swap_down_side_admitted(
        self,
        x: int,
        y: int,
        coin: bool,
        hit: bool,
        skip: bool,
    )
        requires
            self.wf(),
            self.in_viewport(x, y),
            y + 1 < self.height,
            !self.free(x, y),
        ensures
            self.own_and_admitted(x, y, self.swap_down_side_choice(x, y, coin, hit, skip)),
    {
        reveal(WorldView::swap_down_side_choice);
    }

    /// Flowing is admitted.
    pub proof fn lemma_move_side_admitted(self, x: int, y: int, coin: bool)
        requires
            self.wf(),
            self.in_viewport(x, y),
            y + 1 < self.height,
            !self.free(x, y),
        ensures
            self.own_and_admitted(x, y, self.move_side_choice(x, y, coin)),
    {
        reveal(WorldView::move_side_choice);
    }

    /// Whatever the draws, a cell proposes only moves that the world
    /// admits, and only moves of its own element.
    pub proof fn lemma_proposal_admitted(self, x: int, y: int, draws: MoveDraws)
        requires
            self.wf(),
            self.in_viewport(x, y),
        ensures
            self.own_and_admitted(x, y, self.proposal(x, y, draws)),
    {
        if y + 1 < self.height && !(self.at(x, y).spec_kind() is Empty) {
            self.lemma_move_down_admitted(x, y, draws.down_skip);
            self.lemma_move_down_side_admitted(x, y, draws.side_coin, draws.side_skip);
            self.lemma_swap_down_admitted(x, y, draws.swap_skip, draws.swap_hit);
            self.lemma_swap_down_side_admitted(
                x,
                y,
                draws.swap_side_coin,
                draws.swap_side_hit,
                draws.swap_side_skip,
            );
            self.lemma_move_side_admitted(x, y, draws.level_coin);
        }
    }

    /// The moves that the first `draws.len()` cells of the row `y` propose.
    pub open spec fn proposals_row(self, y: int, draws: Seq<MoveDraws>) -> Seq<Move>
        decreases draws.len(),
    {
        if draws.len() == 0 {
            Seq::empty()
        } else {
            extend(
                self.proposals_row(y, draws.drop_last()),
                self.proposal(draws.len() - 1, y, draws.last()),
            )
        }
    }

    /// The moves that the cells of the first `draws.len()` rows propose,
    /// row by row from the top.
    pub open spec fn proposals(self, draws: Seq<Seq<MoveDraws>>) -> Seq<Move>
        decreases draws.len(),
    {
        if draws.len() == 0 {
            Seq::empty()
        } else {
            self.proposals(draws.drop_last()) + self.proposals_row(draws.len() - 1, draws.last())
        }
    }

    /// Every move proposed in a row is admitted.
    pub proof fn lemma_row_admitted(self, y: int, draws: Seq<MoveDraws>)
        requires
            self.wf(),
            0 <= y < self.height,
            draws.len() <= self.width,
        ensures
            forall|k: int|
                0 <= k < self.proposals_row(y, draws).len() ==> self.admits(
                    #[trigger] self.proposals_row(y, draws)[k],
                ),
        decreases draws.len(),
    {
        if draws.len() > 0 {
            let before = self.proposals_row(y, draws.drop_last());
            let proposal = self.proposal(draws.len() - 1, y, draws.last());
            let all = self.proposals_row(y, draws);
            self.lemma_row_admitted(y, draws.drop_last());
            self.lemma_proposal_admitted(draws.len() - 1, y, draws.last());
            assert(all == extend(before, proposal));
            assert forall|k: int| 0 <= k < all.len() implies self.admits(#[trigger] all[k]) by {
                if k < before.len() {
                    assert(all[k] == before[k]);
                } else {
                    assert(all[k] == proposal.unwrap());
                }
            }
        }
    }

    /// Every proposed move is admitted.
    pub proof fn lemma_proposals_admitted(self, draws: Seq<Seq<MoveDraws>>)
        requires
            self.wf(),
            draws.len() <= self.height,
            forall|y: int| 0 <= y < draws.len() ==> (#[trigger] draws[y]).len() <= self.width,
        ensures
            forall|k: int|
                0 <= k < self.proposals(draws).len() ==> self.admits(
                    #[trigger] self.proposals(draws)[k],
                ),
        decreases draws.len(),
    {
        if draws.len() > 0 {
            let before = self.proposals(draws.drop_last());
            let row = self.proposals_row(draws.len() - 1, draws.last());
            let all = self.proposals(draws);
            self.lemma_proposals_admitted(draws.drop_last());
            self.lemma_row_admitted(draws.len() - 1, draws.last());
            assert(all == before + row);
            assert forall|k: int| 0 <= k < all.len() implies self.admits(#[trigger] all[k]) by {
                if k < before.len() {
                    assert(all[k] == before[k]);
                } else {
                    assert(all[k] == row[k - before.len()]);
                }
            }
        }
    }

    /// The world after the decay pass: every cell of the viewport had its
    /// chance to decay.
    pub open spec fn decayed(self, answers: Map<(int, int), bool>) -> WorldView {
        self.with_cells(
            Seq::new(
                self.cells.len(),
                |x: int|
                    Seq::new(
                        self.cells[x].len(),
                        |y: int|
                            if self.in_viewport(x, y) {
                                decay_outcome(self.cells[x][y], answers[(x, y)])
                            } else {
                                self.cells[x][y]
                            },
                    ),
            ),
        )
    }

    /// The world after the element in `(x, y)` had its chance to react with
    /// its neighbour in `(to_x, to_y)`; nothing happens where that lies
    /// outside the viewport.
    pub open spec fn probed(
        self,
        x: int,
        y: int,
        to_x: int,
        to_y: int,
        draw: ProbeDraw,
    ) -> WorldView {
        if self.in_viewport(to_x, to_y) {
            let a = self.at(x, y);
            let b = self.at(to_x, to_y);
            let after = reaction(a, b).outcome_at(a, b, draw.answer, draw.pick);
            self.with_cells(put(put(self.cells, x, y, after.0), to_x, to_y, after.1))
        } else {
            self
        }
    }

    /// The world after the element in `(x, y)` had its chance to react with
    /// the neighbours above, to the left, to the right and below, in this
    /// order, each reaction seeing what the one before left.
    pub open spec fn transmuted_cell(self, x: int, y: int, draws: ReactionDraws) -> WorldView {
        self.probed(x, y, x, y - 1, draws.top).probed(x, y, x - 1, y, draws.left).probed(
            x,
            y,
            x + 1,
            y,
            draws.right,
        ).probed(x, y, x, y + 1, draws.bottom)
    }

    /// The world after the first `draws.len()` cells of the row `y` reacted.
    pub open spec fn transmuted_row(self, y: int, draws: Seq<ReactionDraws>) -> WorldView
        decreases draws.len(),
    {
        if draws.len() == 0 {
            self
        } else {
            self.transmuted_row(y, draws.drop_last()).transmuted_cell(
                draws.len() - 1,
                y,
                draws.last(),
            )
        }
    }

    /// The world after the cells of the first `draws.len()` rows reacted,
    /// row by row from the top.
    pub open spec fn transmuted(self, draws: Seq<Seq<ReactionDraws>>) -> WorldView
        decreases draws.len(),
    {
        if draws.len() == 0 {
            self
        } else {
            self.transmuted(draws.drop_last()).transmuted_row(draws.len() - 1, draws.last())
        }
    }

    /// The world after the movement pass: the cells propose their moves,
    /// the moves are sorted by destination, and of the moves to one
    /// destination the one that the pick names is carried out.
    pub open spec fn moved(self, draws: Seq<Seq<MoveDraws>>, picks: Seq<int>) -> WorldView {
        self.with_cells(carried_out(self.cells, winners(by_target(self.proposals(draws)), picks)))
    }

    /// The draws are those of a whole tick of this world.
    pub open spec fn fits(self, draws: TickDraws) -> bool {
        &&& covers(draws.reactions, self.width, self.height)
        &&& covers(draws.moves, self.width, self.height)
        &&& draws.picks.len() == by_target(
            self.decayed(draws.decay).transmuted(draws.reactions).proposals(draws.moves),
        ).len()
    }

    /// The world after a tick: after the decay pass, the transmutation pass
    /// and the movement pass, in this order.
    pub open spec fn tick_outcome(self, draws: TickDraws) -> WorldView {
        self.decayed(draws.decay).transmuted(draws.reactions).moved(draws.moves, draws.picks)
    }
}

} // verus!
