//! What holds of the movement pass whatever the random source answers.

use crate::element::Element;
use crate::world::grid::{
    census, exchange, in_grid, lemma_census_exchange, lemma_put_same, particles, same_shape,
};
use crate::world::moves::{by_target, descending, lemma_by_target, lemma_by_target_same_moves, Move};
use crate::world::rules::{
    carried_out, carry_out, clamp, ends_run, run_start, winners, MoveDraws, ProbeDraw,
    ReactionDraws, TickDraws,
};
use crate::world::transmute::reaction;
use crate::world::WorldView;
use vstd::prelude::*;

verus! {

/// `a` goes to a destination that comes strictly before that of `b`.
pub open spec fn strictly_before(a: Move, b: Move) -> bool {
    a.target().0 > b.target().0 || (a.target().0 == b.target().0 && a.target().1 > b.target().1)
}

/// A run begins at or before the move it is the run of.
pub proof fn lemma_run_start_bounds(sorted: Seq<Move>, i: int)
    requires
        0 <= i,
    ensures
        0 <= run_start(sorted, i) <= i,
    decreases i,
{
    if i > 0 && sorted[i - 1].target() == sorted[i].target() {
        lemma_run_start_bounds(sorted, i - 1);
    }
}

/// All moves of a run have the same destination.
pub proof fn lemma_run_shares_target(sorted: Seq<Move>, i: int, c: int)
    requires
        0 <= i,
        run_start(sorted, i) <= c <= i,
    ensures
        sorted[c].target() == sorted[i].target(),
    decreases i,
{
    if c < i {
        lemma_run_shares_target(sorted, i - 1, c);
    }
}

/// Where a run ends, every later move goes to a destination that comes
/// strictly after.
pub proof fn lemma_run_end_is_strict(sorted: Seq<Move>, i: int, j: int)
    requires
        descending(sorted),
        0 <= i < j < sorted.len(),
        ends_run(sorted, i),
    ensures
        strictly_before(sorted[i], sorted[j]),
{
    if j > i + 1 {
        assert(crate::world::moves::stands_before(sorted[i], sorted[i + 1]));
        assert(crate::world::moves::stands_before(sorted[i + 1], sorted[j]));
    } else {
        assert(crate::world::moves::stands_before(sorted[i], sorted[j]));
    }
}

/// What holds of every sorted move holds of every move that is carried out.
pub proof fn lemma_winners_are_sorted_moves(
    sorted: Seq<Move>,
    picks: Seq<int>,
    holds: spec_fn(Move) -> bool,
)
    requires
        forall|c: int| 0 <= c < sorted.len() ==> #[trigger] holds(sorted[c]),
    ensures
        forall|k: int|
            0 <= k < winners(sorted, picks).len() ==> #[trigger] holds(winners(sorted, picks)[k]),
        winners(sorted, picks).len() <= picks.len(),
    decreases picks.len(),
{
    if picks.len() > 0 {
        let i = picks.len() - 1;
        lemma_winners_are_sorted_moves(sorted, picks.drop_last(), holds);
        if i < sorted.len() && ends_run(sorted, i) {
            lemma_run_start_bounds(sorted, i);
            let c = clamp(picks.last(), run_start(sorted, i), i);
            assert(holds(sorted[c]));
        }
    }
}

/// At most one writer: the moves that are carried out go to destinations
/// that differ from one another, each strictly after the one before; and
/// all of them come strictly before the destinations of the moves whose runs
/// are not yet decided.
pub proof fn lemma_one_winner_per_destination(sorted: Seq<Move>, picks: Seq<int>)
    requires
        descending(sorted),
        picks.len() <= sorted.len(),
    ensures
        forall|a: int, b: int|
            0 <= a < b < winners(sorted, picks).len() ==> strictly_before(
                #[trigger] winners(sorted, picks)[a],
                #[trigger] winners(sorted, picks)[b],
            ),
        forall|a: int, b: int|
            0 <= a < b < winners(sorted, picks).len() ==> (#[trigger] winners(
                sorted,
                picks,
            )[a]).target() != (#[trigger] winners(sorted, picks)[b]).target(),
        forall|a: int, j: int|
            0 <= a < winners(sorted, picks).len() && picks.len() <= j < sorted.len()
                ==> strictly_before(#[trigger] winners(sorted, picks)[a], #[trigger] sorted[j]),
    decreases picks.len(),
{
    if picks.len() > 0 {
        let i = picks.len() - 1;
        let rest = picks.drop_last();
        let before = winners(sorted, rest);
        let all = winners(sorted, picks);
        lemma_one_winner_per_destination(sorted, rest);
        if ends_run(sorted, i) {
            lemma_run_start_bounds(sorted, i);
            let c = clamp(picks.last(), run_start(sorted, i), i);
            lemma_run_shares_target(sorted, i, c);
            let chosen = sorted[c];
            assert(all == before.push(chosen));
            assert forall|a: int, b: int| 0 <= a < b < all.len() implies strictly_before(
                #[trigger] all[a],
                #[trigger] all[b],
            ) by {
                if b == all.len() - 1 {
                    assert(all[a] == before[a]);
                    assert(strictly_before(before[a], sorted[i]));
                } else {
                    assert(all[a] == before[a]);
                    assert(all[b] == before[b]);
                }
            }
            assert forall|a: int, j: int|
                0 <= a < all.len() && picks.len() <= j < sorted.len() implies strictly_before(
                #[trigger] all[a],
                #[trigger] sorted[j],
            ) by {
                if a == all.len() - 1 {
                    lemma_run_end_is_strict(sorted, i, j);
                } else {
                    assert(all[a] == before[a]);
                }
            }
        } else {
            assert(all == before);
        }
    }
}

/// A move is carried out between two cells of the grid.
pub open spec fn on_grid(cells: Seq<Seq<Element>>, chosen: Move) -> bool {
    &&& in_grid(cells, chosen.source().0, chosen.source().1)
    &&& in_grid(cells, chosen.target().0, chosen.target().1)
}

/// Carrying out a move whose target holds what the move expects, nothing
/// for a move, exchanges the contents of its two cells.
pub proof fn lemma_carry_out_exchanges(cells: Seq<Seq<Element>>, chosen: Move)
    requires
        on_grid(cells, chosen),
        chosen is MoveElement ==> cells[chosen.target().0][chosen.target().1] == Element::Empty,
    ensures
        carry_out(cells, chosen) == exchange(
            cells,
            chosen.target().0,
            chosen.target().1,
            chosen.source().0,
            chosen.source().1,
        ),
        census(carry_out(cells, chosen)) == census(cells),
        same_shape(carry_out(cells, chosen), cells),
{
    lemma_census_exchange(
        cells,
        chosen.target().0,
        chosen.target().1,
        chosen.source().0,
        chosen.source().1,
    );
}

/// Carrying out a move changes its two cells and no other.
pub proof fn lemma_carry_out_frame(cells: Seq<Seq<Element>>, chosen: Move, x: int, y: int)
    requires
        on_grid(cells, chosen),
        in_grid(cells, x, y),
        (x, y) != chosen.source(),
        (x, y) != chosen.target(),
    ensures
        carry_out(cells, chosen)[x][y] == cells[x][y],
        same_shape(carry_out(cells, chosen), cells),
{
}

/// The sorted moves of a world that admits them, while the first
/// `picks.len()` of them are decided: the census is what it was, and the
/// empty cells that undecided moves go to are still empty.
proof fn lemma_carried_out_conserves(world: WorldView, sorted: Seq<Move>, picks: Seq<int>)
    requires
        world.wf(),
        descending(sorted),
        picks.len() <= sorted.len(),
        forall|c: int| 0 <= c < sorted.len() ==> world.admits(#[trigger] sorted[c]),
    ensures
        census(carried_out(world.cells, winners(sorted, picks))) == census(world.cells),
        same_shape(carried_out(world.cells, winners(sorted, picks)), world.cells),
        forall|j: int|
            picks.len() <= j < sorted.len() && world.free(
                (#[trigger] sorted[j]).target().0,
                sorted[j].target().1,
            ) ==> carried_out(
                world.cells,
                winners(sorted, picks),
            )[sorted[j].target().0][sorted[j].target().1] == Element::Empty,
    decreases picks.len(),
{
    if picks.len() > 0 {
        let i = picks.len() - 1;
        let rest = picks.drop_last();
        let before = winners(sorted, rest);
        let all = winners(sorted, picks);
        let state = carried_out(world.cells, before);
        lemma_carried_out_conserves(world, sorted, rest);
        if ends_run(sorted, i) {
            lemma_run_start_bounds(sorted, i);
            let c = clamp(picks.last(), run_start(sorted, i), i);
            lemma_run_shares_target(sorted, i, c);
            let chosen = sorted[c];
            assert(all == before.push(chosen));
            assert(all.drop_last() =~= before);
            assert(carried_out(world.cells, all) == carry_out(state, chosen));
            assert(world.admits(chosen));
            assert(world.admits(sorted[i]));
            world.lemma_viewport_on_board(chosen.source().0, chosen.source().1);
            world.lemma_viewport_on_board(chosen.target().0, chosen.target().1);
            assert(on_grid(state, chosen));
            if chosen is MoveElement {
                assert(world.free(sorted[i].target().0, sorted[i].target().1));
            }
            lemma_carry_out_exchanges(state, chosen);
            assert forall|j: int|
                picks.len() <= j < sorted.len() && world.free(
                    (#[trigger] sorted[j]).target().0,
                    sorted[j].target().1,
                ) implies carry_out(state, chosen)[sorted[j].target().0][sorted[j].target().1]
                == Element::Empty by {
                lemma_run_end_is_strict(sorted, i, j);
                assert(world.admits(sorted[j]));
                world.lemma_viewport_on_board(sorted[j].target().0, sorted[j].target().1);
                lemma_carry_out_frame(state, chosen, sorted[j].target().0, sorted[j].target().1);
            }
        } else {
            assert(all == before);
        }
    }
}

/// A move finds its target empty: when the run that ends with the `i`-th
/// sorted move is decided, and the move that is carried out is not a swap,
/// the cell it goes to is empty at that moment, whatever was carried out
/// before.
pub proof fn lemma_move_finds_target_empty(
    world: WorldView,
    pending: Seq<Move>,
    picks: Seq<int>,
    i: int,
)
    requires
        world.wf(),
        forall|k: int| 0 <= k < pending.len() ==> world.admits(#[trigger] pending[k]),
        0 <= i < picks.len() <= pending.len(),
        ends_run(by_target(pending), i),
    ensures
        ({
            let sorted = by_target(pending);
            let chosen = sorted[clamp(picks[i], run_start(sorted, i), i)];
            let before = carried_out(world.cells, winners(sorted, picks.take(i)));
            chosen is MoveElement ==> before[chosen.target().0][chosen.target().1]
                == Element::Empty
        }),
{
    let sorted = by_target(pending);
    lemma_by_target(pending);
    lemma_by_target_same_moves(pending);
    assert forall|c: int| 0 <= c < sorted.len() implies world.admits(#[trigger] sorted[c]) by {
        assert(sorted.contains(sorted[c]));
        assert(pending.contains(sorted[c]));
        let j = choose|j: int| 0 <= j < pending.len() && pending[j] == sorted[c];
        assert(world.admits(pending[j]));
    }
    lemma_run_start_bounds(sorted, i);
    let c = clamp(picks[i], run_start(sorted, i), i);
    lemma_run_shares_target(sorted, i, c);
    lemma_carried_out_conserves(world, sorted, picks.take(i));
    assert(world.admits(sorted[c]));
    assert(world.admits(sorted[i]));
}

/// The second half of the movement pass conserves what is on the grid:
/// whenever the world admits the pending moves, the grid after they were
/// sorted and one move per destination was carried out holds the same
/// elements as before, each as often as before.
pub proof fn lemma_commit_conserves(world: WorldView, pending: Seq<Move>, picks: Seq<int>)
    requires
        world.wf(),
        picks.len() <= pending.len(),
        forall|k: int| 0 <= k < pending.len() ==> world.admits(#[trigger] pending[k]),
    ensures
        census(carried_out(world.cells, winners(by_target(pending), picks))) == census(world.cells),
        particles(carried_out(world.cells, winners(by_target(pending), picks))) == particles(
            world.cells,
        ),
        same_shape(carried_out(world.cells, winners(by_target(pending), picks)), world.cells),
{
    let sorted = by_target(pending);
    lemma_by_target(pending);
    lemma_by_target_same_moves(pending);
    assert forall|c: int| 0 <= c < sorted.len() implies world.admits(#[trigger] sorted[c]) by {
        assert(sorted.contains(sorted[c]));
        assert(pending.contains(sorted[c]));
        let j = choose|j: int| 0 <= j < pending.len() && pending[j] == sorted[c];
        assert(world.admits(pending[j]));
    }
    lemma_carried_out_conserves(world, sorted, picks);
}

impl WorldView {
    /// The draws of a movement pass do not reach beyond the viewport.
    pub open spec fn holds_moves(self, draws: Seq<Seq<MoveDraws>>, picks: Seq<int>) -> bool {
        &&& draws.len() <= self.height
        &&& forall|y: int| 0 <= y < draws.len() ==> (#[trigger] draws[y]).len() <= self.width
        &&& picks.len() <= self.proposals(draws).len()
    }

    /// Conservation under pure movement: whatever the draws, the movement
    /// pass leaves the multiset of the elements on the grid unchanged.
    pub proof fn lemma_movement_conserves(self, draws: Seq<Seq<MoveDraws>>, picks: Seq<int>)
        requires
            self.wf(),
            self.holds_moves(draws, picks),
        ensures
            particles(self.moved(draws, picks).cells) == particles(self.cells),
            census(self.moved(draws, picks).cells) == census(self.cells),
            same_shape(self.moved(draws, picks).cells, self.cells),
    {
        self.lemma_proposals_admitted(draws);
        lemma_commit_conserves(self, self.proposals(draws), picks);
    }

    /// Conservation in a tick: where the decay pass and the transmutation
    /// pass changed nothing, the tick leaves the multiset of the elements on
    /// the grid unchanged.
    pub proof fn lemma_quiet_tick_conserves(self, draws: TickDraws)
        requires
            self.wf(),
            self.fits(draws),
            self.decayed(draws.decay).transmuted(draws.reactions) == self,
        ensures
            particles(self.tick_outcome(draws).cells) == particles(self.cells),
    {
        lemma_by_target(self.proposals(draws.moves));
        self.lemma_movement_conserves(draws.moves, draws.picks);
    }

    /// At most one writer in a movement pass: the moves that are carried
    /// out go to destinations that all differ.
    pub proof fn lemma_at_most_one_writer(self, draws: Seq<Seq<MoveDraws>>, picks: Seq<int>)
        requires
            picks.len() <= self.proposals(draws).len(),
        ensures
            forall|a: int, b: int|
                0 <= a < b < winners(by_target(self.proposals(draws)), picks).len() ==> (
                #[trigger] winners(by_target(self.proposals(draws)), picks)[a]).target() != (
                #[trigger] winners(by_target(self.proposals(draws)), picks)[b]).target(),
    {
        let sorted = by_target(self.proposals(draws));
        lemma_by_target(self.proposals(draws));
        lemma_one_winner_per_destination(sorted, picks);
    }
}

/// Moves that leave a cell alone leave in it what it held.
pub proof fn lemma_untouched_cell(cells: Seq<Seq<Element>>, chosen: Seq<Move>, x: int, y: int)
    requires
        in_grid(cells, x, y),
        forall|k: int|
            0 <= k < chosen.len() ==> on_grid(cells, #[trigger] chosen[k]) && chosen[k].source()
                != (x, y) && chosen[k].target() != (x, y),
    ensures
        carried_out(cells, chosen)[x][y] == cells[x][y],
        same_shape(carried_out(cells, chosen), cells),
    decreases chosen.len(),
{
    if chosen.len() > 0 {
        let rest = chosen.drop_last();
        assert forall|k: int| 0 <= k < rest.len() implies on_grid(cells, #[trigger] rest[k])
            && rest[k].source() != (x, y) && rest[k].target() != (x, y) by {
            assert(rest[k] == chosen[k]);
        }
        lemma_untouched_cell(cells, rest, x, y);
        let state = carried_out(cells, rest);
        assert(on_grid(cells, chosen.last()));
        lemma_carry_out_frame(state, chosen.last(), x, y);
    }
}

impl WorldView {
    /// No move that the world admits has anything to do with the cell: it
    /// is a cell of the board that lies outside the viewport, or in the
    /// bottom row of the viewport with something in it that is neither a
    /// liquid nor a gas.
    pub open spec fn out_of_reach(self, x: int, y: int) -> bool {
        &&& in_grid(self.cells, x, y)
        &&& self.in_viewport(x, y) ==> {
            &&& y + 1 == self.height
            &&& !self.free(x, y)
            &&& !self.at(x, y).spec_is_liquid_or_gas()
        }
    }

    /// What is out of reach of every admitted move stays what it is when
    /// the pending moves are sorted and carried out.
    pub proof fn lemma_commit_rests(self, pending: Seq<Move>, picks: Seq<int>, x: int, y: int)
        requires
            self.wf(),
            forall|k: int| 0 <= k < pending.len() ==> self.admits(#[trigger] pending[k]),
            self.out_of_reach(x, y),
        ensures
            carried_out(self.cells, winners(by_target(pending), picks))[x][y] == self.cells[x][y],
            same_shape(carried_out(self.cells, winners(by_target(pending), picks)), self.cells),
    {
        let sorted = by_target(pending);
        lemma_by_target_same_moves(pending);
        let alone = |m: Move|
            on_grid(self.cells, m) && m.source() != (x, y) && m.target() != (x, y);
        assert forall|c: int| 0 <= c < sorted.len() implies #[trigger] alone(sorted[c]) by {
            assert(sorted.contains(sorted[c]));
            assert(pending.contains(sorted[c]));
            let j = choose|j: int| 0 <= j < pending.len() && pending[j] == sorted[c];
            assert(self.admits(pending[j]));
            self.lemma_viewport_on_board(sorted[c].source().0, sorted[c].source().1);
            self.lemma_viewport_on_board(sorted[c].target().0, sorted[c].target().1);
        }
        lemma_winners_are_sorted_moves(sorted, picks, alone);
        let chosen = winners(sorted, picks);
        assert forall|k: int| 0 <= k < chosen.len() implies on_grid(
            self.cells,
            #[trigger] chosen[k],
        ) && chosen[k].source() != (x, y) && chosen[k].target() != (x, y) by {
            assert(alone(chosen[k]));
        }
        lemma_untouched_cell(self.cells, chosen, x, y);
    }

    /// What is out of reach of every admitted move stays what it is in the
    /// movement pass.
    pub proof fn lemma_out_of_reach_rests(
        self,
        draws: Seq<Seq<MoveDraws>>,
        picks: Seq<int>,
        x: int,
        y: int,
    )
        requires
            self.wf(),
            self.holds_moves(draws, picks),
            self.out_of_reach(x, y),
        ensures
            self.moved(draws, picks).at(x, y) == self.at(x, y),
    {
        self.lemma_proposals_admitted(draws);
        self.lemma_commit_rests(self.proposals(draws), picks, x, y);
    }

    /// Bottom-row stability: a powder in the last row of the viewport does
    /// not move, whatever the draws.
    pub proof fn lemma_bottom_row_powder_rests(
        self,
        draws: Seq<Seq<MoveDraws>>,
        picks: Seq<int>,
        x: int,
    )
        requires
            self.wf(),
            self.holds_moves(draws, picks),
            0 <= x < self.width,
            0 < self.height,
            self.at(x, self.height - 1).spec_kind() is Powder,
        ensures
            self.moved(draws, picks).at(x, self.height - 1) == self.at(x, self.height - 1),
    {
        self.lemma_viewport_on_board(x, self.height - 1);
        self.lemma_out_of_reach_rests(draws, picks, x, self.height - 1);
    }

    /// What lies outside the viewport is frozen in the movement pass.
    pub proof fn lemma_movement_is_in_viewport(
        self,
        draws: Seq<Seq<MoveDraws>>,
        picks: Seq<int>,
        x: int,
        y: int,
    )
        requires
            self.wf(),
            self.holds_moves(draws, picks),
            in_grid(self.cells, x, y),
            !self.in_viewport(x, y),
        ensures
            self.moved(draws, picks).at(x, y) == self.at(x, y),
    {
        self.lemma_out_of_reach_rests(draws, picks, x, y);
    }

    /// The reaction of `(x, y)` with the neighbour `(to_x, to_y)` does not fire.
    pub open spec fn idle(self, x: int, y: int, to_x: int, to_y: int, draw: ProbeDraw) -> bool {
        self.in_viewport(to_x, to_y) ==> !reaction(self.at(x, y), self.at(to_x, to_y)).fires(
            draw.answer,
        )
    }

    /// None of the four reactions of `(x, y)` fires.
    pub open spec fn idle_cell(self, x: int, y: int, draws: ReactionDraws) -> bool {
        &&& self.idle(x, y, x, y - 1, draws.top)
        &&& self.idle(x, y, x - 1, y, draws.left)
        &&& self.idle(x, y, x + 1, y, draws.right)
        &&& self.idle(x, y, x, y + 1, draws.bottom)
    }

    /// No reaction of any cell fires.
    pub open spec fn no_reaction(self, draws: Seq<Seq<ReactionDraws>>) -> bool {
        forall|x: int, y: int|
            0 <= y < draws.len() && 0 <= x < draws[y].len() ==> self.idle_cell(
                x,
                y,
                #[trigger] draws[y][x],
            )
    }

    /// No cell decays.
    pub open spec fn no_decay(self, answers: Map<(int, int), bool>) -> bool {
        forall|x: int, y: int|
            self.in_viewport(x, y) ==> match (#[trigger] self.cells[x][y]).spec_decay_prob() {
                Some(chance) => !chance.settle(answers[(x, y)]),
                None => true,
            }
    }

    /// A decay pass in which no cell decays changes nothing.
    pub proof fn lemma_no_decay(self, answers: Map<(int, int), bool>)
        requires
            self.wf(),
            self.no_decay(answers),
        ensures
            self.decayed(answers) == self,
    {
        let after = self.decayed(answers).cells;
        assert forall|x: int| 0 <= x < self.cells.len() implies #[trigger] after[x]
            == self.cells[x] by {
            assert forall|y: int| 0 <= y < self.cells[x].len() implies after[x][y]
                == self.cells[x][y] by {
                if self.in_viewport(x, y) {
                    assert(self.cells[x][y] == self.cells[x][y]);
                }
            }
            assert(after[x] =~= self.cells[x]);
        }
        assert(after =~= self.cells);
    }

    /// A cell none of whose reactions fires changes nothing.
    pub proof fn lemma_idle_cell(self, x: int, y: int, draws: ReactionDraws)
        requires
            self.wf(),
            self.in_viewport(x, y),
            self.idle_cell(x, y, draws),
        ensures
            self.transmuted_cell(x, y, draws) == self,
    {
        self.lemma_viewport_on_board(x, y);
        lemma_put_same(self.cells, x, y);
        if self.in_viewport(x, y - 1) {
            self.lemma_viewport_on_board(x, y - 1);
            lemma_put_same(self.cells, x, y - 1);
        }
        assert(self.probed(x, y, x, y - 1, draws.top) == self);
        if self.in_viewport(x - 1, y) {
            self.lemma_viewport_on_board(x - 1, y);
            lemma_put_same(self.cells, x - 1, y);
        }
        assert(self.probed(x, y, x - 1, y, draws.left) == self);
        if self.in_viewport(x + 1, y) {
            self.lemma_viewport_on_board(x + 1, y);
            lemma_put_same(self.cells, x + 1, y);
        }
        assert(self.probed(x, y, x + 1, y, draws.right) == self);
        if self.in_viewport(x, y + 1) {
            self.lemma_viewport_on_board(x, y + 1);
            lemma_put_same(self.cells, x, y + 1);
        }
        assert(self.probed(x, y, x, y + 1, draws.bottom) == self);
    }

    /// A row in which no reaction fires changes nothing.
    proof fn lemma_idle_row(self, y: int, row: Seq<ReactionDraws>)
        requires
            self.wf(),
            0 <= y < self.height,
            row.len() <= self.width,
            forall|x: int| 0 <= x < row.len() ==> self.idle_cell(x, y, #[trigger] row[x]),
        ensures
            self.transmuted_row(y, row) == self,
        decreases row.len(),
    {
        if row.len() > 0 {
            let rest = row.drop_last();
            assert forall|x: int| 0 <= x < rest.len() implies self.idle_cell(
                x,
                y,
                #[trigger] rest[x],
            ) by {
                assert(rest[x] == row[x]);
            }
            self.lemma_idle_row(y, rest);
            assert(self.idle_cell(row.len() - 1, y, row[row.len() - 1]));
            self.lemma_idle_cell(row.len() - 1, y, row.last());
        }
    }

    /// A transmutation pass in which no reaction fires changes nothing.
    pub proof fn lemma_no_reaction(self, draws: Seq<Seq<ReactionDraws>>)
        requires
            self.wf(),
            draws.len() <= self.height,
            forall|y: int| 0 <= y < draws.len() ==> (#[trigger] draws[y]).len() <= self.width,
            self.no_reaction(draws),
        ensures
            self.transmuted(draws) == self,
        decreases draws.len(),
    {
        if draws.len() > 0 {
            let rest = draws.drop_last();
            assert forall|x: int, y: int|
                0 <= y < rest.len() && 0 <= x < rest[y].len() implies self.idle_cell(
                x,
                y,
                #[trigger] rest[y][x],
            ) by {
                assert(rest[y] == draws[y]);
                assert(self.idle_cell(x, y, draws[y][x]));
            }
            assert forall|y: int| 0 <= y < rest.len() implies (#[trigger] rest[y]).len()
                <= self.width by {
                assert(rest[y] == draws[y]);
            }
            self.lemma_no_reaction(rest);
            let y = draws.len() - 1;
            let row = draws.last();
            assert forall|x: int| 0 <= x < row.len() implies self.idle_cell(
                x,
                y,
                #[trigger] row[x],
            ) by {
                assert(self.idle_cell(x, y, draws[y][x]));
            }
            self.lemma_idle_row(y, row);
        }
    }

    /// Conservation under pure movement: a tick in which no cell decays and
    /// no reaction fires leaves the multiset of the elements on the grid
    /// unchanged.
    pub proof fn lemma_tick_without_chemistry_conserves(self, draws: TickDraws)
        requires
            self.wf(),
            self.fits(draws),
            self.no_decay(draws.decay),
            self.no_reaction(draws.reactions),
        ensures
            particles(self.tick_outcome(draws).cells) == particles(self.cells),
            census(self.tick_outcome(draws).cells) == census(self.cells),
    {
        self.lemma_no_decay(draws.decay);
        self.lemma_no_reaction(draws.reactions);
        lemma_by_target(self.proposals(draws.moves));
        self.lemma_movement_conserves(draws.moves, draws.picks);
    }
}

impl WorldView {
    /// `other` is this world with, at most, other elements in the cells of
    /// the viewport.
    pub open spec fn same_outside_viewport(self, other: WorldView) -> bool {
        &&& other.width == self.width
        &&& other.height == self.height
        &&& same_shape(other.cells, self.cells)
        &&& forall|x: int, y: int|
            in_grid(self.cells, x, y) && !self.in_viewport(x, y) ==> #[trigger] other.cells[x][y]
                == self.cells[x][y]
    }

    /// One reaction changes nothing outside the viewport.
    proof fn lemma_probed_in_viewport(
        self,
        start: WorldView,
        x: int,
        y: int,
        to_x: int,
        to_y: int,
        draw: ProbeDraw,
    )
        requires
            start.wf(),
            start.same_outside_viewport(self),
            start.in_viewport(x, y),
        ensures
            start.same_outside_viewport(self.probed(x, y, to_x, to_y, draw)),
    {
        if self.in_viewport(to_x, to_y) {
            start.lemma_viewport_on_board(x, y);
            start.lemma_viewport_on_board(to_x, to_y);
        }
    }

    /// The reactions of one cell change nothing outside the viewport.
    proof fn lemma_transmuted_cell_in_viewport(
        self,
        start: WorldView,
        x: int,
        y: int,
        draws: ReactionDraws,
    )
        requires
            start.wf(),
            start.same_outside_viewport(self),
            start.in_viewport(x, y),
        ensures
            start.same_outside_viewport(self.transmuted_cell(x, y, draws)),
    {
        let first = self.probed(x, y, x, y - 1, draws.top);
        self.lemma_probed_in_viewport(start, x, y, x, y - 1, draws.top);
        let second = first.probed(x, y, x - 1, y, draws.left);
        first.lemma_probed_in_viewport(start, x, y, x - 1, y, draws.left);
        let third = second.probed(x, y, x + 1, y, draws.right);
        second.lemma_probed_in_viewport(start, x, y, x + 1, y, draws.right);
        third.lemma_probed_in_viewport(start, x, y, x, y + 1, draws.bottom);
    }

    /// The reactions of a row change nothing outside the viewport.
    proof fn lemma_transmuted_row_in_viewport(
        self,
        start: WorldView,
        y: int,
        row: Seq<ReactionDraws>,
    )
        requires
            start.wf(),
            start.same_outside_viewport(self),
            0 <= y < start.height,
            row.len() <= start.width,
        ensures
            start.same_outside_viewport(self.transmuted_row(y, row)),
        decreases row.len(),
    {
        if row.len() > 0 {
            self.lemma_transmuted_row_in_viewport(start, y, row.drop_last());
            self.transmuted_row(y, row.drop_last()).lemma_transmuted_cell_in_viewport(
                start,
                row.len() - 1,
                y,
                row.last(),
            );
        }
    }

    /// The transmutation pass changes nothing outside the viewport.
    pub proof fn lemma_transmuted_in_viewport(self, draws: Seq<Seq<ReactionDraws>>)
        requires
            self.wf(),
            draws.len() <= self.height,
            forall|y: int| 0 <= y < draws.len() ==> (#[trigger] draws[y]).len() <= self.width,
        ensures
            self.same_outside_viewport(self.transmuted(draws)),
        decreases draws.len(),
    {
        if draws.len() > 0 {
            let rest = draws.drop_last();
            assert forall|y: int| 0 <= y < rest.len() implies (#[trigger] rest[y]).len()
                <= self.width by {
                assert(rest[y] == draws[y]);
            }
            self.lemma_transmuted_in_viewport(rest);
            self.transmuted(rest).lemma_transmuted_row_in_viewport(
                self,
                draws.len() - 1,
                draws.last(),
            );
        }
    }
}

/// Determinism: the world after a tick is a function of the world before
/// it and of what the random source answered. Two ticks that start from
/// equal worlds and get the same answers end in equal worlds.
pub proof fn lemma_tick_is_determined(first: WorldView, second: WorldView, draws: TickDraws)
    requires
        first == second,
    ensures
        first.tick_outcome(draws) == second.tick_outcome(draws),
{
}

} // verus!
