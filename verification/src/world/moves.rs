//! Proposed moves, and their order by destination.

use vstd::multiset::Multiset;
use vstd::prelude::*;
use vstd::seq_lib::lemma_multiset_commutative;

verus! {

/// A relocation that a cell proposes during a tick.
#[derive(Copy, Clone, PartialEq, Eq, Debug, Structural)]
pub enum Move {
    /// Move the source element to the empty target location.
    MoveElement { from_x: usize, from_y: usize, to_x: usize, to_y: usize },
    /// Swap the elements of the two locations.
    SwapElement { from_x: usize, from_y: usize, to_x: usize, to_y: usize },
}

impl Move {
    /// The cell that proposed the move.
    pub open spec fn source(self) -> (int, int) {
        match self {
            Move::MoveElement { from_x, from_y, .. } => (from_x as int, from_y as int),
            Move::SwapElement { from_x, from_y, .. } => (from_x as int, from_y as int),
        }
    }

    /// The cell that the move goes to.
    pub open spec fn target(self) -> (int, int) {
        match self {
            Move::MoveElement { to_x, to_y, .. } => (to_x as int, to_y as int),
            Move::SwapElement { to_x, to_y, .. } => (to_x as int, to_y as int),
        }
    }

    /// The cell that the move goes to.
    pub fn dest(&self) -> (cell: (usize, usize))
        ensures
            (cell.0 as int, cell.1 as int) == self.target(),
    {
        match self {
            Move::MoveElement { to_x, to_y, .. } => (*to_x, *to_y),
            Move::SwapElement { to_x, to_y, .. } => (*to_x, *to_y),
        }
    }

    /// Whether two moves go to the same cell.
    pub fn same_dest_as(&self, other: &Move) -> (same: bool)
        ensures
            same == (self.target() == other.target()),
    {
        let (old_x, old_y) = match self {
            Move::MoveElement { from_x: _, from_y: _, to_x, to_y } => (*to_x, *to_y),
            Move::SwapElement { from_x: _, from_y: _, to_x, to_y } => (*to_x, *to_y),
        };
        match other {
            Move::MoveElement { from_x: _, from_y: _, to_x, to_y } => *to_x == old_x && *to_y
                == old_y,
            Move::SwapElement { from_x: _, from_y: _, to_x, to_y } => *to_x == old_x && *to_y
                == old_y,
        }
    }

    /// Whether `self` may stand before `other` in the order of the
    /// destinations: by column, then by row, the largest first.
    pub fn precedes(&self, other: &Move) -> (first: bool)
        ensures
            first == stands_before(*self, *other),
    {
        let (x, y) = self.dest();
        let (other_x, other_y) = other.dest();
        x > other_x || (x == other_x && y >= other_y)
    }
}

/// `a` may stand before `b`: its destination is not smaller, by column and
/// then by row.
pub open spec fn stands_before(a: Move, b: Move) -> bool {
    a.target().0 > b.target().0 || (a.target().0 == b.target().0 && a.target().1 >= b.target().1)
}

/// The destinations never grow along the sequence.
pub open spec fn descending(moves: Seq<Move>) -> bool {
    forall|i: int, j: int| 0 <= i < j < moves.len() ==> stands_before(moves[i], moves[j])
}

/// What is left of two descending runs, from `i` and `j` on, merged into
/// one; on a tie the move of the left run comes first.
pub open spec fn merged_from(left: Seq<Move>, right: Seq<Move>, i: int, j: int) -> Seq<Move>
    decreases left.len() - i + right.len() - j,
{
    if i < 0 || j < 0 {
        Seq::empty()
    } else if i >= left.len() {
        right.skip(j)
    } else if j >= right.len() {
        left.skip(i)
    } else if stands_before(left[i], right[j]) {
        seq![left[i]] + merged_from(left, right, i + 1, j)
    } else {
        seq![right[j]] + merged_from(left, right, i, j + 1)
    }
}

/// The moves in the order of their destinations, the largest first; moves
/// with the same destination keep the order in which they were proposed.
pub open spec fn by_target(moves: Seq<Move>) -> Seq<Move>
    decreases moves.len(),
{
    if moves.len() <= 1 {
        moves
    } else {
        let middle = moves.len() / 2;
        merged_from(
            by_target(moves.subrange(0, middle as int)),
            by_target(moves.subrange(middle as int, moves.len() as int)),
            0,
            0,
        )
    }
}

/// Nothing stands in the multiset of an empty sequence of moves.
proof fn lemma_no_moves(moves: Seq<Move>)
    requires
        moves.len() == 0,
    ensures
        moves.to_multiset() == Multiset::<Move>::empty(),
{
    moves.to_multiset_ensures();
    assert forall|m: Move| moves.to_multiset().count(m) == 0 by {
        if moves.to_multiset().count(m) > 0 {
            assert(moves.contains(m));
        }
    }
    assert(moves.to_multiset() =~= Multiset::<Move>::empty());
}

/// Merging keeps every move, as often as it occurs.
pub proof fn lemma_merged_keeps(left: Seq<Move>, right: Seq<Move>, i: int, j: int)
    requires
        0 <= i <= left.len(),
        0 <= j <= right.len(),
    ensures
        merged_from(left, right, i, j).to_multiset() == left.skip(i).to_multiset().add(
            right.skip(j).to_multiset(),
        ),
        merged_from(left, right, i, j).len() == left.len() - i + right.len() - j,
    decreases left.len() - i + right.len() - j,
{
    let out = merged_from(left, right, i, j);
    if i >= left.len() {
        lemma_no_moves(left.skip(i));
        assert(out.to_multiset() =~= left.skip(i).to_multiset().add(right.skip(j).to_multiset()));
    } else if j >= right.len() {
        lemma_no_moves(right.skip(j));
        assert(out.to_multiset() =~= left.skip(i).to_multiset().add(right.skip(j).to_multiset()));
    } else if stands_before(left[i], right[j]) {
        let rest = merged_from(left, right, i + 1, j);
        lemma_merged_keeps(left, right, i + 1, j);
        lemma_multiset_commutative(seq![left[i]], rest);
        assert(left.skip(i) =~= seq![left[i]] + left.skip(i + 1));
        lemma_multiset_commutative(seq![left[i]], left.skip(i + 1));
        assert(out.to_multiset() =~= left.skip(i).to_multiset().add(right.skip(j).to_multiset()));
    } else {
        let rest = merged_from(left, right, i, j + 1);
        lemma_merged_keeps(left, right, i, j + 1);
        lemma_multiset_commutative(seq![right[j]], rest);
        assert(right.skip(j) =~= seq![right[j]] + right.skip(j + 1));
        lemma_multiset_commutative(seq![right[j]], right.skip(j + 1));
        assert(out.to_multiset() =~= left.skip(i).to_multiset().add(right.skip(j).to_multiset()));
    }
}

/// Every merged move comes from what was left of one of the two runs.
proof fn lemma_merged_origin(left: Seq<Move>, right: Seq<Move>, i: int, j: int, t: int)
    requires
        0 <= i <= left.len(),
        0 <= j <= right.len(),
        0 <= t < merged_from(left, right, i, j).len(),
    ensures
        left.skip(i).contains(merged_from(left, right, i, j)[t]) || right.skip(j).contains(
            merged_from(left, right, i, j)[t],
        ),
{
    let out = merged_from(left, right, i, j);
    let m = out[t];
    lemma_merged_keeps(left, right, i, j);
    out.to_multiset_ensures();
    left.skip(i).to_multiset_ensures();
    right.skip(j).to_multiset_ensures();
    assert(out.contains(m));
    assert(out.to_multiset().count(m) > 0);
    assert(left.skip(i).to_multiset().count(m) > 0 || right.skip(j).to_multiset().count(m) > 0);
}

/// Merging two descending runs gives a descending run.
pub proof fn lemma_merged_descending(left: Seq<Move>, right: Seq<Move>, i: int, j: int)
    requires
        0 <= i <= left.len(),
        0 <= j <= right.len(),
        descending(left),
        descending(right),
    ensures
        descending(merged_from(left, right, i, j)),
    decreases left.len() - i + right.len() - j,
{
    let out = merged_from(left, right, i, j);
    if i >= left.len() {
    } else if j >= right.len() {
    } else {
        let take_left = stands_before(left[i], right[j]);
        let head = if take_left {
            left[i]
        } else {
            right[j]
        };
        let (ni, nj) = if take_left {
            (i + 1, j)
        } else {
            (i, j + 1)
        };
        let rest = merged_from(left, right, ni, nj);
        lemma_merged_descending(left, right, ni, nj);
        assert(out =~= seq![head] + rest);
        assert forall|a: int, b: int| 0 <= a < b < out.len() implies stands_before(
            out[a],
            out[b],
        ) by {
            if a == 0 {
                lemma_merged_origin(left, right, ni, nj, b - 1);
                let other = rest[b - 1];
                assert(out[a] == head);
                assert(out[b] == other);
                if left.skip(ni).contains(other) {
                    let k = choose|k: int|
                        0 <= k < left.skip(ni).len() && left.skip(ni)[k] == other;
                    assert(other == left[ni + k]);
                    if !take_left {
                        assert(stands_before(left[i], left[ni + k]) || ni + k == i);
                    }
                } else {
                    let k = choose|k: int|
                        0 <= k < right.skip(nj).len() && right.skip(nj)[k] == other;
                    assert(other == right[nj + k]);
                    if take_left {
                        assert(stands_before(right[j], right[nj + k]) || nj + k == j);
                    }
                }
            } else {
                assert(out[a] == rest[a - 1]);
                assert(out[b] == rest[b - 1]);
            }
        }
    }
}

/// The sorted moves are the proposed moves, each as often as it was
/// proposed, and their destinations never grow.
pub proof fn lemma_by_target(moves: Seq<Move>)
    ensures
        by_target(moves).to_multiset() == moves.to_multiset(),
        by_target(moves).len() == moves.len(),
        descending(by_target(moves)),
    decreases moves.len(),
{
    if moves.len() <= 1 {
    } else {
        let middle = (moves.len() / 2) as int;
        let left = moves.subrange(0, middle);
        let right = moves.subrange(middle, moves.len() as int);
        lemma_by_target(left);
        lemma_by_target(right);
        lemma_merged_keeps(by_target(left), by_target(right), 0, 0);
        lemma_merged_descending(by_target(left), by_target(right), 0, 0);
        assert(by_target(left).skip(0) =~= by_target(left));
        assert(by_target(right).skip(0) =~= by_target(right));
        assert(moves =~= left + right);
        lemma_multiset_commutative(left, right);
    }
}

/// Every sorted move was proposed, and every proposed move is sorted.
pub proof fn lemma_by_target_same_moves(moves: Seq<Move>)
    ensures
        forall|m: Move| by_target(moves).contains(m) <==> moves.contains(m),
{
    lemma_by_target(moves);
    moves.to_multiset_ensures();
    by_target(moves).to_multiset_ensures();
    assert forall|m: Move| by_target(moves).contains(m) <==> moves.contains(m) by {
        assert(by_target(moves).to_multiset().count(m) == moves.to_multiset().count(m));
    }
}

/// Merges two descending runs into one.
fn merge(left: &Vec<Move>, right: &Vec<Move>) -> (out: Vec<Move>)
    ensures
        out@ == merged_from(left@, right@, 0, 0),
{
    let mut out: Vec<Move> = Vec::new();
    let mut i: usize = 0;
    let mut j: usize = 0;
    while i < left.len() && j < right.len()
        invariant
            i <= left.len(),
            j <= right.len(),
            out@ + merged_from(left@, right@, i as int, j as int) == merged_from(
                left@,
                right@,
                0,
                0,
            ),
        decreases left.len() - i + right.len() - j,
    {
        let ghost before = out@;
        if left[i].precedes(&right[j]) {
            out.push(left[i]);
            proof {
                assert(out@ + merged_from(left@, right@, i + 1, j as int) =~= before + merged_from(
                    left@,
                    right@,
                    i as int,
                    j as int,
                ));
            }
            i += 1;
        } else {
            out.push(right[j]);
            proof {
                assert(out@ + merged_from(left@, right@, i as int, j + 1) =~= before + merged_from(
                    left@,
                    right@,
                    i as int,
                    j as int,
                ));
            }
            j += 1;
        }
    }
    while i < left.len()
        invariant
            i <= left.len(),
            j <= right.len(),
            i >= left.len() || j >= right.len(),
            out@ + merged_from(left@, right@, i as int, j as int) == merged_from(
                left@,
                right@,
                0,
                0,
            ),
        decreases left.len() - i,
    {
        let ghost before = out@;
        out.push(left[i]);
        proof {
            assert(merged_from(left@, right@, i as int, j as int) =~= seq![left@[i as int]]
                + merged_from(left@, right@, i + 1, j as int));
            assert(out@ + merged_from(left@, right@, i + 1, j as int) =~= before + merged_from(
                left@,
                right@,
                i as int,
                j as int,
            ));
        }
        i += 1;
    }
    while j < right.len()
        invariant
            i == left.len(),
            j <= right.len(),
            out@ + merged_from(left@, right@, i as int, j as int) == merged_from(
                left@,
                right@,
                0,
                0,
            ),
        decreases right.len() - j,
    {
        let ghost before = out@;
        out.push(right[j]);
        proof {
            assert(merged_from(left@, right@, i as int, j as int) =~= seq![right@[j as int]]
                + merged_from(left@, right@, i as int, j + 1));
            assert(out@ + merged_from(left@, right@, i as int, j + 1) =~= before + merged_from(
                left@,
                right@,
                i as int,
                j as int,
            ));
        }
        j += 1;
    }
    proof {
        assert(out@ + merged_from(left@, right@, i as int, j as int) =~= out@);
    }
    out
}

/// Sorts the moves from `low` up to `high`.
fn sort_range(moves: &Vec<Move>, low: usize, high: usize) -> (out: Vec<Move>)
    requires
        low <= high <= moves.len(),
    ensures
        out@ == by_target(moves@.subrange(low as int, high as int)),
    decreases high - low,
{
    let ghost part = moves@.subrange(low as int, high as int);
    if high - low <= 1 {
        let mut out: Vec<Move> = Vec::new();
        if low < high {
            out.push(moves[low]);
        }
        proof {
            assert(out@ =~= part);
        }
        out
    } else {
        let middle: usize = low + (high - low) / 2;
        let left = sort_range(moves, low, middle);
        let right = sort_range(moves, middle, high);
        proof {
            let half = (part.len() / 2) as int;
            assert(half == middle - low);
            assert(part.subrange(0, half) =~= moves@.subrange(low as int, middle as int));
            assert(part.subrange(half, part.len() as int) =~= moves@.subrange(
                middle as int,
                high as int,
            ));
        }
        merge(&left, &right)
    }
}

/// Sorts the moves by destination, the largest first, keeping the order of
/// moves with the same destination.
pub fn sort_by_target(moves: &Vec<Move>) -> (sorted: Vec<Move>)
    ensures
        sorted@ == by_target(moves@),
        sorted@.len() == moves@.len(),
        descending(sorted@),
{
    proof {
        assert(moves@.subrange(0, moves@.len() as int) =~= moves@);
        lemma_by_target(moves@);
    }
    sort_range(moves, 0, moves.len())
}

} // verus!
