//! The grid as a mathematical value: a sequence of columns, each a
//! sequence of elements, read as `grid[x][y]`.

use crate::element::Element;
use vstd::multiset::Multiset;
use vstd::prelude::*;
use vstd::seq_lib::to_multiset_update;

verus! {

/// The cell `(x, y)` exists.
pub open spec fn in_grid(grid: Seq<Seq<Element>>, x: int, y: int) -> bool {
    0 <= x < grid.len() && 0 <= y < grid[x].len()
}

/// The number of rows: the length of the first column, zero without columns.
pub open spec fn rows(grid: Seq<Seq<Element>>) -> nat {
    if grid.len() == 0 {
        0
    } else {
        grid[0].len()
    }
}

/// Every column has the same length.
pub open spec fn rectangular(grid: Seq<Seq<Element>>) -> bool {
    forall|x: int| 0 <= x < grid.len() ==> (#[trigger] grid[x]).len() == rows(grid)
}

/// Every cell holds a valid element.
pub open spec fn all_valid(grid: Seq<Seq<Element>>) -> bool {
    forall|x: int, y: int| in_grid(grid, x, y) ==> (#[trigger] grid[x][y]).wf()
}

/// Two grids have the same columns of the same lengths.
pub open spec fn same_shape(a: Seq<Seq<Element>>, b: Seq<Seq<Element>>) -> bool {
    &&& a.len() == b.len()
    &&& forall|x: int| 0 <= x < a.len() ==> (#[trigger] a[x]).len() == b[x].len()
}

/// A grid of the given size with nothing in it.
pub open spec fn empty_grid(width: nat, height: nat) -> Seq<Seq<Element>> {
    Seq::new(width, |x: int| Seq::new(height, |y: int| Element::Empty))
}

/// The grid with `element` in cell `(x, y)`.
pub open spec fn put(grid: Seq<Seq<Element>>, x: int, y: int, element: Element) -> Seq<
    Seq<Element>,
> {
    grid.update(x, grid[x].update(y, element))
}

/// The grid with the contents of two cells exchanged.
pub open spec fn exchange(grid: Seq<Seq<Element>>, ax: int, ay: int, bx: int, by: int) -> Seq<
    Seq<Element>,
> {
    put(put(grid, ax, ay, grid[bx][by]), bx, by, grid[ax][ay])
}

/// The multiset of the elements in all cells of the grid.
pub open spec fn census(grid: Seq<Seq<Element>>) -> Multiset<Element>
    decreases grid.len(),
{
    if grid.len() == 0 {
        Multiset::empty()
    } else {
        census(grid.drop_last()).add(grid.last().to_multiset())
    }
}

/// The multiset of what is on the grid: the elements of all cells that are
/// not empty.
pub open spec fn particles(grid: Seq<Seq<Element>>) -> Multiset<Element> {
    census(grid).filter(|element: Element| element != Element::Empty)
}

/// Writing one cell takes what it held out of the census and puts what it
/// holds now in.
pub proof fn lemma_census_put(grid: Seq<Seq<Element>>, x: int, y: int, element: Element)
    requires
        in_grid(grid, x, y),
    ensures
        forall|v: Element|
            #[trigger] census(put(grid, x, y, element)).count(v) == census(grid).count(v) + (if v
                == element {
                1int
            } else {
                0int
            }) - (if v == grid[x][y] {
                1int
            } else {
                0int
            }),
    decreases grid.len(),
{
    let after = put(grid, x, y, element);
    let held = grid[x][y];
    if x == grid.len() - 1 {
        let column = grid[x].to_multiset();
        assert(after.drop_last() =~= grid.drop_last());
        assert(after.last() == grid[x].update(y, element));
        to_multiset_update(grid[x], y, element);
        grid[x].to_multiset_ensures();
        assert(grid[x].contains(held));
        assert(column.count(held) >= 1);
        assert(after.last().to_multiset() == column.insert(element).remove(held));
        assert(census(after) == census(grid.drop_last()).add(after.last().to_multiset()));
        assert(census(grid) == census(grid.drop_last()).add(column));
        assert forall|v: Element|
            #[trigger] census(after).count(v) == census(grid).count(v) + (if v == element {
                1int
            } else {
                0int
            }) - (if v == held {
                1int
            } else {
                0int
            }) by {
            assert(column.insert(element).count(v) == column.count(v) + (if v == element {
                1int
            } else {
                0int
            }));
        }
    } else {
        let rest = grid.drop_last();
        assert(after.drop_last() =~= put(rest, x, y, element));
        assert(after.last() == grid.last());
        assert(rest[x][y] == held);
        lemma_census_put(rest, x, y, element);
        assert(census(after) == census(put(rest, x, y, element)).add(grid.last().to_multiset()));
        assert(census(grid) == census(rest).add(grid.last().to_multiset()));
        assert forall|v: Element|
            #[trigger] census(after).count(v) == census(grid).count(v) + (if v == element {
                1int
            } else {
                0int
            }) - (if v == held {
                1int
            } else {
                0int
            }) by {
            assert(census(put(rest, x, y, element)).count(v) == census(rest).count(v) + (if v
                == element {
                1int
            } else {
                0int
            }) - (if v == held {
                1int
            } else {
                0int
            }));
        }
    }
}

/// Exchanging the contents of two cells leaves the census as it was.
pub proof fn lemma_census_exchange(grid: Seq<Seq<Element>>, ax: int, ay: int, bx: int, by: int)
    requires
        in_grid(grid, ax, ay),
        in_grid(grid, bx, by),
    ensures
        census(exchange(grid, ax, ay, bx, by)) == census(grid),
        same_shape(exchange(grid, ax, ay, bx, by), grid),
{
    let first = put(grid, ax, ay, grid[bx][by]);
    lemma_census_put(grid, ax, ay, grid[bx][by]);
    lemma_census_put(first, bx, by, grid[ax][ay]);
    assert(census(exchange(grid, ax, ay, bx, by)) =~= census(grid));
}

/// Writing into a cell what it holds changes nothing.
pub proof fn lemma_put_same(cells: Seq<Seq<Element>>, x: int, y: int)
    requires
        0 <= x < cells.len(),
        0 <= y < cells[x].len(),
    ensures
        put(cells, x, y, cells[x][y]) == cells,
{
    assert(cells[x].update(y, cells[x][y]) =~= cells[x]);
    assert(put(cells, x, y, cells[x][y]) =~= cells);
}

/// Writing a valid element into a cell keeps the grid's shape and validity.
pub proof fn lemma_put_keeps(grid: Seq<Seq<Element>>, x: int, y: int, element: Element)
    requires
        in_grid(grid, x, y),
        element.wf(),
    ensures
        same_shape(put(grid, x, y, element), grid),
        rows(put(grid, x, y, element)) == rows(grid),
        rectangular(grid) ==> rectangular(put(grid, x, y, element)),
        all_valid(grid) ==> all_valid(put(grid, x, y, element)),
{
    let after = put(grid, x, y, element);
    if rectangular(grid) {
        assert forall|i: int| 0 <= i < after.len() implies (#[trigger] after[i]).len() == rows(
            after,
        ) by {
            assert(grid[i].len() == rows(grid));
            assert(grid[0].len() == rows(grid));
        }
    }
    if all_valid(grid) {
        assert forall|i: int, j: int| in_grid(after, i, j) implies (#[trigger] after[i][j]).wf(
        ) by {
            if i == x && j == y {
            } else {
                assert(in_grid(grid, i, j));
                assert(after[i][j] == grid[i][j]);
            }
        }
    }
}

} // verus!
