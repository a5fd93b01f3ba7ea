//! Placing elements on the board with a cursor, and looking them up.

use crate::element::Element;
use crate::shapes::{
    circle_cells, circle_points, in_square, lists_cell, reachable, square_points, stroke_cells,
    stroke_fits, stroke_is_drawable, stroke_points, MAX_COORDINATE,
};
use crate::ui::{CursorKind, Ui};
use crate::world::grid::{in_grid, lemma_put_keeps, put, same_shape};
use crate::world::GameWorld;
use vstd::prelude::*;

verus! {

/// The cell `(x, y)` lies under the cursor at `(center_x, center_y)`: in
/// the square or the circle around it; for a pen in the square around it
/// and, where the pen comes from a previous position that differs on both
/// axes, also in the square around that position and on the stroke between
/// the two.
pub open spec fn under_cursor(
    cursor: CursorKind,
    center_x: i32,
    center_y: i32,
    previous: Option<(i32, i32)>,
    x: int,
    y: int,
) -> bool {
    match cursor {
        CursorKind::Square { size } => in_square(
            center_x as int,
            center_y as int,
            size as int,
            x,
            y,
        ),
        CursorKind::Circle { size } => lists_cell(circle_cells(center_x, center_y, size), x, y),
        CursorKind::Pen { size } => {
            ||| in_square(center_x as int, center_y as int, size as int, x, y)
            ||| (pen_is_moved(center_x, center_y, previous) && {
                ||| in_square(
                    previous.unwrap().0 as int,
                    previous.unwrap().1 as int,
                    size as int,
                    x,
                    y,
                )
                ||| lists_cell(
                    stroke_cells(
                        center_x,
                        center_y,
                        previous.unwrap().0,
                        previous.unwrap().1,
                        size,
                    ),
                    x,
                    y,
                )
            })
        },
    }
}

/// The pen comes from a previous position that differs on both axes.
pub open spec fn pen_is_moved(center_x: i32, center_y: i32, previous: Option<(i32, i32)>) -> bool {
    previous matches Some(before) && before.0 != center_x && before.1 != center_y
}

/// The cursor can be put down: it is valid, its positions are within
/// reach, and the stroke of a moved pen is short and thin enough to be drawn.
pub open spec fn placeable(
    cursor: CursorKind,
    center_x: i32,
    center_y: i32,
    previous: Option<(i32, i32)>,
) -> bool {
    &&& cursor.wf()
    &&& reachable(center_x, center_y)
    &&& cursor is Pen && pen_is_moved(center_x, center_y, previous) ==> {
        &&& reachable(previous.unwrap().0, previous.unwrap().1)
        &&& stroke_fits(
            center_x,
            center_y,
            previous.unwrap().0,
            previous.unwrap().1,
            cursor.spec_size(),
        )
    }
}

/// The grid with the element in every cell that satisfies `covered`.
pub open spec fn filled(
    cells: Seq<Seq<Element>>,
    element: Element,
    covered: spec_fn(int, int) -> bool,
) -> Seq<Seq<Element>> {
    Seq::new(
        cells.len(),
        |x: int|
            Seq::new(
                cells[x].len(),
                |y: int|
                    if covered(x, y) {
                        element
                    } else {
                        cells[x][y]
                    },
            ),
    )
}

/// The grid with the element in every cell under the cursor.
pub open spec fn painted(
    cells: Seq<Seq<Element>>,
    element: Element,
    cursor: CursorKind,
    center_x: i32,
    center_y: i32,
    previous: Option<(i32, i32)>,
) -> Seq<Seq<Element>> {
    filled(
        cells,
        element,
        |x: int, y: int| under_cursor(cursor, center_x, center_y, previous, x, y),
    )
}

/// Whether the cursor can be put down.
pub fn can_place(
    cursor: &CursorKind,
    center_x: i32,
    center_y: i32,
    previous: Option<(i32, i32)>,
) -> (ok: bool)
    ensures
        ok == placeable(*cursor, center_x, center_y, previous),
{
    if !cursor.is_valid() {
        return false;
    }
    if center_x < -MAX_COORDINATE || center_x > MAX_COORDINATE || center_y < -MAX_COORDINATE
        || center_y > MAX_COORDINATE {
        return false;
    }
    match cursor {
        CursorKind::Pen { size } => match previous {
            Some((before_x, before_y)) => {
                if before_x != center_x && before_y != center_y {
                    -MAX_COORDINATE <= before_x && before_x <= MAX_COORDINATE && -MAX_COORDINATE
                        <= before_y && before_y <= MAX_COORDINATE && stroke_is_drawable(
                        center_x,
                        center_y,
                        before_x,
                        before_y,
                        *size,
                    )
                } else {
                    true
                }
            },
            None => true,
        },
        _ => true,
    }
}

impl GameWorld {
    /// Writes the element into every listed cell that lies on the board.
    pub fn paint(&mut self, cells: &Vec<(i32, i32)>, element: Element)
        requires
            old(self).wf(),
            element.wf(),
        ensures
            final(self).wf(),
            final(self).pending() == old(self).pending(),
            final(self)@ == old(self)@.with_cells(
                filled(old(self)@.cells, element, |x: int, y: int| lists_cell(cells@, x, y)),
            ),
    {
        let ghost world = self@;
        let width: usize = self.board_width();
        let height: usize = self.board_height();
        let mut i: usize = 0;
        while i < cells.len()
            invariant
                i <= cells.len(),
                element.wf(),
                world.wf(),
                self.wf(),
                self.pending() == old(self).pending(),
                self@.width == world.width,
                self@.height == world.height,
                width == world.cells.len(),
                height == crate::world::grid::rows(world.cells),
                same_shape(self@.cells, world.cells),
                forall|x: int, y: int|
                    in_grid(world.cells, x, y) ==> #[trigger] self@.cells[x][y] == if lists_cell(
                        cells@.take(i as int),
                        x,
                        y,
                    ) {
                        element
                    } else {
                        world.cells[x][y]
                    },
            decreases cells.len() - i,
        {
            let (x, y) = cells[i];
            let ghost before = self@.cells;
            let ghost done = cells@.take(i as int);
            let ghost next = cells@.take(i + 1);
            if x >= 0 && y >= 0 && (x as usize) < width && (y as usize) < height {
                proof {
                    assert(world.cells[x as int].len() == height);
                    lemma_put_keeps(before, x as int, y as int, element);
                }
                self.set_cell(x as usize, y as usize, element);
            }
            proof {
                assert(next[i as int] == cells@[i as int]);
                assert forall|cx: int, cy: int| in_grid(world.cells, cx, cy) implies
                    #[trigger] self@.cells[cx][cy] == if lists_cell(next, cx, cy) {
                    element
                } else {
                    world.cells[cx][cy]
                } by {
                    assert(world.cells[cx].len() == height);
                    if lists_cell(done, cx, cy) {
                        let k = choose|k: int|
                            0 <= k < done.len() && (#[trigger] done[k]).0 == cx && done[k].1 == cy;
                        assert(next[k] == done[k]);
                    } else if cx == x && cy == y {
                        assert(next[i as int].0 == cx && next[i as int].1 == cy);
                    } else if lists_cell(next, cx, cy) {
                        let k = choose|k: int|
                            0 <= k < next.len() && (#[trigger] next[k]).0 == cx && next[k].1 == cy;
                        if k < i {
                            assert(done[k] == next[k]);
                        }
                    }
                }
            }
            i += 1;
        }
        proof {
            assert(cells@.take(i as int) =~= cells@);
            let goal = filled(world.cells, element, |x: int, y: int| lists_cell(cells@, x, y));
            assert forall|cx: int| 0 <= cx < world.cells.len() implies #[trigger] self@.cells[cx]
                == goal[cx] by {
                assert forall|cy: int| 0 <= cy < world.cells[cx].len() implies self@.cells[cx][cy]
                    == goal[cx][cy] by {
                    assert(in_grid(world.cells, cx, cy));
                }
                assert(self@.cells[cx] =~= goal[cx]);
            }
            assert(self@.cells =~= goal);
        }
    }

    /// Writes the element into all cells of the board that lie under the
    /// cursor at `(x, y)`; a pen also covers the way from its previous
    /// position.
    pub fn place(
        &mut self,
        x: i32,
        y: i32,
        cursor: CursorKind,
        previous: Option<(i32, i32)>,
        element: Element,
    )
        requires
            old(self).wf(),
            element.wf(),
            placeable(cursor, x, y, previous),
        ensures
            final(self).wf(),
            final(self).pending() == old(self).pending(),
            final(self)@ == old(self)@.with_cells(
                painted(old(self)@.cells, element, cursor, x, y, previous),
            ),
    {
        let ghost world = self@;
        match cursor {
            CursorKind::Square { size } => {
                let cells = square_points(x, y, size);
                self.paint(&cells, element);
                proof {
                    assert(self@.cells =~~= painted(world.cells, element, cursor, x, y, previous));
                }
            },
            CursorKind::Circle { size } => {
                let cells = circle_points(x, y, size);
                self.paint(&cells, element);
                proof {
                    assert(self@.cells =~~= painted(world.cells, element, cursor, x, y, previous));
                }
            },
            CursorKind::Pen { size } => {
                let here = square_points(x, y, size);
                self.paint(&here, element);
                match previous {
                    Some((before_x, before_y)) => {
                        if before_x != x && before_y != y {
                            let there = square_points(before_x, before_y, size);
                            self.paint(&there, element);
                            let stroke = stroke_points(x, y, before_x, before_y, size);
                            self.paint(&stroke, element);
                        }
                    },
                    None => {},
                }
                proof {
                    assert(self@.cells =~~= painted(world.cells, element, cursor, x, y, previous));
                }
            },
        }
    }

    /// Writes the element under the cursor of the window at the given
    /// window position; a pen also covers the way from the previous window
    /// position, if that lies on the board. Nothing happens where the
    /// position lies outside the board, or where the cursor cannot be put
    /// down there.
    pub fn insert_element_at(
        &mut self,
        ui: &Ui,
        window_x: i32,
        window_y: i32,
        element: Element,
        prev_x: i32,
        prev_y: i32,
    )
        requires
            old(self).wf(),
            ui.wf(),
            element.wf(),
        ensures
            final(self).wf(),
            final(self).pending() == old(self).pending(),
            final(self)@ == match ui.board_coordinate(window_x as int, window_y as int) {
                Some(center) => {
                    let previous = ui.board_coordinate(prev_x as int, prev_y as int);
                    if placeable(ui.cursor, center.0, center.1, previous) {
                        old(self)@.with_cells(
                            painted(
                                old(self)@.cells,
                                element,
                                ui.cursor,
                                center.0,
                                center.1,
                                previous,
                            ),
                        )
                    } else {
                        old(self)@
                    }
                },
                None => old(self)@,
            },
    {
        if let Some((x, y)) = ui.window_to_board_coordinate(window_x, window_y) {
            let previous = ui.window_to_board_coordinate(prev_x, prev_y);
            let cursor = *ui.cursor();
            if can_place(&cursor, x, y, previous) {
                self.place(x, y, cursor, previous, element);
            }
        }
    }

    /// What the board holds under the given window position, if that lies
    /// on the window's board.
    pub fn get_element_at(&self, ui: &Ui, window_x: i32, window_y: i32) -> (element: Option<
        Element,
    >)
        requires
            ui.wf(),
        ensures
            element == match ui.board_coordinate(window_x as int, window_y as int) {
                Some(cell) => Some(
                    if in_grid(self@.cells, cell.0 as int, cell.1 as int) {
                        self@.at(cell.0 as int, cell.1 as int)
                    } else {
                        Element::Empty
                    },
                ),
                None => None,
            },
    {
        match ui.window_to_board_coordinate(window_x, window_y) {
            Some((x, y)) => Some(self.element_at(x as usize, y as usize)),
            None => None,
        }
    }
}

} // verus!
