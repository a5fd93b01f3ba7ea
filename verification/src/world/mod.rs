//! The world: the grid of elements and the tick that moves it on.

pub mod grid;
pub mod laws;
pub mod movement;
pub mod moves;
pub mod place;
pub mod rules;
pub mod transmute;

use crate::element::{Element, ElementKind};
use crate::random::draw_index;
use crate::world::grid::{
    all_valid, census, empty_grid, in_grid, lemma_put_keeps, particles, put, rectangular, rows,
    same_shape,
};
use crate::world::laws::lemma_commit_conserves;
use crate::world::moves::{
    by_target, lemma_by_target, lemma_by_target_same_moves, sort_by_target, Move,
};
use crate::world::rules::{
    carried_out, carry_out, clamp, covers, decay_outcome, ends_run, extend, proposed, run_start,
    winners, MoveDraws, ReactionDraws, TickDraws,
};
use rand_xorshift::XorShiftRng;
use vstd::prelude::*;

verus! {

/// The smallest number of columns and of rows that a resized board has.
pub const MIN_BOARD_SIZE: usize = 4;

/// The world as a mathematical value: the cells of the board, read as
/// `cells[x][y]`, and the size of the viewport, the part of the board that
/// is simulated.
pub struct WorldView {
    pub cells: Seq<Seq<Element>>,
    pub width: nat,
    pub height: nat,
}

impl WorldView {
    /// The board is a rectangle of valid elements, and the viewport lies
    /// within it.
    pub open spec fn wf(self) -> bool {
        &&& rectangular(self.cells)
        &&& all_valid(self.cells)
        &&& self.cells.len() <= usize::MAX
        &&& rows(self.cells) <= usize::MAX
        &&& self.width <= self.cells.len()
        &&& self.height <= usize::MAX
        &&& self.width > 0 ==> self.height <= rows(self.cells)
    }

    /// What is simulated lies on the board.
    pub proof fn lemma_viewport_on_board(self, x: int, y: int)
        requires
            self.wf(),
            self.in_viewport(x, y),
        ensures
            in_grid(self.cells, x, y),
            self.at(x, y).wf(),
    {
        assert(self.cells[x].len() == rows(self.cells));
    }

    /// The cell `(x, y)` is simulated.
    pub open spec fn in_viewport(self, x: int, y: int) -> bool {
        0 <= x < self.width && 0 <= y < self.height
    }

    /// What the cell `(x, y)` holds.
    pub open spec fn at(self, x: int, y: int) -> Element {
        self.cells[x][y]
    }

    /// The same world with other cells.
    pub open spec fn with_cells(self, cells: Seq<Seq<Element>>) -> WorldView {
        WorldView { cells, width: self.width, height: self.height }
    }
}

/// The cells of a board as a grid.
pub open spec fn grid_of(board: &Vec<Vec<Element>>) -> Seq<Seq<Element>> {
    Seq::new(board@.len(), |x: int| board@[x]@)
}

/// The board grown to at least the given size: what it held stays where it
/// was, and the new cells are empty.
pub open spec fn grown(cells: Seq<Seq<Element>>, width: nat, height: nat) -> Seq<Seq<Element>> {
    Seq::new(
        if cells.len() >= width {
            cells.len()
        } else {
            width
        },
        |x: int|
            Seq::new(
                if rows(cells) >= height {
                    rows(cells)
                } else {
                    height
                },
                |y: int|
                    if in_grid(cells, x, y) {
                        cells[x][y]
                    } else {
                        Element::Empty
                    },
            ),
    )
}

/// The game board with its viewport and the moves proposed in a tick.
pub struct GameWorld {
    /// The content of the game board, at least as large as the viewport.
    board: Vec<Vec<Element>>,
    /// The viewport width. What lies outside the viewport is paused until
    /// the viewport grows over it again.
    width: usize,
    /// The viewport height.
    height: usize,
    /// The moves proposed in the current tick.
    moves: Vec<Move>,
}

impl View for GameWorld {
    type V = WorldView;

    closed spec fn view(&self) -> WorldView {
        WorldView {
            cells: grid_of(&self.board),
            width: self.width as nat,
            height: self.height as nat,
        }
    }
}

impl GameWorld {
    /// The invariant of the world: that of its view.
    pub open spec fn wf(&self) -> bool {
        self@.wf()
    }

    /// The moves proposed so far in the current tick.
    pub closed spec fn pending(&self) -> Seq<Move> {
        self.moves@
    }

    /// A world of the given size with nothing in it; the viewport is the
    /// whole board.
    pub fn new(width: usize, height: usize) -> (world: Self)
        ensures
            world@.cells == empty_grid(width as nat, height as nat),
            world@.width == width,
            world@.height == height,
            world.wf(),
            world.pending() == Seq::<Move>::empty(),
    {
        let mut board: Vec<Vec<Element>> = Vec::new();
        let mut x: usize = 0;
        while x < width
            invariant
                x <= width,
                board@.len() == x,
                forall|i: int| 0 <= i < x ==> (#[trigger] board@[i])@ == Seq::new(
                    height as nat,
                    |y: int| Element::Empty,
                ),
            decreases width - x,
        {
            let mut column: Vec<Element> = Vec::new();
            let mut y: usize = 0;
            while y < height
                invariant
                    y <= height,
                    column@.len() == y,
                    forall|j: int| 0 <= j < y ==> #[trigger] column@[j] == Element::Empty,
                decreases height - y,
            {
                column.push(Element::Empty);
                y += 1;
            }
            proof {
                assert(column@ =~= Seq::new(height as nat, |y: int| Element::Empty));
            }
            board.push(column);
            x += 1;
        }
        let world = GameWorld { board, width, height, moves: Vec::new() };
        proof {
            assert(world@.cells =~= empty_grid(width as nat, height as nat));
        }
        world
    }

    /// The cells of the board, column by column.
    pub fn board(&self) -> (board: &Vec<Vec<Element>>)
        ensures
            grid_of(board) == self@.cells,
    {
        &self.board
    }

    /// The width of the board.
    pub fn board_width(&self) -> (width: usize)
        ensures
            width == self@.cells.len(),
    {
        self.board.len()
    }

    /// The height of the board: zero where it has no column.
    pub fn board_height(&self) -> (height: usize)
        ensures
            height == rows(self@.cells),
    {
        if self.board.len() == 0 {
            0
        } else {
            self.board[0].len()
        }
    }

    /// The height of the viewport.
    pub fn viewport_height(&self) -> (height: usize)
        ensures
            height == self@.height,
    {
        self.height
    }

    /// The width of the viewport.
    pub fn viewport_width(&self) -> (width: usize)
        ensures
            width == self@.width,
    {
        self.width
    }

    /// What the cell `(x, y)` of the board holds; outside the board that is
    /// the empty element.
    pub fn element_at(&self, x: usize, y: usize) -> (element: Element)
        ensures
            element == if in_grid(self@.cells, x as int, y as int) {
                self@.at(x as int, y as int)
            } else {
                Element::Empty
            },
    {
        if x < self.board.len() && y < self.board[x].len() {
            self.board[x][y]
        } else {
            Element::Empty
        }
    }

    /// What a cell of the board holds.
    pub(crate) fn cell(&self, x: usize, y: usize) -> (element: Element)
        requires
            in_grid(self@.cells, x as int, y as int),
        ensures
            element == self@.at(x as int, y as int),
    {
        self.board[x][y]
    }

    /// Writes one cell of the board.
    pub(crate) fn set_cell(&mut self, x: usize, y: usize, element: Element)
        requires
            in_grid(old(self)@.cells, x as int, y as int),
        ensures
            final(self)@ == old(self)@.with_cells(
                put(old(self)@.cells, x as int, y as int, element),
            ),
            final(self).pending() == old(self).pending(),
    {
        self.board[x][y] = element;
        proof {
            assert(self@.cells =~= put(old(self)@.cells, x as int, y as int, element));
        }
    }

    /// Adds a move to those proposed in the current tick.
    pub(crate) fn propose(&mut self, proposed: Move)
        ensures
            final(self)@ == old(self)@,
            final(self).pending() == old(self).pending().push(proposed),
    {
        self.moves.push(proposed);
    }

    /// Forgets the moves proposed so far.
    pub(crate) fn clear_moves(&mut self)
        ensures
            final(self)@ == old(self)@,
            final(self).pending() == Seq::<Move>::empty(),
    {
        self.moves.clear();
    }

    /// Empties every cell of the board.
    pub fn reset(&mut self)
        requires
            old(self).wf(),
        ensures
            final(self)@.cells == empty_grid(old(self)@.cells.len(), rows(old(self)@.cells)),
            final(self)@.width == old(self)@.width,
            final(self)@.height == old(self)@.height,
            final(self).wf(),
    {
        let columns: usize = self.board.len();
        let height: usize = self.board_height();
        let mut x: usize = 0;
        proof {
            assert forall|i: int| 0 <= i < columns implies (#[trigger] self.board@[i])@.len()
                == height by {
                assert(self@.cells[i] == self.board@[i]@);
            }
        }
        while x < columns
            invariant
                x <= columns,
                columns == self.board@.len(),
                columns == old(self)@.cells.len(),
                height == rows(old(self)@.cells),
                self.width == old(self).width,
                self.height == old(self).height,
                forall|i: int| 0 <= i < columns ==> (#[trigger] self.board@[i])@.len() == height,
                forall|i: int, j: int|
                    0 <= i < x && 0 <= j < height ==> (#[trigger] self.board@[i]@[j])
                        == Element::Empty,
            decreases columns - x,
        {
            let mut y: usize = 0;
            while y < height
                invariant
                    y <= height,
                    x < columns,
                    columns == self.board@.len(),
                    self.width == old(self).width,
                    self.height == old(self).height,
                    forall|i: int|
                        0 <= i < columns ==> (#[trigger] self.board@[i])@.len() == height,
                    forall|i: int, j: int|
                        0 <= i < x && 0 <= j < height ==> (#[trigger] self.board@[i]@[j])
                            == Element::Empty,
                    forall|j: int|
                        0 <= j < y ==> (#[trigger] self.board@[x as int]@[j]) == Element::Empty,
                decreases height - y,
            {
                self.board[x][y] = Element::Empty;
                y += 1;
            }
            x += 1;
        }
        proof {
            let nothing = empty_grid(old(self)@.cells.len(), rows(old(self)@.cells));
            assert forall|i: int| 0 <= i < columns implies #[trigger] self@.cells[i]
                == nothing[i] by {
                assert(self.board@[i]@ =~= nothing[i]);
            }
            assert(self@.cells =~= nothing);
        }
    }

    /// Returns the world with the viewport set to the given size. The board
    /// grows, and never shrinks, to hold the viewport and at least
    /// [`MIN_BOARD_SIZE`] columns and rows; what it held stays where it was,
    /// also outside a smaller viewport, and the new cells are empty.
    pub fn resize(self, new_width: usize, new_height: usize) -> (resized: Self)
        requires
            self.wf(),
        ensures
            resized@.cells == grown(
                self@.cells,
                if new_width >= MIN_BOARD_SIZE {
                    new_width as nat
                } else {
                    MIN_BOARD_SIZE as nat
                },
                if new_height >= MIN_BOARD_SIZE {
                    new_height as nat
                } else {
                    MIN_BOARD_SIZE as nat
                },
            ),
            resized@.width == new_width,
            resized@.height == new_height,
            resized.wf(),
            resized.pending() == self.pending(),
    {
        let wanted_width: usize = if new_width >= MIN_BOARD_SIZE {
            new_width
        } else {
            MIN_BOARD_SIZE
        };
        let wanted_height: usize = if new_height >= MIN_BOARD_SIZE {
            new_height
        } else {
            MIN_BOARD_SIZE
        };
        let old_width: usize = self.board.len();
        let old_height: usize = self.board_height();
        let board_width: usize = if old_width >= wanted_width {
            old_width
        } else {
            wanted_width
        };
        let board_height: usize = if old_height >= wanted_height {
            old_height
        } else {
            wanted_height
        };
        let ghost target = grown(self@.cells, wanted_width as nat, wanted_height as nat);
        let mut board: Vec<Vec<Element>> = Vec::new();
        let mut x: usize = 0;
        while x < board_width
            invariant
                x <= board_width,
                self.wf(),
                old_width == self.board@.len(),
                old_height == rows(self@.cells),
                target.len() == board_width,
                target == grown(self@.cells, wanted_width as nat, wanted_height as nat),
                board_height == if old_height >= wanted_height {
                    old_height
                } else {
                    wanted_height
                },
                board@.len() == x,
                forall|i: int| 0 <= i < x ==> (#[trigger] board@[i])@ == target[i],
            decreases board_width - x,
        {
            let mut column: Vec<Element> = Vec::new();
            let mut y: usize = 0;
            proof {
                assert(target[x as int].len() == board_height);
            }
            while y < board_height
                invariant
                    y <= board_height,
                    x < board_width,
                    self.wf(),
                    old_width == self.board@.len(),
                    old_height == rows(self@.cells),
                    target.len() == board_width,
                    target[x as int].len() == board_height,
                    target == grown(self@.cells, wanted_width as nat, wanted_height as nat),
                    column@.len() == y,
                    forall|j: int| 0 <= j < y ==> #[trigger] column@[j] == target[x as int][j],
                decreases board_height - y,
            {
                let element = if x < old_width && y < old_height {
                    self.board[x][y]
                } else {
                    Element::Empty
                };
                column.push(element);
                y += 1;
            }
            proof {
                assert(column@ =~= target[x as int]);
            }
            board.push(column);
            x += 1;
        }
        let resized = GameWorld { board, width: new_width, height: new_height, moves: self.moves };
        proof {
            assert(resized@.cells =~= target);
        }
        resized
    }
}

impl GameWorld {
    /// [`GameWorld::move_down`], with the answer of its draw noted.
    fn try_move_down(
        &mut self,
        x: usize,
        y: usize,
        rng: &mut XorShiftRng,
        noted: &mut Ghost<MoveDraws>,
    ) -> (pushed: bool)
        requires
            old(self).wf(),
            old(self)@.in_viewport(x as int, y as int),
        ensures
            final(self)@ == old(self)@,
            final(noted)@ == (MoveDraws { down_skip: final(noted)@.down_skip, ..old(noted)@ }),
            proposed(
                old(self).pending(),
                final(self).pending(),
                pushed,
                old(self)@.move_down_choice(x as int, y as int, final(noted)@.down_skip),
            ),
    {
        let pushed = self.move_down(x, y, rng);
        proof {
            let skip = choose|skip: bool|
                proposed(
                    old(self).pending(),
                    self.pending(),
                    pushed,
                    #[trigger] old(self)@.move_down_choice(x as int, y as int, skip),
                );
            *noted.borrow_mut() = MoveDraws { down_skip: skip, ..noted@ };
        }
        pushed
    }

    /// [`GameWorld::move_down_side`], with the answers of its draws noted.
    fn try_move_down_side(
        &mut self,
        x: usize,
        y: usize,
        rng: &mut XorShiftRng,
        noted: &mut Ghost<MoveDraws>,
    ) -> (pushed: bool)
        requires
            old(self).wf(),
            old(self)@.in_viewport(x as int, y as int),
        ensures
            final(self)@ == old(self)@,
            final(noted)@ == (MoveDraws {
                side_coin: final(noted)@.side_coin,
                side_skip: final(noted)@.side_skip,
                ..old(noted)@
            }),
            proposed(
                old(self).pending(),
                final(self).pending(),
                pushed,
                old(self)@.move_down_side_choice(
                    x as int,
                    y as int,
                    final(noted)@.side_coin,
                    final(noted)@.side_skip,
                ),
            ),
    {
        let pushed = self.move_down_side(x, y, rng);
        proof {
            let (coin, skip) = choose|coin: bool, skip: bool|
                proposed(
                    old(self).pending(),
                    self.pending(),
                    pushed,
                    #[trigger] old(self)@.move_down_side_choice(x as int, y as int, coin, skip),
                );
            *noted.borrow_mut() = MoveDraws { side_coin: coin, side_skip: skip, ..noted@ };
        }
        pushed
    }

    /// [`GameWorld::swap_down`], with the answers of its draws noted.
    fn try_swap_down(
        &mut self,
        x: usize,
        y: usize,
        rng: &mut XorShiftRng,
        noted: &mut Ghost<MoveDraws>,
    ) -> (pushed: bool)
        requires
            old(self).wf(),
            old(self)@.in_viewport(x as int, y as int),
        ensures
            final(self)@ == old(self)@,
            final(noted)@ == (MoveDraws {
                swap_skip: final(noted)@.swap_skip,
                swap_hit: final(noted)@.swap_hit,
                ..old(noted)@
            }),
            proposed(
                old(self).pending(),
                final(self).pending(),
                pushed,
                old(self)@.swap_down_choice(
                    x as int,
                    y as int,
                    final(noted)@.swap_skip,
                    final(noted)@.swap_hit,
                ),
            ),
    {
        let pushed = self.swap_down(x, y, rng);
        proof {
            let (skip, hit) = choose|skip: bool, hit: bool|
                proposed(
                    old(self).pending(),
                    self.pending(),
                    pushed,
                    #[trigger] old(self)@.swap_down_choice(x as int, y as int, skip, hit),
                );
            *noted.borrow_mut() = MoveDraws { swap_skip: skip, swap_hit: hit, ..noted@ };
        }
        pushed
    }

    /// [`GameWorld::swap_down_side`], with the answers of its draws noted.
    fn try_swap_down_side(
        &mut self,
        x: usize,
        y: usize,
        rng: &mut XorShiftRng,
        noted: &mut Ghost<MoveDraws>,
    ) -> (pushed: bool)
        requires
            old(self).wf(),
            old(self)@.in_viewport(x as int, y as int),
        ensures
            final(self)@ == old(self)@,
            final(noted)@ == (MoveDraws {
                swap_side_coin: final(noted)@.swap_side_coin,
                swap_side_hit: final(noted)@.swap_side_hit,
                swap_side_skip: final(noted)@.swap_side_skip,
                ..old(noted)@
            }),
            proposed(
                old(self).pending(),
                final(self).pending(),
                pushed,
                old(self)@.swap_down_side_choice(
                    x as int,
                    y as int,
                    final(noted)@.swap_side_coin,
                    final(noted)@.swap_side_hit,
                    final(noted)@.swap_side_skip,
                ),
            ),
    {
        let pushed = self.swap_down_side(x, y, rng);
        proof {
            let (coin, hit, skip) = choose|coin: bool, hit: bool, skip: bool|
                proposed(
                    old(self).pending(),
                    self.pending(),
                    pushed,
                    #[trigger] old(self)@.swap_down_side_choice(
                        x as int,
                        y as int,
                        coin,
                        hit,
                        skip,
                    ),
                );
            *noted.borrow_mut() = MoveDraws {
                swap_side_coin: coin,
                swap_side_hit: hit,
                swap_side_skip: skip,
                ..noted@
            };
        }
        pushed
    }

    /// [`GameWorld::move_side`], with the answer of its coin noted.
    fn try_move_side(
        &mut self,
        x: usize,
        y: usize,
        rng: &mut XorShiftRng,
        noted: &mut Ghost<MoveDraws>,
    ) -> (pushed: bool)
        requires
            old(self).wf(),
            old(self)@.in_viewport(x as int, y as int),
        ensures
            final(self)@ == old(self)@,
            final(noted)@ == (MoveDraws { level_coin: final(noted)@.level_coin, ..old(noted)@ }),
            proposed(
                old(self).pending(),
                final(self).pending(),
                pushed,
                old(self)@.move_side_choice(x as int, y as int, final(noted)@.level_coin),
            ),
    {
        let pushed = self.move_side(x, y, rng);
        proof {
            let coin = choose|coin: bool|
                proposed(
                    old(self).pending(),
                    self.pending(),
                    pushed,
                    #[trigger] old(self)@.move_side_choice(x as int, y as int, coin),
                );
            *noted.borrow_mut() = MoveDraws { level_coin: coin, ..noted@ };
        }
        pushed
    }

    /// Lets the cell `(x, y)` propose a move: nothing in the bottom row and
    /// for what is empty or solid; else the strategies of the element's kind
    /// are tried in that kind's order until one proposes a move.
    pub fn propose_move(&mut self, x: usize, y: usize, rng: &mut XorShiftRng)
        requires
            old(self).wf(),
            old(self)@.in_viewport(x as int, y as int),
        ensures
            final(self)@ == old(self)@,
            exists|draws: MoveDraws|
                final(self).pending() == extend(
                    old(self).pending(),
                    #[trigger] old(self)@.proposal(x as int, y as int, draws),
                ),
    {
        let mut noted: Ghost<MoveDraws> = Ghost(
            MoveDraws {
                down_skip: false,
                side_coin: false,
                side_skip: false,
                swap_skip: false,
                swap_hit: false,
                swap_side_coin: false,
                swap_side_hit: false,
                swap_side_skip: false,
                level_coin: false,
            },
        );
        if y + 1 != self.viewport_height() {
            match self.at(x, y).kind() {
                ElementKind::Empty => {},
                ElementKind::Solid => {},
                ElementKind::Powder { .. } => {
                    if !self.try_move_down(x, y, rng, &mut noted) {
                        if !self.try_move_down_side(x, y, rng, &mut noted) {
                            if !self.try_swap_down(x, y, rng, &mut noted) {
                                self.try_swap_down_side(x, y, rng, &mut noted);
                            }
                        }
                    }
                },
                ElementKind::Liquid { .. } => {
                    if !self.try_move_down(x, y, rng, &mut noted) {
                        if !self.try_move_down_side(x, y, rng, &mut noted) {
                            if !self.try_swap_down(x, y, rng, &mut noted) {
                                if !self.try_swap_down_side(x, y, rng, &mut noted) {
                                    self.try_move_side(x, y, rng, &mut noted);
                                }
                            }
                        }
                    }
                },
                ElementKind::Gas { .. } => {
                    if !self.try_move_down(x, y, rng, &mut noted) {
                        if !self.try_move_side(x, y, rng, &mut noted) {
                            if !self.try_move_down_side(x, y, rng, &mut noted) {
                                if !self.try_swap_down_side(x, y, rng, &mut noted) {
                                    self.try_swap_down(x, y, rng, &mut noted);
                                }
                            }
                        }
                    }
                },
            }
        }
        assert(self.pending() == extend(
            old(self).pending(),
            old(self)@.proposal(x as int, y as int, noted@),
        ));
    }
}

impl GameWorld {
    /// The decay pass: every cell of the viewport has its chance to decay.
    pub fn decay_pass(&mut self, rng: &mut XorShiftRng)
        requires
            old(self).wf(),
        ensures
            final(self).wf(),
            final(self).pending() == old(self).pending(),
            old(self)@.same_outside_viewport(final(self)@),
            exists|answers: Map<(int, int), bool>|
                final(self)@ == #[trigger] old(self)@.decayed(answers),
    {
        let ghost world = self@;
        let ghost mut answers: Map<(int, int), bool> = Map::empty();
        let height = self.viewport_height();
        let width = self.viewport_width();
        let mut y: usize = 0;
        while y < height
            invariant
                y <= height,
                height == world.height,
                width == world.width,
                world.wf(),
                self.wf(),
                self.pending() == old(self).pending(),
                self@.width == world.width,
                self@.height == world.height,
                same_shape(self@.cells, world.cells),
                forall|cx: int, cy: int|
                    in_grid(world.cells, cx, cy) ==> #[trigger] self@.cells[cx][cy]
                        == if world.in_viewport(cx, cy) && cy < y {
                        decay_outcome(world.cells[cx][cy], answers[(cx, cy)])
                    } else {
                        world.cells[cx][cy]
                    },
            decreases height - y,
        {
            let mut x: usize = 0;
            while x < width
                invariant
                    x <= width,
                    y < height,
                    height == world.height,
                    width == world.width,
                    world.wf(),
                    self.wf(),
                    self.pending() == old(self).pending(),
                    self@.width == world.width,
                    self@.height == world.height,
                    same_shape(self@.cells, world.cells),
                    forall|cx: int, cy: int|
                        in_grid(world.cells, cx, cy) ==> #[trigger] self@.cells[cx][cy]
                            == if world.in_viewport(cx, cy) && (cy < y || (cy == y && cx < x)) {
                            decay_outcome(world.cells[cx][cy], answers[(cx, cy)])
                        } else {
                            world.cells[cx][cy]
                        },
                decreases width - x,
            {
                let ghost before = self@;
                proof {
                    world.lemma_viewport_on_board(x as int, y as int);
                }
                self.decay(x, y, rng);
                proof {
                    let answer = choose|answer: bool|
                        self@ == before.with_cells(
                            put(
                                before.cells,
                                x as int,
                                y as int,
                                #[trigger] decay_outcome(before.at(x as int, y as int), answer),
                            ),
                        );
                    answers = answers.insert((x as int, y as int), answer);
                }
                x += 1;
            }
            y += 1;
        }
        proof {
            let goal = world.decayed(answers);
            assert forall|cx: int| 0 <= cx < world.cells.len() implies #[trigger] self@.cells[cx]
                == goal.cells[cx] by {
                assert(self@.cells[cx].len() == world.cells[cx].len());
                assert forall|cy: int| 0 <= cy < world.cells[cx].len() implies self@.cells[cx][cy]
                    == goal.cells[cx][cy] by {
                    assert(in_grid(world.cells, cx, cy));
                }
                assert(self@.cells[cx] =~= goal.cells[cx]);
            }
            assert(self@.cells =~= goal.cells);
        }
    }

    /// The transmutation pass: every cell of the viewport has its chance to
    /// react with its neighbours, row by row from the top and in each row
    /// from the left, each cell seeing what the cells before it left.
    pub fn transmute_pass(&mut self, rng: &mut XorShiftRng)
        requires
            old(self).wf(),
        ensures
            final(self).wf(),
            final(self).pending() == old(self).pending(),
            old(self)@.same_outside_viewport(final(self)@),
            exists|draws: Seq<Seq<ReactionDraws>>|
                covers(draws, old(self)@.width, old(self)@.height) && final(self)@
                    == #[trigger] old(self)@.transmuted(draws),
    {
        let ghost world = self@;
        let ghost mut done: Seq<Seq<ReactionDraws>> = Seq::empty();
        let height = self.viewport_height();
        let width = self.viewport_width();
        let mut y: usize = 0;
        while y < height
            invariant
                y <= height,
                height == world.height,
                width == world.width,
                world.wf(),
                self.wf(),
                self.pending() == old(self).pending(),
                self@.width == world.width,
                self@.height == world.height,
                done.len() == y,
                forall|r: int| 0 <= r < y ==> (#[trigger] done[r]).len() == width,
                self@ == world.transmuted(done),
            decreases height - y,
        {
            let ghost start = self@;
            let ghost mut row: Seq<ReactionDraws> = Seq::empty();
            let mut x: usize = 0;
            while x < width
                invariant
                    x <= width,
                    y < height,
                    height == world.height,
                    width == world.width,
                    self.wf(),
                    self.pending() == old(self).pending(),
                    self@.width == world.width,
                    self@.height == world.height,
                    row.len() == x,
                    self@ == start.transmuted_row(y as int, row),
                decreases width - x,
            {
                let ghost before = self@;
                self.transmute(x, y, rng);
                proof {
                    let draws = choose|draws: ReactionDraws|
                        self@ == #[trigger] before.transmuted_cell(x as int, y as int, draws);
                    let longer = row.push(draws);
                    assert(longer.drop_last() =~= row);
                    row = longer;
                }
                x += 1;
            }
            proof {
                let longer = done.push(row);
                assert(longer.drop_last() =~= done);
                done = longer;
            }
            y += 1;
        }
        proof {
            world.lemma_transmuted_in_viewport(done);
        }
    }

    /// The first half of the movement pass: every cell of the viewport
    /// proposes its move, row by row from the top and in each row from the
    /// left. The grid stays as it is.
    pub fn collect_moves(&mut self, rng: &mut XorShiftRng)
        requires
            old(self).wf(),
        ensures
            final(self)@ == old(self)@,
            exists|draws: Seq<Seq<MoveDraws>>|
                covers(draws, old(self)@.width, old(self)@.height) && final(self).pending()
                    == #[trigger] old(self)@.proposals(draws),
    {
        self.clear_moves();
        let ghost world = self@;
        let ghost mut done: Seq<Seq<MoveDraws>> = Seq::empty();
        let height = self.viewport_height();
        let width = self.viewport_width();
        let mut y: usize = 0;
        while y < height
            invariant
                y <= height,
                height == world.height,
                width == world.width,
                world.wf(),
                self@ == world,
                done.len() == y,
                forall|r: int| 0 <= r < y ==> (#[trigger] done[r]).len() == width,
                self.pending() == world.proposals(done),
            decreases height - y,
        {
            let ghost start = self.pending();
            let ghost mut row: Seq<MoveDraws> = Seq::empty();
            let mut x: usize = 0;
            while x < width
                invariant
                    x <= width,
                    y < height,
                    height == world.height,
                    width == world.width,
                    world.wf(),
                    self@ == world,
                    row.len() == x,
                    self.pending() == start + world.proposals_row(y as int, row),
                decreases width - x,
            {
                let ghost before = self.pending();
                self.propose_move(x, y, rng);
                proof {
                    let draws = choose|draws: MoveDraws|
                        self.pending() == extend(
                            before,
                            #[trigger] world.proposal(x as int, y as int, draws),
                        );
                    let longer = row.push(draws);
                    assert(longer.drop_last() =~= row);
                    assert(self.pending() =~= start + world.proposals_row(y as int, longer));
                    row = longer;
                }
                x += 1;
            }
            proof {
                let longer = done.push(row);
                assert(longer.drop_last() =~= done);
                done = longer;
            }
            y += 1;
        }
    }
}

impl GameWorld {
    /// Carries out one move between two cells of the board: the source's
    /// element goes to the target; the source is empty after a move and
    /// holds what the target held after a swap.
    pub fn carry_out(&mut self, chosen: Move)
        requires
            old(self).wf(),
            in_grid(old(self)@.cells, chosen.source().0, chosen.source().1),
            in_grid(old(self)@.cells, chosen.target().0, chosen.target().1),
        ensures
            final(self).wf(),
            final(self).pending() == old(self).pending(),
            same_shape(final(self)@.cells, old(self)@.cells),
            final(self)@ == old(self)@.with_cells(carry_out(old(self)@.cells, chosen)),
    {
        let ghost cells = self@.cells;
        match chosen {
            Move::MoveElement { from_x, from_y, to_x, to_y } => {
                let moved = self.cell(from_x, from_y);
                proof {
                    lemma_put_keeps(cells, to_x as int, to_y as int, moved);
                    lemma_put_keeps(
                        put(cells, to_x as int, to_y as int, moved),
                        from_x as int,
                        from_y as int,
                        Element::Empty,
                    );
                }
                self.board[to_x][to_y] = moved;
                self.board[from_x][from_y] = Element::Empty;
                proof {
                    assert(self@.cells =~= carry_out(cells, chosen));
                }
            },
            Move::SwapElement { from_x, from_y, to_x, to_y } => {
                let displaced = self.cell(to_x, to_y);
                let moved = self.cell(from_x, from_y);
                proof {
                    lemma_put_keeps(cells, to_x as int, to_y as int, moved);
                    lemma_put_keeps(
                        put(cells, to_x as int, to_y as int, moved),
                        from_x as int,
                        from_y as int,
                        displaced,
                    );
                }
                self.board[to_x][to_y] = moved;
                self.board[from_x][from_y] = displaced;
                proof {
                    assert(self@.cells =~= carry_out(cells, chosen));
                }
            },
        }
    }

    /// The second half of the movement pass: the proposed moves are sorted
    /// by destination, and of the moves to one destination one is drawn and
    /// carried out; the others are dropped.
    pub fn commit_moves(&mut self, rng: &mut XorShiftRng)
        requires
            old(self).wf(),
            forall|k: int|
                0 <= k < old(self).pending().len() ==> old(self)@.admits(
                    #[trigger] old(self).pending()[k],
                ),
        ensures
            final(self).wf(),
            old(self)@.same_outside_viewport(final(self)@),
            census(final(self)@.cells) == census(old(self)@.cells),
            particles(final(self)@.cells) == particles(old(self)@.cells),
            exists|picks: Seq<int>|
                picks.len() == old(self).pending().len() && final(self)@ == old(self)@.with_cells(
                    carried_out(
                        old(self)@.cells,
                        #[trigger] winners(by_target(old(self).pending()), picks),
                    ),
                ),
    {
        let ghost world = self@;
        let ghost proposals = self.pending();
        let sorted_moves = sort_by_target(&self.moves);
        let ghost sorted = sorted_moves@;
        proof {
            lemma_by_target_same_moves(proposals);
            assert forall|k: int| 0 <= k < sorted.len() implies world.admits(
                #[trigger] sorted[k],
            ) by {
                assert(sorted.contains(sorted[k]));
                assert(proposals.contains(sorted[k]));
                let j = choose|j: int| 0 <= j < proposals.len() && proposals[j] == sorted[k];
                assert(world.admits(proposals[j]));
            }
        }
        self.moves = sorted_moves;
        let count: usize = self.moves.len();
        // One move more, to a destination that no cell has, ends the last run.
        let sentinel = Move::MoveElement {
            from_x: self.width,
            from_y: self.height,
            to_x: self.width,
            to_y: self.height,
        };
        self.moves.push(sentinel);
        let mut prev_i: usize = 0;
        let ghost mut picks: Seq<int> = Seq::empty();
        let mut i: usize = 0;
        while i < count
            invariant
                i <= count,
                count == sorted.len(),
                self.moves@ == sorted.push(sentinel),
                sentinel.target() == (world.width as int, world.height as int),
                prev_i <= i,
                i < count ==> prev_i == run_start(sorted, i as int),
                picks.len() == i,
                world.wf(),
                self.wf(),
                self@.width == world.width,
                self@.height == world.height,
                same_shape(self@.cells, world.cells),
                self@.cells == carried_out(world.cells, winners(sorted, picks)),
                forall|k: int| 0 <= k < sorted.len() ==> world.admits(#[trigger] sorted[k]),
            decreases count - i,
        {
            let ghost won = winners(sorted, picks);
            let ghost mut pick: int = 0;
            assert(world.admits(sorted[i as int]));
            let ends = !self.moves[i].same_dest_as(&self.moves[i + 1]);
            assert(ends == ends_run(sorted, i as int));
            if ends {
                let random_choice = draw_index(rng, prev_i, i);
                let chosen: Move = self.moves[random_choice];
                proof {
                    pick = random_choice as int;
                    assert(chosen == sorted[pick]);
                    assert(world.admits(sorted[pick]));
                    world.lemma_viewport_on_board(chosen.source().0, chosen.source().1);
                    world.lemma_viewport_on_board(chosen.target().0, chosen.target().1);
                }
                self.carry_out(chosen);
                prev_i = i + 1;
            }
            proof {
                let longer = picks.push(pick);
                assert(longer.drop_last() =~= picks);
                if ends {
                    let chosen = sorted[pick];
                    assert(clamp(pick, run_start(sorted, i as int), i as int) == pick);
                    assert(winners(sorted, longer) == won.push(chosen));
                    assert(won.push(chosen).drop_last() =~= won);
                } else {
                    assert(winners(sorted, longer) == won);
                }
                picks = longer;
                if i + 1 < count {
                    assert(world.admits(sorted[i + 1]));
                }
            }
            i += 1;
        }
        proof {
            assert(picks.len() == proposals.len());
            lemma_commit_conserves(world, proposals, picks);
            assert forall|x: int, y: int|
                in_grid(world.cells, x, y) && !world.in_viewport(x, y) implies
                #[trigger] self@.cells[x][y] == world.cells[x][y] by {
                world.lemma_commit_rests(proposals, picks, x, y);
            }
        }
    }

    /// The movement pass: every cell of the viewport proposes its move,
    /// and of the moves to one destination one is drawn and carried out.
    /// Whatever the draws, the pass conserves what is on the grid, and a
    /// powder in the bottom row of the viewport rests.
    pub fn movement_pass(&mut self, rng: &mut XorShiftRng)
        requires
            old(self).wf(),
        ensures
            final(self).wf(),
            old(self)@.same_outside_viewport(final(self)@),
            census(final(self)@.cells) == census(old(self)@.cells),
            particles(final(self)@.cells) == particles(old(self)@.cells),
            forall|x: int|
                0 <= x < old(self)@.width && 0 < old(self)@.height && (#[trigger] old(self)@.at(
                    x,
                    old(self)@.height - 1,
                )).spec_kind() is Powder ==> final(self)@.at(x, old(self)@.height - 1) == old(
                    self,
                )@.at(x, old(self)@.height - 1),
            exists|draws: Seq<Seq<MoveDraws>>, picks: Seq<int>|
                covers(draws, old(self)@.width, old(self)@.height) && picks.len() == by_target(
                    old(self)@.proposals(draws),
                ).len() && final(self)@ == #[trigger] old(self)@.moved(draws, picks),
    {
        let ghost world = self@;
        self.collect_moves(rng);
        let ghost draws = choose|draws: Seq<Seq<MoveDraws>>|
            covers(draws, world.width, world.height) && self.pending()
                == #[trigger] world.proposals(draws);
        proof {
            world.lemma_proposals_admitted(draws);
        }
        let ghost proposals = self.pending();
        self.commit_moves(rng);
        proof {
            let picks = choose|picks: Seq<int>|
                picks.len() == proposals.len() && self@ == world.with_cells(
                    carried_out(world.cells, #[trigger] winners(by_target(proposals), picks)),
                );
            lemma_by_target(proposals);
            assert(self@ == world.moved(draws, picks));
            assert forall|x: int|
                0 <= x < world.width && 0 < world.height && (#[trigger] world.at(
                    x,
                    world.height - 1,
                )).spec_kind() is Powder implies self@.at(x, world.height - 1) == world.at(
                x,
                world.height - 1,
            ) by {
                world.lemma_bottom_row_powder_rests(draws, picks, x);
            }
        }
    }

    /// Tick: calculates the next iteration of the board in place. Every
    /// cell of the viewport first has its chance to decay, then to react
    /// with its neighbours, and then to move; the cells outside the
    /// viewport stay as they are. The world after the tick is the
    /// [`WorldView::tick_outcome`] of the world before it and of the draws
    /// that the random source answered.
    pub fn tick(&mut self, rng: &mut XorShiftRng)
        requires
            old(self).wf(),
        ensures
            final(self).wf(),
            old(self)@.same_outside_viewport(final(self)@),
            exists|draws: TickDraws|
                old(self)@.fits(draws) && final(self)@ == #[trigger] old(self)@.tick_outcome(draws),
    {
        let ghost world = self@;
        // First, the decay pass.
        self.decay_pass(rng);
        let ghost decay = choose|answers: Map<(int, int), bool>|
            self@ == #[trigger] world.decayed(answers);
        let ghost decayed = self@;
        // Then the transmutation pass, in place.
        self.transmute_pass(rng);
        let ghost reactions = choose|draws: Seq<Seq<ReactionDraws>>|
            covers(draws, decayed.width, decayed.height) && self@ == #[trigger] decayed.transmuted(
                draws,
            );
        let ghost transmuted = self@;
        // Then all moves are collected and carried out.
        self.movement_pass(rng);
        proof {
            let (moves, picks) = choose|moves: Seq<Seq<MoveDraws>>, picks: Seq<int>|
                covers(moves, transmuted.width, transmuted.height) && picks.len() == by_target(
                    transmuted.proposals(moves),
                ).len() && self@ == #[trigger] transmuted.moved(moves, picks);
            let draws = TickDraws { decay, reactions, moves, picks };
            assert(world.fits(draws));
            assert(self@ == world.tick_outcome(draws));
        }
    }
}

} // verus!
