//! The layout of the window around the board, the mapping from window to
//! board coordinates, and the cursors that place elements.

use crate::element::Element;
use crate::world::grid::rows;
use crate::world::GameWorld;
use vstd::prelude::*;
use vstd::string::StringExecFns;

verus! {

/// The width that the window keeps free for the panels beside the board.
pub const HORIZ_MARGIN: usize = 240;

/// The height that the window keeps free for the panels above and below
/// the board.
pub const VERT_MARGIN: usize = 80;

/// The largest width and height of a window, and the largest scaling factor.
pub const MAX_WINDOW_SIZE: usize = 16_777_216;

/// The largest size of a cursor.
pub const MAX_CURSOR_SIZE: u32 = 4096;

/// The shape under the pointer that is filled with the chosen element.
#[derive(Eq, PartialEq, Copy, Clone, Debug, Structural)]
pub enum CursorKind {
    /// A square with sides of the given length.
    Square { size: u32 },
    /// A circle of the given diameter.
    Circle { size: u32 },
    /// A pen that joins one position of the pointer to the next with a
    /// stroke of the given width.
    Pen { size: u32 },
}

/// The window, the board in it, the cursor, and the number of window
/// pixels per cell.
pub struct Ui {
    pub win_width: usize,
    pub win_height: usize,
    /// Board width in pixels.
    pub board_width: usize,
    /// Board height in pixels.
    pub board_height: usize,
    pub cursor: CursorKind,
    pub scaling_factor: usize,
}

/// The digit with the given value.
pub open spec fn digit(value: nat) -> char {
    ((48 + value) as u8) as char
}

/// The decimal digits of a number.
pub open spec fn decimal(number: nat) -> Seq<char>
    decreases number,
{
    if number < 10 {
        seq![digit(number)]
    } else {
        decimal(number / 10).push(digit(number % 10))
    }
}

/// Calls `to_string` of `u32`, which writes the number in decimal digits.
#[verifier::external_body]
fn decimal_string(number: u32) -> (text: String)
    ensures
        text@ == decimal(number as nat),
{
    number.to_string()
}

/// The quotient of `a` by a positive `b`, rounded towards zero.
pub open spec fn truncated(a: int, b: int) -> int {
    if a >= 0 {
        a / b
    } else {
        -((-a) / b)
    }
}

impl CursorKind {
    /// The size of the cursor: the side, the diameter or the stroke width.
    pub open spec fn spec_size(&self) -> u32 {
        match self {
            CursorKind::Square { size } => *size,
            CursorKind::Circle { size } => *size,
            CursorKind::Pen { size } => *size,
        }
    }

    /// The size of the cursor: the side, the diameter or the stroke width.
    #[verifier::when_used_as_spec(spec_size)]
    pub fn size(&self) -> (size: u32)
        ensures
            size == self.spec_size(),
    {
        match self {
            CursorKind::Square { size } => *size,
            CursorKind::Circle { size } => *size,
            CursorKind::Pen { size } => *size,
        }
    }

    /// A cursor is valid when it is no larger than [`MAX_CURSOR_SIZE`].
    pub open spec fn wf(&self) -> bool {
        self.spec_size() <= MAX_CURSOR_SIZE
    }

    /// Whether a cursor would pass [`CursorKind::wf`].
    pub fn is_valid(&self) -> (ok: bool)
        ensures
            ok == self.wf(),
    {
        self.size() <= MAX_CURSOR_SIZE
    }

    /// The cursors that the window offers.
    pub fn ui_cursors() -> (cursors: Vec<CursorKind>)
        ensures
            cursors@ == seq![
                (CursorKind::Square { size: 1 }),
                (CursorKind::Square { size: 2 }),
                (CursorKind::Square { size: 3 }),
                (CursorKind::Square { size: 5 }),
                (CursorKind::Square { size: 10 }),
                (CursorKind::Square { size: 15 }),
                (CursorKind::Square { size: 25 }),
                (CursorKind::Square { size: 50 }),
                (CursorKind::Circle { size: 5 }),
                (CursorKind::Circle { size: 10 }),
                (CursorKind::Circle { size: 15 }),
                (CursorKind::Circle { size: 25 }),
                (CursorKind::Circle { size: 50 }),
                (CursorKind::Pen { size: 1 }),
                (CursorKind::Pen { size: 2 }),
                (CursorKind::Pen { size: 3 }),
                (CursorKind::Pen { size: 5 }),
                (CursorKind::Pen { size: 10 }),
            ],
            forall|i: int| 0 <= i < cursors@.len() ==> (#[trigger] cursors@[i]).wf(),
    {
        vec![
            CursorKind::Square { size: 1 },
            CursorKind::Square { size: 2 },
            CursorKind::Square { size: 3 },
            CursorKind::Square { size: 5 },
            CursorKind::Square { size: 10 },
            CursorKind::Square { size: 15 },
            CursorKind::Square { size: 25 },
            CursorKind::Square { size: 50 },
            CursorKind::Circle { size: 5 },
            CursorKind::Circle { size: 10 },
            CursorKind::Circle { size: 15 },
            CursorKind::Circle { size: 25 },
            CursorKind::Circle { size: 50 },
            CursorKind::Pen { size: 1 },
            CursorKind::Pen { size: 2 },
            CursorKind::Pen { size: 3 },
            CursorKind::Pen { size: 5 },
            CursorKind::Pen { size: 10 },
        ]
    }

    /// The text to show on the button of this cursor: its size in decimal
    /// digits.
    pub fn button_text(&self) -> (text: String)
        ensures
            text@ == decimal(self.spec_size() as nat),
    {
        match self {
            CursorKind::Square { size } => decimal_string(*size),
            CursorKind::Circle { size } => decimal_string(*size),
            CursorKind::Pen { size, .. } => decimal_string(*size),
        }
    }

    /// The text of the tooltip of this cursor.
    pub open spec fn tooltip(&self) -> Seq<char> {
        match self {
            CursorKind::Square { size } => if *size == 1 {
                "A single pixel"@
            } else {
                "A "@ + decimal(*size as nat) + "x"@ + decimal(*size as nat) + " square"@
            },
            CursorKind::Circle { size } => "A circle with diameter "@ + decimal(*size as nat),
            CursorKind::Pen { size } => "Continuous pen with a stroke of "@ + decimal(*size as nat)
                + " pixels"@,
        }
    }

    /// The text to show in the tooltip of this cursor.
    pub fn tooltip_text(&self) -> (text: String)
        ensures
            text@ == self.tooltip(),
    {
        match self {
            CursorKind::Square { size } => {
                if *size == 1 {
                    String::from_str("A single pixel")
                } else {
                    let digits = decimal_string(*size);
                    let mut text = String::from_str("A ");
                    text.append(digits.as_str());
                    text.append("x");
                    text.append(digits.as_str());
                    text.append(" square");
                    text
                }
            },
            CursorKind::Circle { size } => {
                let digits = decimal_string(*size);
                let mut text = String::from_str("A circle with diameter ");
                text.append(digits.as_str());
                text
            },
            CursorKind::Pen { size, .. } => {
                let digits = decimal_string(*size);
                let mut text = String::from_str("Continuous pen with a stroke of ");
                text.append(digits.as_str());
                text.append(" pixels");
                text
            },
        }
    }

    /// The name of the group under which the window shows this cursor.
    pub open spec fn category(&self) -> Seq<char> {
        match self {
            CursorKind::Square { .. } => "Square"@,
            CursorKind::Circle { .. } => "Circle"@,
            CursorKind::Pen { .. } => "Pen"@,
        }
    }

    /// The category text to show in the window for this cursor.
    pub fn category_text(&self) -> (text: &'static str)
        ensures
            text@ == self.category(),
    {
        match self {
            CursorKind::Square { .. } => "Square",
            CursorKind::Circle { .. } => "Circle",
            CursorKind::Pen { .. } => "Pen",
        }
    }
}

impl Ui {
    /// The board fits in the window, the window is no larger than
    /// [`MAX_WINDOW_SIZE`], a cell is at least one pixel wide and the
    /// cursor is valid.
    pub open spec fn wf(&self) -> bool {
        &&& self.board_width <= self.win_width <= MAX_WINDOW_SIZE
        &&& self.board_height <= self.win_height <= MAX_WINDOW_SIZE
        &&& 1 <= self.scaling_factor <= MAX_WINDOW_SIZE
        &&& self.cursor.wf()
    }

    /// Whether the layout would pass [`Ui::wf`].
    pub fn is_valid(&self) -> (ok: bool)
        ensures
            ok == self.wf(),
    {
        self.board_width <= self.win_width && self.win_width <= MAX_WINDOW_SIZE
            && self.board_height <= self.win_height && self.win_height <= MAX_WINDOW_SIZE && 1
            <= self.scaling_factor && self.scaling_factor <= MAX_WINDOW_SIZE
            && self.cursor.is_valid()
    }

    /// The space between the left window border and the board.
    pub open spec fn spec_left_padding(&self) -> int {
        (self.win_width - self.board_width) / 2
    }

    /// The space between the top window border and the board.
    pub open spec fn spec_top_padding(&self) -> int {
        (self.win_height - self.board_height) / 2
    }

    /// The space between the right window border and the board: what the
    /// left padding and the board leave, and the remainder of that by the
    /// scaling factor once more.
    pub open spec fn spec_right_padding(&self) -> int {
        let rest = self.win_width - self.spec_left_padding() - self.board_width;
        rest + rest % (self.scaling_factor as int)
    }

    /// The space between the bottom window border and the board.
    pub open spec fn spec_bottom_padding(&self) -> int {
        let rest = self.win_height - self.spec_top_padding() - self.board_height;
        rest + rest % (self.scaling_factor as int)
    }

    /// The board coordinate of a window position: the distance from the
    /// board's corner, divided by the scaling factor and rounded towards
    /// zero; none where that is negative or the cell begins beyond the board.
    pub open spec fn board_coordinate(&self, window_x: int, window_y: int) -> Option<(i32, i32)> {
        let x = truncated(window_x - self.spec_left_padding(), self.scaling_factor as int);
        let y = truncated(window_y - self.spec_top_padding(), self.scaling_factor as int);
        if x < 0 || y < 0 || x * self.scaling_factor >= self.board_width || y * self.scaling_factor
            >= self.board_height {
            None
        } else {
            Some((x as i32, y as i32))
        }
    }

    /// The height of the bar above the board, without the border.
    pub fn top_buttonbar_height(&self) -> (height: i32)
        requires
            self.wf(),
        ensures
            height == self.spec_top_padding() - 2,
    {
        self.top_padding() - 2
    }

    /// The width of the bar to the right of the board, without the border.
    pub fn right_buttonbar_width(&self) -> (width: i32)
        requires
            self.wf(),
        ensures
            width == self.spec_right_padding() - 2,
    {
        self.right_padding() - 2
    }

    /// The width of the bar to the left of the board, without the border.
    pub fn left_buttonbar_width(&self) -> (width: i32)
        requires
            self.wf(),
        ensures
            width == self.spec_left_padding() - 2,
    {
        self.left_padding() - 2
    }

    /// The height of the status bar below the board, without the border.
    pub fn bottom_statusbar_height(&self) -> (height: i32)
        requires
            self.wf(),
        ensures
            height == self.spec_bottom_padding() - 2,
    {
        self.bottom_padding() - 2
    }

    /// Chooses the cursor.
    pub fn set_cursor(&mut self, cursor: CursorKind)
        requires
            old(self).wf(),
            cursor.wf(),
        ensures
            *final(self) == (Ui { cursor, ..*old(self) }),
            final(self).wf(),
    {
        self.cursor = cursor
    }

    /// The cursor.
    pub fn cursor(&self) -> (cursor: &CursorKind)
        ensures
            *cursor == self.cursor,
    {
        &self.cursor
    }

    /// One coordinate of a window position on the board; none where it is
    /// negative or the cell begins beyond the board's extent.
    fn axis_coordinate(position: i32, padding: i32, scaling_factor: usize, extent: usize) -> (cell:
        Option<i32>)
        requires
            0 <= padding <= MAX_WINDOW_SIZE,
            1 <= scaling_factor <= MAX_WINDOW_SIZE,
            extent <= MAX_WINDOW_SIZE,
        ensures
            ({
                let at = truncated(position - padding, scaling_factor as int);
                cell == if at < 0 || at * scaling_factor >= extent {
                    None
                } else {
                    Some(at as i32)
                }
            }),
            cell matches Some(at) ==> 0 <= at < extent && at < MAX_WINDOW_SIZE,
    {
        let distance: i64 = position as i64 - padding as i64;
        let scale: i64 = scaling_factor as i64;
        if distance < 0 {
            let back: i64 = (-distance) / scale;
            proof {
                let gone = -(distance as int);
                let step = scale as int;
                assert(back == gone / step);
                assert(truncated(position - padding, scaling_factor as int) == -back);
                assert(gone / step >= 0) by (nonlinear_arith)
                    requires
                        step > 0,
                        gone >= 0,
                ;
            }
            if back > 0 {
                None
            } else if 0 >= extent {
                None
            } else {
                Some(0)
            }
        } else {
            let at: i64 = distance / scale;
            proof {
                let gone = distance as int;
                let step = scale as int;
                assert(at == gone / step);
                assert(0 <= gone / step && (gone / step) * step <= gone && gone / step <= gone)
                    by (nonlinear_arith)
                    requires
                        step > 0,
                        gone >= 0,
                ;
            }
            if at * scale >= extent as i64 {
                None
            } else {
                proof {
                    assert(at <= at * scale) by (nonlinear_arith)
                        requires
                            at >= 0,
                            scale >= 1,
                    ;
                }
                Some(at as i32)
            }
        }
    }

    /// The board coordinate of a window position, if it lies on the board.
    pub fn window_to_board_coordinate(&self, window_x: i32, window_y: i32) -> (coordinate: Option<
        (i32, i32),
    >)
        requires
            self.wf(),
        ensures
            coordinate == self.board_coordinate(window_x as int, window_y as int),
            coordinate matches Some(cell) ==> 0 <= cell.0 < self.board_width && 0 <= cell.1
                < self.board_height,
    {
        let x = Self::axis_coordinate(
            window_x,
            self.left_padding(),
            self.scaling_factor,
            self.board_width,
        );
        let y = Self::axis_coordinate(
            window_y,
            self.top_padding(),
            self.scaling_factor,
            self.board_height,
        );
        match (x, y) {
            (Some(x), Some(y)) => Some((x, y)),
            _ => None,
        }
    }

    /// The space between the left window border and the board, including
    /// the border.
    pub fn left_padding(&self) -> (padding: i32)
        requires
            self.wf(),
        ensures
            padding == self.spec_left_padding(),
            0 <= padding <= MAX_WINDOW_SIZE,
    {
        ((self.win_width - self.board_width) / 2) as i32
    }

    /// The space between the right window border and the board, including
    /// the border.
    pub fn right_padding(&self) -> (padding: i32)
        requires
            self.wf(),
        ensures
            padding == self.spec_right_padding(),
            0 <= padding <= 2 * MAX_WINDOW_SIZE,
    {
        let rest: usize = self.win_width - (self.win_width - self.board_width) / 2
            - self.board_width;
        (rest + rest % self.scaling_factor) as i32
    }

    /// The space between the top window border and the board, including
    /// the border.
    pub fn top_padding(&self) -> (padding: i32)
        requires
            self.wf(),
        ensures
            padding == self.spec_top_padding(),
            0 <= padding <= MAX_WINDOW_SIZE,
    {
        ((self.win_height - self.board_height) / 2) as i32
    }

    /// The space between the bottom window border and the board, including
    /// the border.
    pub fn bottom_padding(&self) -> (padding: i32)
        requires
            self.wf(),
        ensures
            padding == self.spec_bottom_padding(),
            0 <= padding <= 2 * MAX_WINDOW_SIZE,
    {
        let rest: usize = self.win_height - (self.win_height - self.board_height) / 2
            - self.board_height;
        (rest + rest % self.scaling_factor) as i32
    }

    /// The layout of a window of the given size: the board takes what the
    /// margins leave, and the cursor is a square of three cells.
    pub fn new(width: usize, height: usize, scaling_factor: usize) -> (ui: Self)
        requires
            HORIZ_MARGIN <= width <= MAX_WINDOW_SIZE,
            VERT_MARGIN <= height <= MAX_WINDOW_SIZE,
            1 <= scaling_factor <= MAX_WINDOW_SIZE,
        ensures
            ui == (Ui {
                win_width: width,
                win_height: height,
                board_width: (width - HORIZ_MARGIN) as usize,
                board_height: (height - VERT_MARGIN) as usize,
                cursor: CursorKind::Square { size: 3 },
                scaling_factor,
            }),
            ui.wf(),
    {
        Self {
            win_width: width,
            win_height: height,
            board_width: width - HORIZ_MARGIN,
            board_height: height - VERT_MARGIN,
            cursor: CursorKind::Square { size: 3 },
            scaling_factor,
        }
    }

    /// The largest multiple of the scaling factor that the margin leaves of
    /// a window extent.
    pub open spec fn fitted(extent: int, margin: int, scaling_factor: int) -> int {
        (extent - margin) - (extent - margin) % scaling_factor
    }

    /// What is fitted lies between nothing and what the margin leaves.
    pub proof fn lemma_fitted(extent: int, margin: int, scaling_factor: int)
        requires
            margin <= extent,
            1 <= scaling_factor,
        ensures
            0 <= (extent - margin) % scaling_factor <= extent - margin,
            0 <= Self::fitted(extent, margin, scaling_factor) <= extent - margin,
    {
        assert(0 <= (extent - margin) % scaling_factor <= extent - margin) by (nonlinear_arith)
            requires
                0 <= extent - margin,
                1 <= scaling_factor,
        ;
    }

    /// The layout and the world for a window of a new size. The board
    /// takes what the margins leave, cut down to whole cells, and the
    /// world's viewport is resized to the cells of the board.
    pub fn resize(self, board: GameWorld, new_width: usize, new_height: usize) -> (resized: (
        Self,
        GameWorld,
    ))
        requires
            self.wf(),
            board.wf(),
            HORIZ_MARGIN <= new_width <= MAX_WINDOW_SIZE,
            VERT_MARGIN <= new_height <= MAX_WINDOW_SIZE,
        ensures
            resized.0 == (Ui {
                win_width: new_width,
                win_height: new_height,
                board_width: Self::fitted(
                    new_width as int,
                    HORIZ_MARGIN as int,
                    self.scaling_factor as int,
                ) as usize,
                board_height: Self::fitted(
                    new_height as int,
                    VERT_MARGIN as int,
                    self.scaling_factor as int,
                ) as usize,
                cursor: self.cursor,
                scaling_factor: self.scaling_factor,
            }),
            resized.0.wf(),
            resized.1.wf(),
            resized.1@.width == resized.0.board_width / self.scaling_factor,
            resized.1@.height == resized.0.board_height / self.scaling_factor,
            resized.1@.cells == crate::world::grown(
                board@.cells,
                if resized.1@.width >= crate::world::MIN_BOARD_SIZE {
                    resized.1@.width
                } else {
                    crate::world::MIN_BOARD_SIZE as nat
                },
                if resized.1@.height >= crate::world::MIN_BOARD_SIZE {
                    resized.1@.height
                } else {
                    crate::world::MIN_BOARD_SIZE as nat
                },
            ),
    {
        let mut ret = Self {
            win_width: new_width,
            win_height: new_height,
            board_width: new_width - HORIZ_MARGIN,
            board_height: new_height - VERT_MARGIN,
            cursor: self.cursor,
            scaling_factor: self.scaling_factor,
        };
        proof {
            Self::lemma_fitted(new_width as int, HORIZ_MARGIN as int, self.scaling_factor as int);
            Self::lemma_fitted(new_height as int, VERT_MARGIN as int, self.scaling_factor as int);
        }
        ret.board_width = ret.board_width - (ret.board_width % ret.scaling_factor);
        ret.board_height = ret.board_height - (ret.board_height % ret.scaling_factor);
        let resized_board = board.resize(
            ret.board_width / ret.scaling_factor,
            ret.board_height / ret.scaling_factor,
        );
        (ret, resized_board)
    }

    /// The layout and the world for another scaling factor: the window
    /// keeps its size, and the board and the viewport are fitted anew.
    pub fn rescale(self, board: GameWorld, scaling_factor: usize) -> (rescaled: (Self, GameWorld))
        requires
            self.wf(),
            board.wf(),
            HORIZ_MARGIN <= self.win_width,
            VERT_MARGIN <= self.win_height,
            1 <= scaling_factor <= MAX_WINDOW_SIZE,
        ensures
            rescaled.0.scaling_factor == scaling_factor,
            rescaled.0.win_width == self.win_width,
            rescaled.0.win_height == self.win_height,
            rescaled.0.cursor == self.cursor,
            rescaled.0.board_width == Self::fitted(
                self.win_width as int,
                HORIZ_MARGIN as int,
                scaling_factor as int,
            ),
            rescaled.0.board_height == Self::fitted(
                self.win_height as int,
                VERT_MARGIN as int,
                scaling_factor as int,
            ),
            rescaled.0.wf(),
            rescaled.1.wf(),
            rescaled.1@.width == rescaled.0.board_width / scaling_factor,
            rescaled.1@.height == rescaled.0.board_height / scaling_factor,
    {
        let width: usize = self.win_width;
        let height: usize = self.win_height;
        proof {
            Self::lemma_fitted(width as int, HORIZ_MARGIN as int, scaling_factor as int);
            Self::lemma_fitted(height as int, VERT_MARGIN as int, scaling_factor as int);
        }
        let scaled = Self {
            win_width: self.win_width,
            win_height: self.win_height,
            board_width: self.board_width,
            board_height: self.board_height,
            cursor: self.cursor,
            scaling_factor,
        };
        scaled.resize(board, width, height)
    }
}

impl Ui {
    /// The byte at the given index of the picture of the board. The
    /// picture has four bytes for every pixel of the board, row by row; a
    /// pixel shows the cell it lies in, and the pixels beyond the last
    /// whole cell stay zero.
    pub open spec fn picture_byte(&self, cells: Seq<Seq<Element>>, index: int) -> u8 {
        let scale = self.scaling_factor as int;
        let pixel = index / 4;
        let x = pixel % (self.board_width as int);
        let y = pixel / (self.board_width as int);
        if x / scale < self.board_width / self.scaling_factor && y / scale < self.board_height
            / self.scaling_factor {
            let tint = cells[x / scale][y / scale].tint();
            let part = index % 4;
            if part == 0 {
                tint.2
            } else if part == 1 {
                tint.1
            } else if part == 2 {
                tint.0
            } else {
                0xffu8
            }
        } else {
            0u8
        }
    }

    /// The picture of the board can be made: the world holds every cell
    /// that the board shows, and the picture's bytes can be counted.
    pub open spec fn can_show(&self, world: &GameWorld) -> bool {
        &&& self.wf()
        &&& world.wf()
        &&& self.board_width / self.scaling_factor <= world@.cells.len()
        &&& self.board_height / self.scaling_factor <= rows(world@.cells)
        &&& self.board_width * self.board_height * 4 <= usize::MAX
    }

    /// Whether the picture of the board can be made of this world.
    pub fn shows(&self, world: &GameWorld) -> (ok: bool)
        requires
            world.wf(),
        ensures
            ok == self.can_show(world),
    {
        if !self.is_valid() {
            return false;
        }
        if self.board_width / self.scaling_factor > world.board_width() || self.board_height
            / self.scaling_factor > world.board_height() {
            return false;
        }
        // Both extents are at most 2^24, so their product fits 64 bits.
        let width: u64 = self.board_width as u64;
        let height: u64 = self.board_height as u64;
        assert(0 <= width * height <= 16_777_216 * 16_777_216) by (nonlinear_arith)
            requires
                0 <= width <= 16_777_216,
                0 <= height <= 16_777_216,
        ;
        assert(self.board_width * self.board_height * 4 == (width * height) * 4)
            by (nonlinear_arith)
            requires
                width == self.board_width,
                height == self.board_height,
        ;
        let bytes: u64 = width * height * 4;
        bytes <= usize::MAX as u64
    }

    /// The picture of the board: for every pixel its blue, green and red
    /// part and its opacity, row by row from the top.
    pub fn board_pixels(&self, world: &GameWorld) -> (picture: Vec<u8>)
        requires
            self.can_show(world),
        ensures
            picture@.len() == self.board_width * self.board_height * 4,
            forall|i: int|
                0 <= i < picture@.len() ==> #[trigger] picture@[i] == self.picture_byte(
                    world@.cells,
                    i,
                ),
    {
        let width: usize = self.board_width;
        let height: usize = self.board_height;
        let scale: usize = self.scaling_factor;
        let columns: usize = width / scale;
        let lines: usize = height / scale;
        let mut picture: Vec<u8> = Vec::new();
        let mut y: usize = 0;
        proof {
            assert(width * height * 4 == (width * height) * 4) by (nonlinear_arith);
        }
        while y < height
            invariant
                y <= height,
                self.can_show(world),
                width == self.board_width,
                height == self.board_height,
                scale == self.scaling_factor,
                columns == width / scale,
                lines == height / scale,
                picture@.len() == y * width * 4,
                forall|i: int|
                    0 <= i < picture@.len() ==> #[trigger] picture@[i] == self.picture_byte(
                        world@.cells,
                        i,
                    ),
            decreases height - y,
        {
            let mut x: usize = 0;
            while x < width
                invariant
                    x <= width,
                    y < height,
                    self.can_show(world),
                    width == self.board_width,
                    height == self.board_height,
                    scale == self.scaling_factor,
                    columns == width / scale,
                    lines == height / scale,
                    picture@.len() == (y * width + x) * 4,
                    forall|i: int|
                        0 <= i < picture@.len() ==> #[trigger] picture@[i] == self.picture_byte(
                            world@.cells,
                            i,
                        ),
                decreases width - x,
            {
                let ghost start = picture@.len() as int;
                let ghost pixel = y * width + x;
                proof {
                    assert(pixel % (width as int) == x && pixel / (width as int) == y)
                        by (nonlinear_arith)
                        requires
                            pixel == y * width + x,
                            0 <= x < width,
                            0 <= y,
                    ;
                    assert forall|part: int| 0 <= part < 4 implies (#[trigger] (start + part)) / 4
                        == pixel && (start + part) % 4 == part by {
                        assert((pixel * 4 + part) / 4 == pixel && (pixel * 4 + part) % 4 == part)
                            by (nonlinear_arith)
                            requires
                                0 <= part < 4,
                                0 <= pixel,
                        ;
                    }
                }
                let cell_x: usize = x / scale;
                let cell_y: usize = y / scale;
                if cell_x < columns && cell_y < lines {
                    proof {
                        assert(world@.cells[cell_x as int].len() == rows(world@.cells));
                    }
                    let color = world.element_at(cell_x, cell_y).color();
                    picture.push(color.b());
                    picture.push(color.g());
                    picture.push(color.r());
                    picture.push(0xff);
                } else {
                    picture.push(0);
                    picture.push(0);
                    picture.push(0);
                    picture.push(0);
                }
                proof {
                    assert forall|i: int| 0 <= i < picture@.len() implies #[trigger] picture@[i]
                        == self.picture_byte(world@.cells, i) by {
                        if i >= start {
                            let part = i - start;
                            assert(i == start + part);
                            assert((start + part) / 4 == pixel && (start + part) % 4 == part);
                        }
                    }
                    assert((y * width + (x + 1)) * 4 == (y * width + x) * 4 + 4)
                        by (nonlinear_arith);
                }
                x += 1;
            }
            proof {
                assert(((y + 1) * width) * 4 == (y * width + width) * 4) by (nonlinear_arith);
                assert((y + 1) * width * 4 == ((y + 1) * width) * 4) by (nonlinear_arith);
                assert(y * width * 4 == (y * width) * 4) by (nonlinear_arith);
            }
            y += 1;
        }
        proof {
            assert(height * width * 4 == width * height * 4) by (nonlinear_arith);
        }
        picture
    }

    /// The window position of the middle of the cell under the given
    /// window position, if that lies on the board: around it the preview of
    /// the cursor is drawn.
    pub fn preview_center(&self, window_x: i32, window_y: i32) -> (center: Option<(i32, i32)>)
        requires
            self.wf(),
        ensures
            center == match self.board_coordinate(window_x as int, window_y as int) {
                Some(cell) => Some(
                    (
                        (cell.0 * self.scaling_factor + self.spec_left_padding()
                            + self.scaling_factor / 2) as i32,
                        (cell.1 * self.scaling_factor + self.spec_top_padding()
                            + self.scaling_factor / 2) as i32,
                    ),
                ),
                None => None,
            },
    {
        match self.window_to_board_coordinate(window_x, window_y) {
            Some((x, y)) => {
                let scale: i64 = self.scaling_factor as i64;
                proof {
                    assert(0 <= x * scale <= self.board_width && 0 <= y * scale
                        <= self.board_height) by (nonlinear_arith)
                        requires
                            0 <= x,
                            0 <= y,
                            scale >= 1,
                            x * scale < self.board_width,
                            y * scale < self.board_height,
                    ;
                }
                let draw_x: i64 = x as i64 * scale + self.left_padding() as i64 + scale / 2;
                let draw_y: i64 = y as i64 * scale + self.top_padding() as i64 + scale / 2;
                Some((draw_x as i32, draw_y as i32))
            },
            None => None,
        }
    }

    /// The size of the preview of the cursor in window pixels: the size of
    /// the cursor times the scaling factor, or the largest 32-bit number
    /// where that is larger.
    pub fn preview_extent(&self) -> (extent: u32)
        requires
            self.wf(),
        ensures
            extent == if self.cursor.spec_size() * self.scaling_factor <= u32::MAX {
                (self.cursor.spec_size() * self.scaling_factor) as u32
            } else {
                u32::MAX
            },
    {
        let size: u64 = self.cursor.size() as u64;
        let scale: u64 = self.scaling_factor as u64;
        proof {
            assert(0 <= size * scale <= 4096 * 16_777_216) by (nonlinear_arith)
                requires
                    0 <= size <= 4096,
                    0 <= scale <= 16_777_216,
            ;
        }
        let extent: u64 = size * scale;
        if extent <= 0xffff_ffff {
            extent as u32
        } else {
            0xffff_ffff
        }
    }

    /// Whether a window position lies strictly inside the frame that the
    /// paddings leave: only there the preview of the cursor is drawn.
    pub fn inside_frame(&self, x: i32, y: i32) -> (inside: bool)
        requires
            self.wf(),
        ensures
            inside == (self.spec_left_padding() < x < self.win_width - self.spec_right_padding()
                && self.spec_top_padding() < y < self.win_height - self.spec_bottom_padding()),
    {
        let left: i64 = self.left_padding() as i64;
        let right: i64 = self.win_width as i64 - self.right_padding() as i64;
        let top: i64 = self.top_padding() as i64;
        let bottom: i64 = self.win_height as i64 - self.bottom_padding() as i64;
        (x as i64) > left && (x as i64) < right && (y as i64) > top && (y as i64) < bottom
    }
}

} // verus!
