//! The cells that a cursor covers. The shapes are rasterised by an outside
//! graphics library; what it returns for a circle and for a stroke is taken
//! as it comes and only given a name.

use embedded_graphics::geometry::{Point, Size};
use embedded_graphics::pixelcolor::BinaryColor;
use embedded_graphics::primitives::{Circle, Line, Primitive, PrimitiveStyle, Rectangle};
use embedded_graphics::Pixel;
use vstd::prelude::*;

verus! {

/// The largest distance from the origin at which a cursor can be placed.
pub const MAX_COORDINATE: i32 = 16_777_216;

/// The largest size of a shape.
pub const MAX_SHAPE_SIZE: u32 = 4096;

/// The position is within [`MAX_COORDINATE`] of the origin on both axes.
pub open spec fn reachable(x: i32, y: i32) -> bool {
    -MAX_COORDINATE <= x <= MAX_COORDINATE && -MAX_COORDINATE <= y <= MAX_COORDINATE
}

/// The cell `(x, y)` lies in the square of the given size around
/// `(center_x, center_y)`: the square begins `(size - 1) / 2` cells before
/// the centre on both axes.
pub open spec fn in_square(center_x: int, center_y: int, size: int, x: int, y: int) -> bool {
    let reach = (size - 1) / 2;
    &&& size > 0
    &&& center_x - reach <= x < center_x - reach + size
    &&& center_y - reach <= y < center_y - reach + size
}

/// The cells of the filled circle of the given diameter around a centre, as
/// the graphics library lists them.
pub uninterp spec fn circle_cells(center_x: i32, center_y: i32, diameter: u32) -> Seq<(i32, i32)>;

/// The cells of the stroke of the given width from one point to another, as
/// the graphics library lists them.
pub uninterp spec fn stroke_cells(
    from_x: i32,
    from_y: i32,
    to_x: i32,
    to_y: i32,
    width: u32,
) -> Seq<(i32, i32)>;

/// The cell `(x, y)` is one of the listed cells.
pub open spec fn lists_cell(cells: Seq<(i32, i32)>, x: int, y: int) -> bool {
    exists|i: int| 0 <= i < cells.len() && (#[trigger] cells[i]).0 == x && cells[i].1 == y
}

/// The squared length of the stroke, times the square of twice its width
/// and a margin, stays below the largest 32-bit number: the graphics
/// library computes with such products.
pub open spec fn stroke_fits(from_x: i32, from_y: i32, to_x: i32, to_y: i32, width: u32) -> bool {
    4 * (width + 2) * (width + 2) * ((to_x - from_x) * (to_x - from_x) + (to_y - from_y) * (to_y
        - from_y)) <= i32::MAX
}

/// Lists the cells of `Rectangle::with_center` of the given size, filled,
/// through `pixels()` of the styled shape. The rectangle's top left corner
/// lies `(size - 1) / 2` cells before the centre on both axes, and the
/// iterator yields every point of the rectangle.
#[verifier::external_body]
pub(crate) fn square_points(center_x: i32, center_y: i32, size: u32) -> (cells: Vec<(i32, i32)>)
    requires
        reachable(center_x, center_y),
        size <= MAX_SHAPE_SIZE,
    ensures
        forall|x: int, y: int|
            #[trigger] lists_cell(cells@, x, y) <==> in_square(
                center_x as int,
                center_y as int,
                size as int,
                x,
                y,
            ),
{
    Rectangle::with_center(Point::new(center_x, center_y), Size::new(size, size))
        .into_styled(PrimitiveStyle::with_fill(BinaryColor::On))
        .pixels()
        .map(|Pixel(point, _)| (point.x, point.y))
        .collect()
}

/// Lists the cells of `Circle::with_center` of the given diameter, filled,
/// through `pixels()` of the styled shape. The result depends on the
/// arguments alone and is named, not described.
#[verifier::external_body]
pub(crate) fn circle_points(center_x: i32, center_y: i32, diameter: u32) -> (cells: Vec<(i32, i32)>)
    requires
        reachable(center_x, center_y),
        diameter <= MAX_SHAPE_SIZE,
    ensures
        cells@ == circle_cells(center_x, center_y, diameter),
{
    Circle::with_center(Point::new(center_x, center_y), diameter)
        .into_styled(PrimitiveStyle::with_fill(BinaryColor::On))
        .pixels()
        .map(|Pixel(point, _)| (point.x, point.y))
        .collect()
}

/// Lists the cells of `Line::new` from one point to the other, stroked with
/// the given width, through `pixels()` of the styled shape. The result
/// depends on the arguments alone and is named, not described.
#[verifier::external_body]
pub(crate) fn stroke_points(from_x: i32, from_y: i32, to_x: i32, to_y: i32, width: u32) -> (cells:
    Vec<(i32, i32)>)
    requires
        reachable(from_x, from_y),
        reachable(to_x, to_y),
        width <= MAX_SHAPE_SIZE,
        stroke_fits(from_x, from_y, to_x, to_y, width),
    ensures
        cells@ == stroke_cells(from_x, from_y, to_x, to_y, width),
{
    Line::new(Point::new(from_x, from_y), Point::new(to_x, to_y))
        .into_styled(PrimitiveStyle::with_stroke(BinaryColor::On, width))
        .pixels()
        .map(|Pixel(point, _)| (point.x, point.y))
        .collect()
}

/// Whether a stroke is short and thin enough for the graphics library.
pub fn stroke_is_drawable(from_x: i32, from_y: i32, to_x: i32, to_y: i32, width: u32) -> (fits:
    bool)
    requires
        reachable(from_x, from_y),
        reachable(to_x, to_y),
        width <= MAX_SHAPE_SIZE,
    ensures
        fits == stroke_fits(from_x, from_y, to_x, to_y, width),
{
    let dx: i64 = to_x as i64 - from_x as i64;
    let dy: i64 = to_y as i64 - from_y as i64;
    assert(-33_554_432 <= dx <= 33_554_432 && -33_554_432 <= dy <= 33_554_432);
    assert(0 <= dx * dx <= 1_125_899_906_842_624 && 0 <= dy * dy <= 1_125_899_906_842_624)
        by (nonlinear_arith)
        requires
            -33_554_432 <= dx <= 33_554_432,
            -33_554_432 <= dy <= 33_554_432,
    ;
    let length: i64 = dx * dx + dy * dy;
    let thickness: i64 = width as i64 + 2;
    assert(4 <= 4 * thickness * thickness <= 67_240_000) by (nonlinear_arith)
        requires
            2 <= thickness <= 4098,
    ;
    let factor: i64 = 4 * thickness * thickness;
    if length > 0x7fff_ffff {
        assert(factor * length > 0x7fff_ffff) by (nonlinear_arith)
            requires
                factor >= 4,
                length > 0x7fff_ffff,
        ;
        false
    } else {
        assert(0 <= factor * length <= 67_240_000 * 0x7fff_ffff) by (nonlinear_arith)
            requires
                0 <= factor <= 67_240_000,
                0 <= length <= 0x7fff_ffff,
        ;
        factor * length <= 0x7fff_ffff
    }
}

} // verus!
