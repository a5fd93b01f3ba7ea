//! The colours in which the board and its elements are shown.

use crate::element::Element;
use vstd::prelude::*;

verus! {

/// A colour with eight bits for each of red, green, blue and opacity.
#[derive(Copy, Clone, Eq, PartialEq, Debug, Structural)]
pub struct Rgba8888Color {
    r: u8,
    g: u8,
    b: u8,
    a: u8,
}

impl View for Rgba8888Color {
    type V = (u8, u8, u8, u8);

    closed spec fn view(&self) -> (u8, u8, u8, u8) {
        (self.r, self.g, self.b, self.a)
    }
}

impl Rgba8888Color {
    /// The colour with the given parts.
    pub fn new(r: u8, g: u8, b: u8, a: u8) -> (color: Self)
        ensures
            color@ == (r, g, b, a),
    {
        Rgba8888Color { r, g, b, a }
    }

    /// The opaque colour with the given parts.
    pub fn rgb(r: u8, g: u8, b: u8) -> (color: Self)
        ensures
            color@ == (r, g, b, 0xffu8),
    {
        Rgba8888Color { r, g, b, a: 0xff }
    }

    /// The red part.
    pub fn r(&self) -> (part: u8)
        ensures
            part == self@.0,
    {
        self.r
    }

    /// The green part.
    pub fn g(&self) -> (part: u8)
        ensures
            part == self@.1,
    {
        self.g
    }

    /// The blue part.
    pub fn b(&self) -> (part: u8)
        ensures
            part == self@.2,
    {
        self.b
    }

    /// The opacity.
    pub fn a(&self) -> (part: u8)
        ensures
            part == self@.3,
    {
        self.a
    }
}

/// The colour of the border around the board.
pub fn board_border_color() -> (color: Rgba8888Color)
    ensures
        color@ == (255u8, 255u8, 255u8, 255u8),
{
    Rgba8888Color::rgb(255, 255, 255)
}

/// The colour of the empty board.
pub fn board_background_color() -> (color: Rgba8888Color)
    ensures
        color@ == (20u8, 0u8, 60u8, 255u8),
{
    Rgba8888Color::rgb(20, 0, 60)
}

/// The colour of the preview of the cursor.
pub fn cursor_preview_color() -> (color: Rgba8888Color)
    ensures
        color@ == (0xffu8, 0xffu8, 0xffu8, 0x30u8),
{
    Rgba8888Color::new(0xff, 0xff, 0xff, 0x30)
}

impl Element {
    /// The red, green and blue parts of the element's colour.
    pub open spec fn tint(&self) -> (u8, u8, u8) {
        match self {
            Element::Empty => (20, 0, 60),
            Element::BrickWall => (0x8c, 0x3d, 0x20),
            Element::Wood => (0x8b, 0x5a, 0x2b),
            Element::Sand => (0xda, 0xca, 0xb3),
            Element::Salt => (0xd7, 0xd7, 0xd9),
            Element::Dust => (0xd8, 0xe4, 0xea),
            Element::WetDust => (0xc8, 0xd4, 0xfa),
            Element::Ash => (0x9a, 0x9a, 0x9a),
            Element::ColdLava => (0x3a, 0x30, 0x30),
            Element::Water => (0x05, 0xaf, 0xf2),
            Element::SaltWater => (0x04, 0x9f, 0xc0),
            Element::Gasoline => (0x92, 0x19, 0x09),
            Element::Lava => (0xe2, 0x4a, 0x0f),
            Element::WaterSource => (0x9c, 0xad, 0xbc),
            Element::GasolineSource => (0x82, 0x15, 0x06),
            Element::FireSource => (0xd6, 0x9f, 0x7e),
            Element::Volcano => (0x5a, 0x1a, 0x0a),
            Element::Sink => (0x10, 0x10, 0x10),
            Element::Steam => (0xee, 0xee, 0xff),
            Element::Hydrogen => (0x30, 0x00, 0x80),
            Element::Methane => (0x66, 0x33, 0x99),
            Element::HydrogenBurner => (0x50, 0x30, 0xa0),
            Element::MethaneBurner => (0x7a, 0x50, 0xb0),
            Element::Flame => (0xf2, 0x92, 0x1d),
            Element::BurningParticle { .. } => (0xd9, 0x67, 0x04),
        }
    }

    /// The colour in which the element is shown; every element is opaque.
    pub fn color(&self) -> (color: Rgba8888Color)
        ensures
            color@ == (self.tint().0, self.tint().1, self.tint().2, 0xffu8),
    {
        match self {
            Element::Empty => board_background_color(),
            Element::BrickWall => Rgba8888Color::rgb(0x8c, 0x3d, 0x20),
            Element::Wood => Rgba8888Color::rgb(0x8b, 0x5a, 0x2b),
            Element::Sand => Rgba8888Color::rgb(0xda, 0xca, 0xb3),
            Element::Salt => Rgba8888Color::rgb(0xd7, 0xd7, 0xd9),
            Element::Dust => Rgba8888Color::rgb(0xd8, 0xe4, 0xea),
            Element::WetDust => Rgba8888Color::rgb(0xc8, 0xd4, 0xfa),
            Element::Ash => Rgba8888Color::rgb(0x9a, 0x9a, 0x9a),
            Element::ColdLava => Rgba8888Color::rgb(0x3a, 0x30, 0x30),
            Element::Water => Rgba8888Color::rgb(0x05, 0xaf, 0xf2),
            Element::SaltWater => Rgba8888Color::rgb(0x04, 0x9f, 0xc0),
            Element::Gasoline => Rgba8888Color::rgb(0x92, 0x19, 0x09),
            Element::Lava => Rgba8888Color::rgb(0xe2, 0x4a, 0x0f),
            Element::WaterSource => Rgba8888Color::rgb(0x9c, 0xad, 0xbc),
            Element::GasolineSource => Rgba8888Color::rgb(0x82, 0x15, 0x06),
            Element::FireSource => Rgba8888Color::rgb(0xd6, 0x9f, 0x7e),
            Element::Volcano => Rgba8888Color::rgb(0x5a, 0x1a, 0x0a),
            Element::Sink => Rgba8888Color::rgb(0x10, 0x10, 0x10),
            Element::Steam => Rgba8888Color::rgb(0xee, 0xee, 0xff),
            Element::Hydrogen => Rgba8888Color::rgb(0x30, 0x00, 0x80),
            Element::Methane => Rgba8888Color::rgb(0x66, 0x33, 0x99),
            Element::HydrogenBurner => Rgba8888Color::rgb(0x50, 0x30, 0xa0),
            Element::MethaneBurner => Rgba8888Color::rgb(0x7a, 0x50, 0xb0),
            Element::Flame => Rgba8888Color::rgb(0xf2, 0x92, 0x1d),
            Element::BurningParticle { .. } => Rgba8888Color::rgb(0xd9, 0x67, 0x04),
        }
    }
}

} // verus!
