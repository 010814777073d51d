//! The palette used for glyphs, log lines and tiles.

use vstd::prelude::*;

verus! {

/// A named colour of the palette.
#[derive(Clone, Copy, Debug, PartialEq, Eq, Structural)]
pub enum Color {
    Black,
    LightGrey,
    White,
    DesaturatedGreen,
    LightRed,
    LightYellow,
    LightGreen,
    LightBlue,
    LightViolet,
    Red,
    Orange,
    Green,
    Violet,
    DarkerRed,
    DarkerGreen,
    /// A wall outside the field of view.
    DarkWall,
    /// A wall inside the field of view.
    LightWall,
    /// Floor outside the field of view.
    DarkGround,
    /// Floor inside the field of view.
    LightGround,
}

impl Color {
    /// Red, green and blue components.
    pub open spec fn components(self) -> (u8, u8, u8) {
        match self {
            Color::Black => (0u8, 0u8, 0u8),
            Color::LightGrey => (159u8, 159u8, 159u8),
            Color::White => (255u8, 255u8, 255u8),
            Color::DesaturatedGreen => (63u8, 127u8, 63u8),
            Color::LightRed => (255u8, 63u8, 63u8),
            Color::LightYellow => (255u8, 255u8, 63u8),
            Color::LightGreen => (63u8, 255u8, 63u8),
            Color::LightBlue => (63u8, 63u8, 255u8),
            Color::LightViolet => (159u8, 63u8, 255u8),
            Color::Red => (255u8, 0u8, 0u8),
            Color::Orange => (255u8, 127u8, 0u8),
            Color::Green => (0u8, 255u8, 0u8),
            Color::Violet => (127u8, 0u8, 255u8),
            Color::DarkerRed => (127u8, 0u8, 0u8),
            Color::DarkerGreen => (0u8, 127u8, 0u8),
            Color::DarkWall => (0u8, 0u8, 100u8),
            Color::LightWall => (130u8, 110u8, 50u8),
            Color::DarkGround => (50u8, 50u8, 150u8),
            Color::LightGround => (200u8, 180u8, 50u8),
        }
    }

    /// Red, green and blue components, for whoever paints the colour.
    pub fn rgb(self) -> (c: (u8, u8, u8))
        ensures
            c == self.components(),
    {
        match self {
            Color::Black => (0, 0, 0),
            Color::LightGrey => (159, 159, 159),
            Color::White => (255, 255, 255),
            Color::DesaturatedGreen => (63, 127, 63),
            Color::LightRed => (255, 63, 63),
            Color::LightYellow => (255, 255, 63),
            Color::LightGreen => (63, 255, 63),
            Color::LightBlue => (63, 63, 255),
            Color::LightViolet => (159, 63, 255),
            Color::Red => (255, 0, 0),
            Color::Orange => (255, 127, 0),
            Color::Green => (0, 255, 0),
            Color::Violet => (127, 0, 255),
            Color::DarkerRed => (127, 0, 0),
            Color::DarkerGreen => (0, 127, 0),
            Color::DarkWall => (0, 0, 100),
            Color::LightWall => (130, 110, 50),
            Color::DarkGround => (50, 50, 150),
            Color::LightGround => (200, 180, 50),
        }
    }
}

} // verus!
