//! Terminal colours, and the palettes the effects views are drawn from.

use vstd::prelude::*;

verus! {

/// A terminal colour: a palette name, an index into the 256-colour palette, or
/// an exact colour.
#[derive(Debug, Clone, Copy, PartialEq, Eq, Structural, Default)]
pub enum Color {
    #[default]
    Reset,
    Black,
    Red,
    Green,
    Yellow,
    Blue,
    Magenta,
    Cyan,
    Gray,
    DarkGray,
    LightRed,
    LightGreen,
    LightYellow,
    LightBlue,
    LightMagenta,
    LightCyan,
    White,
    Rgb(u8, u8, u8),
    Indexed(u8),
}

/// The `cyber neon` palette.
pub open spec fn cyber_neon_palette() -> Seq<Color> {
    seq![
        Color::Rgb(0, 255, 255),
        Color::Rgb(255, 0, 255),
        Color::Rgb(0, 255, 0),
        Color::Rgb(255, 255, 0),
        Color::Rgb(255, 100, 0),
        Color::Rgb(200, 0, 255),
    ]
}

/// The `ocean depths` palette.
pub open spec fn ocean_depths_palette() -> Seq<Color> {
    seq![
        Color::Rgb(0, 50, 100),
        Color::Rgb(0, 100, 150),
        Color::Rgb(0, 150, 200),
        Color::Rgb(100, 200, 255),
        Color::Rgb(150, 255, 255),
        Color::Rgb(200, 255, 200),
    ]
}

/// The `fire storm` palette.
pub open spec fn fire_storm_palette() -> Seq<Color> {
    seq![
        Color::Rgb(50, 0, 0),
        Color::Rgb(100, 20, 0),
        Color::Rgb(200, 50, 0),
        Color::Rgb(255, 100, 0),
        Color::Rgb(255, 200, 0),
        Color::Rgb(255, 255, 100),
    ]
}

/// The `forest glow` palette.
pub open spec fn forest_glow_palette() -> Seq<Color> {
    seq![
        Color::Rgb(0, 50, 0),
        Color::Rgb(0, 100, 50),
        Color::Rgb(50, 150, 0),
        Color::Rgb(100, 200, 50),
        Color::Rgb(150, 255, 100),
        Color::Rgb(200, 255, 200),
    ]
}

/// Pre-defined colour palettes for quick access.
pub struct ColorPalettes;

impl ColorPalettes {
    pub fn cyber_neon() -> (palette: [Color; 6])
        ensures
            palette@ == cyber_neon_palette(),
    {
        let palette = [
            Color::Rgb(0, 255, 255),
            Color::Rgb(255, 0, 255),
            Color::Rgb(0, 255, 0),
            Color::Rgb(255, 255, 0),
            Color::Rgb(255, 100, 0),
            Color::Rgb(200, 0, 255),
        ];
        proof {
            assert(palette@ =~= seq![
                Color::Rgb(0, 255, 255),
                Color::Rgb(255, 0, 255),
                Color::Rgb(0, 255, 0),
                Color::Rgb(255, 255, 0),
                Color::Rgb(255, 100, 0),
                Color::Rgb(200, 0, 255),
            ]);
        }
        palette
    }

    pub fn ocean_depths() -> (palette: [Color; 6])
        ensures
            palette@ == ocean_depths_palette(),
    {
        let palette = [
            Color::Rgb(0, 50, 100),
            Color::Rgb(0, 100, 150),
            Color::Rgb(0, 150, 200),
            Color::Rgb(100, 200, 255),
            Color::Rgb(150, 255, 255),
            Color::Rgb(200, 255, 200),
        ];
        proof {
            assert(palette@ =~= seq![
                Color::Rgb(0, 50, 100),
                Color::Rgb(0, 100, 150),
                Color::Rgb(0, 150, 200),
                Color::Rgb(100, 200, 255),
                Color::Rgb(150, 255, 255),
                Color::Rgb(200, 255, 200),
            ]);
        }
        palette
    }

    pub fn fire_storm() -> (palette: [Color; 6])
        ensures
            palette@ == fire_storm_palette(),
    {
        let palette = [
            Color::Rgb(50, 0, 0),
            Color::Rgb(100, 20, 0),
            Color::Rgb(200, 50, 0),
            Color::Rgb(255, 100, 0),
            Color::Rgb(255, 200, 0),
            Color::Rgb(255, 255, 100),
        ];
        proof {
            assert(palette@ =~= seq![
                Color::Rgb(50, 0, 0),
                Color::Rgb(100, 20, 0),
                Color::Rgb(200, 50, 0),
                Color::Rgb(255, 100, 0),
                Color::Rgb(255, 200, 0),
                Color::Rgb(255, 255, 100),
            ]);
        }
        palette
    }

    pub fn forest_glow() -> (palette: [Color; 6])
        ensures
            palette@ == forest_glow_palette(),
    {
        let palette = [
            Color::Rgb(0, 50, 0),
            Color::Rgb(0, 100, 50),
            Color::Rgb(50, 150, 0),
            Color::Rgb(100, 200, 50),
            Color::Rgb(150, 255, 100),
            Color::Rgb(200, 255, 200),
        ];
        proof {
            assert(palette@ =~= seq![
                Color::Rgb(0, 50, 0),
                Color::Rgb(0, 100, 50),
                Color::Rgb(50, 150, 0),
                Color::Rgb(100, 200, 50),
                Color::Rgb(150, 255, 100),
                Color::Rgb(200, 255, 200),
            ]);
        }
        palette
    }
}

} // verus!
