//! The effects views' themes: a palette and the colours around it, by name.

use vstd::prelude::*;
use crate::visual::colors::{
    Color, ColorPalettes, cyber_neon_palette, fire_storm_palette, forest_glow_palette,
    ocean_depths_palette,
};

verus! {

#[derive(Debug, Clone, Copy, PartialEq, Eq, Structural)]
pub enum Theme {
    CyberNeon,
    OceanDeep,
    FireStorm,
    ForestGlow,
    Monochrome,
    RetroWave,
}

/// The greys the monochrome theme is drawn in.
pub open spec fn monochrome_palette() -> Seq<Color> {
    seq![
        Color::Rgb(80, 80, 80),
        Color::Rgb(120, 120, 120),
        Color::Rgb(160, 160, 160),
        Color::Rgb(200, 200, 200),
        Color::Rgb(240, 240, 240),
        Color::Rgb(255, 255, 255),
    ]
}

/// The retro wave theme's pinks, purples and gold.
pub open spec fn retro_wave_palette() -> Seq<Color> {
    seq![
        Color::Rgb(255, 20, 147),
        Color::Rgb(255, 100, 200),
        Color::Rgb(200, 50, 255),
        Color::Rgb(100, 100, 255),
        Color::Rgb(0, 200, 255),
        Color::Rgb(255, 200, 0),
    ]
}

/// Each theme's palette.
pub open spec fn theme_palette(theme: Theme) -> Seq<Color> {
    match theme {
        Theme::CyberNeon => cyber_neon_palette(),
        Theme::OceanDeep => ocean_depths_palette(),
        Theme::FireStorm => fire_storm_palette(),
        Theme::ForestGlow => forest_glow_palette(),
        Theme::Monochrome => monochrome_palette(),
        Theme::RetroWave => retro_wave_palette(),
    }
}

/// The order the themes cycle in.
pub open spec fn next_theme(theme: Theme) -> Theme {
    match theme {
        Theme::CyberNeon => Theme::OceanDeep,
        Theme::OceanDeep => Theme::FireStorm,
        Theme::FireStorm => Theme::ForestGlow,
        Theme::ForestGlow => Theme::Monochrome,
        Theme::Monochrome => Theme::RetroWave,
        Theme::RetroWave => Theme::CyberNeon,
    }
}

impl Theme {
    /// The primary colour palette for this theme.
    pub fn palette(self) -> (palette: [Color; 6])
        ensures
            palette@ == theme_palette(self),
    {
        match self {
            Theme::CyberNeon => ColorPalettes::cyber_neon(),
            Theme::OceanDeep => ColorPalettes::ocean_depths(),
            Theme::FireStorm => ColorPalettes::fire_storm(),
            Theme::ForestGlow => ColorPalettes::forest_glow(),
            Theme::Monochrome => {
                let palette = [
                    Color::Rgb(80, 80, 80),
                    Color::Rgb(120, 120, 120),
                    Color::Rgb(160, 160, 160),
                    Color::Rgb(200, 200, 200),
                    Color::Rgb(240, 240, 240),
                    Color::Rgb(255, 255, 255),
                ];
                proof {
                    assert(palette@ =~= monochrome_palette());
                }
                palette
            },
            Theme::RetroWave => {
                let palette = [
                    Color::Rgb(255, 20, 147),
                    Color::Rgb(255, 100, 200),
                    Color::Rgb(200, 50, 255),
                    Color::Rgb(100, 100, 255),
                    Color::Rgb(0, 200, 255),
                    Color::Rgb(255, 200, 0),
                ];
                proof {
                    assert(palette@ =~= retro_wave_palette());
                }
                palette
            },
        }
    }

    /// The background colour for this theme.
    pub fn background_color(self) -> (colour: Color)
        ensures
            colour == match self {
                Theme::CyberNeon => Color::Rgb(10, 10, 20),
                Theme::OceanDeep => Color::Rgb(5, 15, 25),
                Theme::FireStorm => Color::Rgb(20, 5, 5),
                Theme::ForestGlow => Color::Rgb(5, 15, 5),
                Theme::Monochrome => Color::Rgb(15, 15, 15),
                Theme::RetroWave => Color::Rgb(20, 10, 30),
            },
    {
        match self {
            Theme::CyberNeon => Color::Rgb(10, 10, 20),
            Theme::OceanDeep => Color::Rgb(5, 15, 25),
            Theme::FireStorm => Color::Rgb(20, 5, 5),
            Theme::ForestGlow => Color::Rgb(5, 15, 5),
            Theme::Monochrome => Color::Rgb(15, 15, 15),
            Theme::RetroWave => Color::Rgb(20, 10, 30),
        }
    }

    /// The accent colour for highlights.
    pub fn accent_color(self) -> (colour: Color)
        ensures
            colour == match self {
                Theme::CyberNeon => Color::Rgb(0, 255, 255),
                Theme::OceanDeep => Color::Rgb(100, 200, 255),
                Theme::FireStorm => Color::Rgb(255, 100, 0),
                Theme::ForestGlow => Color::Rgb(100, 255, 50),
                Theme::Monochrome => Color::Rgb(200, 200, 200),
                Theme::RetroWave => Color::Rgb(255, 100, 200),
            },
    {
        match self {
            Theme::CyberNeon => Color::Rgb(0, 255, 255),
            Theme::OceanDeep => Color::Rgb(100, 200, 255),
            Theme::FireStorm => Color::Rgb(255, 100, 0),
            Theme::ForestGlow => Color::Rgb(100, 255, 50),
            Theme::Monochrome => Color::Rgb(200, 200, 200),
            Theme::RetroWave => Color::Rgb(255, 100, 200),
        }
    }

    /// The text colour for this theme.
    pub fn text_color(self) -> (colour: Color)
        ensures
            colour == match self {
                Theme::CyberNeon => Color::Rgb(200, 200, 255),
                Theme::OceanDeep => Color::Rgb(200, 220, 255),
                Theme::FireStorm => Color::Rgb(255, 220, 200),
                Theme::ForestGlow => Color::Rgb(220, 255, 220),
                Theme::Monochrome => Color::Rgb(180, 180, 180),
                Theme::RetroWave => Color::Rgb(255, 200, 255),
            },
    {
        match self {
            Theme::CyberNeon => Color::Rgb(200, 200, 255),
            Theme::OceanDeep => Color::Rgb(200, 220, 255),
            Theme::FireStorm => Color::Rgb(255, 220, 200),
            Theme::ForestGlow => Color::Rgb(220, 255, 220),
            Theme::Monochrome => Color::Rgb(180, 180, 180),
            Theme::RetroWave => Color::Rgb(255, 200, 255),
        }
    }

    /// The border colour for this theme.
    pub fn border_color(self) -> (colour: Color)
        ensures
            colour == match self {
                Theme::CyberNeon => Color::Rgb(0, 150, 150),
                Theme::OceanDeep => Color::Rgb(50, 100, 150),
                Theme::FireStorm => Color::Rgb(150, 50, 0),
                Theme::ForestGlow => Color::Rgb(50, 150, 50),
                Theme::Monochrome => Color::Rgb(100, 100, 100),
                Theme::RetroWave => Color::Rgb(150, 50, 150),
            },
    {
        match self {
            Theme::CyberNeon => Color::Rgb(0, 150, 150),
            Theme::OceanDeep => Color::Rgb(50, 100, 150),
            Theme::FireStorm => Color::Rgb(150, 50, 0),
            Theme::ForestGlow => Color::Rgb(50, 150, 50),
            Theme::Monochrome => Color::Rgb(100, 100, 100),
            Theme::RetroWave => Color::Rgb(150, 50, 150),
        }
    }

    /// The theme's name.
    pub fn name(self) -> (name: &'static str)
        ensures
            name@ == match self {
                Theme::CyberNeon => "Cyber Neon"@,
                Theme::OceanDeep => "Ocean Deep"@,
                Theme::FireStorm => "Fire Storm"@,
                Theme::ForestGlow => "Forest Glow"@,
                Theme::Monochrome => "Monochrome"@,
                Theme::RetroWave => "Retro Wave"@,
            },
    {
        match self {
            Theme::CyberNeon => "Cyber Neon",
            Theme::OceanDeep => "Ocean Deep",
            Theme::FireStorm => "Fire Storm",
            Theme::ForestGlow => "Forest Glow",
            Theme::Monochrome => "Monochrome",
            Theme::RetroWave => "Retro Wave",
        }
    }

    /// The next theme in the cycle.
    pub fn next(self) -> (theme: Self)
        ensures
            theme == next_theme(self),
    {
        match self {
            Theme::CyberNeon => Theme::OceanDeep,
            Theme::OceanDeep => Theme::FireStorm,
            Theme::FireStorm => Theme::ForestGlow,
            Theme::ForestGlow => Theme::Monochrome,
            Theme::Monochrome => Theme::RetroWave,
            Theme::RetroWave => Theme::CyberNeon,
        }
    }

    /// The palette colour for position `index`, the palette repeating as far
    /// as it has to: the colour an effect then brightens or dims.
    pub fn color_at(self, index: usize) -> (color: Color)
        ensures
            color == theme_palette(self)[index as int % 6],
    {
        let palette = self.palette();
        palette[index % 6]
    }

    /// Whether the theme draws glow effects.
    pub fn use_glow(self) -> (glow: bool)
        ensures
            glow == (self == Theme::CyberNeon || self == Theme::RetroWave),
    {
        match self {
            Theme::CyberNeon | Theme::RetroWave => true,
            _ => false,
        }
    }
}

/// Cycling the themes six times comes back to the start.
pub proof fn lemma_themes_cycle(theme: Theme)
    ensures
        next_theme(next_theme(next_theme(next_theme(next_theme(next_theme(theme)))))) == theme,
{
}

} // verus!
