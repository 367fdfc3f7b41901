//! The first interface's visualisation modes and colour themes.

use vstd::prelude::*;
use crate::visual::colors::Color;

verus! {

#[derive(Clone, Copy, PartialEq, Eq, Structural, Debug)]
pub enum VisualizationMode {
    /// Main frequency bars.
    Bars,
    /// The waveform.
    Wave,
    /// A spectrum analyser.
    Spectrum,
    /// A circular visualisation.
    Circle,
    /// A particle effect.
    Particles,
}

/// The mode after `mode`, in the order `m` cycles them.
pub open spec fn next_mode(mode: VisualizationMode) -> VisualizationMode {
    match mode {
        VisualizationMode::Bars => VisualizationMode::Wave,
        VisualizationMode::Wave => VisualizationMode::Spectrum,
        VisualizationMode::Spectrum => VisualizationMode::Circle,
        VisualizationMode::Circle => VisualizationMode::Particles,
        VisualizationMode::Particles => VisualizationMode::Bars,
    }
}

impl VisualizationMode {
    /// The mode after this one, in the order `m` cycles them.
    pub fn next(self) -> (mode: Self)
        ensures
            mode == next_mode(self),
    {
        match self {
            VisualizationMode::Bars => VisualizationMode::Wave,
            VisualizationMode::Wave => VisualizationMode::Spectrum,
            VisualizationMode::Spectrum => VisualizationMode::Circle,
            VisualizationMode::Circle => VisualizationMode::Particles,
            VisualizationMode::Particles => VisualizationMode::Bars,
        }
    }
}

/// Five presses of `m` come back to the mode they started from, and no
/// fewer do.
pub proof fn lemma_modes_cycle(mode: VisualizationMode)
    ensures
        next_mode(next_mode(next_mode(next_mode(next_mode(mode))))) == mode,
        next_mode(mode) != mode,
        next_mode(next_mode(mode)) != mode,
        next_mode(next_mode(next_mode(mode))) != mode,
        next_mode(next_mode(next_mode(next_mode(mode)))) != mode,
{
}

/// The colours one theme of the first interface is drawn in.
#[derive(Clone, Copy, PartialEq, Eq, Structural, Debug)]
pub struct ColorTheme {
    pub primary: Color,
    pub secondary: Color,
    pub accent: Color,
    pub background: Color,
    pub text: Color,
    pub glow: Color,
}

/// Cyan on near-black, the theme the interface opens in.
pub open spec fn neon_cyan_theme() -> ColorTheme {
    ColorTheme {
        primary: Color::Rgb(0, 255, 255),
        secondary: Color::Rgb(0, 150, 200),
        accent: Color::Rgb(255, 0, 255),
        background: Color::Rgb(5, 5, 15),
        text: Color::Rgb(200, 200, 255),
        glow: Color::Rgb(100, 255, 255),
    }
}

/// Green on near-black.
pub open spec fn neon_green_theme() -> ColorTheme {
    ColorTheme {
        primary: Color::Rgb(0, 255, 128),
        secondary: Color::Rgb(0, 200, 100),
        accent: Color::Rgb(255, 255, 0),
        background: Color::Rgb(5, 15, 5),
        text: Color::Rgb(200, 255, 200),
        glow: Color::Rgb(100, 255, 150),
    }
}

/// Amber, like an old terminal.
pub open spec fn retro_amber_theme() -> ColorTheme {
    ColorTheme {
        primary: Color::Rgb(255, 191, 0),
        secondary: Color::Rgb(255, 140, 0),
        accent: Color::Rgb(255, 69, 0),
        background: Color::Rgb(15, 10, 5),
        text: Color::Rgb(255, 220, 180),
        glow: Color::Rgb(255, 200, 100),
    }
}

/// The theme `c` moves to from `theme`: chosen by its primary colour, so any
/// theme that is not one of the first two starts the rotation again.
pub open spec fn theme_after(theme: ColorTheme) -> ColorTheme {
    if theme.primary == Color::Rgb(0, 255, 255) {
        neon_green_theme()
    } else if theme.primary == Color::Rgb(0, 255, 128) {
        retro_amber_theme()
    } else {
        neon_cyan_theme()
    }
}

impl ColorTheme {
    pub fn neon_cyan() -> (theme: Self)
        ensures
            theme == neon_cyan_theme(),
    {
        ColorTheme {
            primary: Color::Rgb(0, 255, 255),
            secondary: Color::Rgb(0, 150, 200),
            accent: Color::Rgb(255, 0, 255),
            background: Color::Rgb(5, 5, 15),
            text: Color::Rgb(200, 200, 255),
            glow: Color::Rgb(100, 255, 255),
        }
    }

    pub fn neon_green() -> (theme: Self)
        ensures
            theme == neon_green_theme(),
    {
        ColorTheme {
            primary: Color::Rgb(0, 255, 128),
            secondary: Color::Rgb(0, 200, 100),
            accent: Color::Rgb(255, 255, 0),
            background: Color::Rgb(5, 15, 5),
            text: Color::Rgb(200, 255, 200),
            glow: Color::Rgb(100, 255, 150),
        }
    }

    pub fn retro_amber() -> (theme: Self)
        ensures
            theme == retro_amber_theme(),
    {
        ColorTheme {
            primary: Color::Rgb(255, 191, 0),
            secondary: Color::Rgb(255, 140, 0),
            accent: Color::Rgb(255, 69, 0),
            background: Color::Rgb(15, 10, 5),
            text: Color::Rgb(255, 220, 180),
            glow: Color::Rgb(255, 200, 100),
        }
    }

    /// The theme after this one in the rotation.
    pub fn after(self) -> (theme: Self)
        ensures
            theme == theme_after(self),
    {
        match self.primary {
            Color::Rgb(0, 255, 255) => ColorTheme::neon_green(),
            Color::Rgb(0, 255, 128) => ColorTheme::retro_amber(),
            _ => ColorTheme::neon_cyan(),
        }
    }
}

/// Three presses bring any theme of the rotation back, passing through the
/// other two; a theme from outside it joins the rotation at the first press.
pub proof fn lemma_the_themes_rotate(theme: ColorTheme)
    ensures
        theme_after(theme_after(theme_after(neon_cyan_theme()))) == neon_cyan_theme(),
        theme_after(neon_cyan_theme()) == neon_green_theme(),
        theme_after(neon_green_theme()) == retro_amber_theme(),
        theme_after(theme) == neon_cyan_theme() || theme_after(theme) == neon_green_theme()
            || theme_after(theme) == retro_amber_theme(),
{
}

} // verus!
