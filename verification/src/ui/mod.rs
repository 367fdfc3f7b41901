//! What the user sees and what their keys mean.

pub mod analyzer;
pub mod events;
pub mod grid;
pub mod help;
pub mod pacing;
pub mod scope;
pub mod settings;
pub mod status;
pub mod v1_interface;

use vstd::prelude::*;

verus! {

/// Which visualisation is on screen: one at a time, full area.
#[derive(Debug, Clone, Copy, PartialEq, Eq, Structural, Default)]
pub enum Visualisation {
    #[default]
    Analyzer,
    Oscilloscope,
}

/// The visualisation `space` switches to from `shown`.
pub open spec fn other_view(shown: Visualisation) -> Visualisation {
    match shown {
        Visualisation::Analyzer => Visualisation::Oscilloscope,
        Visualisation::Oscilloscope => Visualisation::Analyzer,
    }
}

/// Switching always changes what is shown, and switching twice returns.
pub proof fn lemma_switching_twice_returns(shown: Visualisation)
    ensures
        other_view(shown) != shown,
        other_view(other_view(shown)) == shown,
{
}

impl Visualisation {
    pub fn next(self) -> (shown: Self)
        ensures
            shown == other_view(self),
    {
        match self {
            Visualisation::Analyzer => Visualisation::Oscilloscope,
            Visualisation::Oscilloscope => Visualisation::Analyzer,
        }
    }
}

/// What a keypress means.
#[derive(Debug, Clone, Copy, PartialEq, Eq, Structural)]
pub enum Action {
    /// A key rav has no use for.
    Nothing,
    Quit,
    CycleVisualisation,
    TogglePeaks,
    ToggleGrid,
    CycleBandwidth,
    CycleBarFall,
    CycleFrequencyLimit,
    ToggleHelp,
    CycleBarStyle,
    CycleView,
    CycleTheme,
    /// Trim in whole dB steps.
    Gain(i8),
    ResetGain,
    /// Widen or narrow the bars.
    BarSize(i8),
}

/// A key, in the terminal's vocabulary: the ones rav tells apart.
#[derive(Debug, Clone, Copy, PartialEq, Eq, Structural)]
pub enum Key {
    Char(char),
    Esc,
    Tab,
    Up,
    Down,
    /// A function key, by number.
    F(u8),
    /// Anything else.
    Other,
}

/// A keypress, modifiers and all - the one modifier rav reads.
#[derive(Debug, Clone, Copy, PartialEq, Eq, Structural)]
pub struct Press {
    pub code: Key,
    pub control: bool,
}

/// What each key means on its own.
pub open spec fn key_action(code: Key) -> Action {
    match code {
        Key::Char(c) => if c == 'q' || c == 'Q' {
            Action::Quit
        } else if c == ' ' || c == 'o' || c == 'O' {
            Action::CycleVisualisation
        } else if c == 'p' || c == 'P' {
            Action::TogglePeaks
        } else if c == 'g' || c == 'G' {
            Action::ToggleGrid
        } else if c == 'w' || c == 'W' {
            Action::CycleBandwidth
        } else if c == 'b' || c == 'B' {
            Action::CycleBarStyle
        } else if c == 'v' || c == 'V' {
            Action::CycleView
        } else if c == 't' || c == 'T' {
            Action::CycleTheme
        } else if c == 'f' || c == 'F' {
            Action::CycleBarFall
        } else if c == 'r' || c == 'R' {
            Action::CycleFrequencyLimit
        } else if c == '0' {
            Action::ResetGain
        } else if c == '+' || c == '=' {
            Action::BarSize(1i8)
        } else if c == '-' {
            Action::BarSize(-1i8)
        } else if c == 'h' || c == 'H' || c == '?' {
            Action::ToggleHelp
        } else {
            Action::Nothing
        },
        Key::Esc => Action::Quit,
        Key::Tab => Action::CycleVisualisation,
        Key::Up => Action::Gain(1i8),
        Key::Down => Action::Gain(-1i8),
        Key::F(n) => if n == 1 { Action::ToggleHelp } else { Action::Nothing },
        Key::Other => Action::Nothing,
    }
}

/// What a key means on its own, which is all of them but one.
pub fn map_key(code: Key) -> (action: Action)
    ensures
        action == key_action(code),
{
    match code {
        Key::Char(c) => {
            if c == 'q' || c == 'Q' {
                Action::Quit
            } else if c == ' ' || c == 'o' || c == 'O' {
                Action::CycleVisualisation
            } else if c == 'p' || c == 'P' {
                Action::TogglePeaks
            } else if c == 'g' || c == 'G' {
                Action::ToggleGrid
            } else if c == 'w' || c == 'W' {
                Action::CycleBandwidth
            } else if c == 'b' || c == 'B' {
                Action::CycleBarStyle
            } else if c == 'v' || c == 'V' {
                Action::CycleView
            } else if c == 't' || c == 'T' {
                Action::CycleTheme
            } else if c == 'f' || c == 'F' {
                Action::CycleBarFall
            } else if c == 'r' || c == 'R' {
                Action::CycleFrequencyLimit
            } else if c == '0' {
                Action::ResetGain
            } else if c == '+' || c == '=' {
                // `=` as well as `+`: `+` needs Shift on most layouts.
                Action::BarSize(1)
            } else if c == '-' {
                Action::BarSize(-1)
            } else if c == 'h' || c == 'H' || c == '?' {
                Action::ToggleHelp
            } else {
                Action::Nothing
            }
        },
        Key::Esc => Action::Quit,
        Key::Tab => Action::CycleVisualisation,
        Key::Up => Action::Gain(1),
        Key::Down => Action::Gain(-1),
        Key::F(n) => {
            if n == 1 {
                Action::ToggleHelp
            } else {
                Action::Nothing
            }
        },
        Key::Other => Action::Nothing,
    }
}

/// What a keypress means, modifiers and all.
///
/// `Ctrl-C` has to be handled here because raw mode turns off the terminal
/// driver's signal: it arrives as an ordinary keystroke, and nothing acts on
/// it unless rav does.
pub fn map_press(key: Press) -> (action: Action)
    ensures
        action == if key.control && (key.code == Key::Char('c') || key.code == Key::Char('C')) {
            Action::Quit
        } else {
            key_action(key.code)
        },
{
    if key.control && (key.code == Key::Char('c') || key.code == Key::Char('C')) {
        return Action::Quit;
    }
    map_key(key.code)
}

} // verus!
