//! The settings the keys change, what each key does to them, and the help
//! panel that reads them back.
//!
//! Every key that changes a setting leaves a short note saying where it landed;
//! `h` shows the lot with their current values.

use vstd::prelude::*;
use vstd::string::StringExecFns;
use crate::strings::{decimal, push_decimal};
use crate::surface::{Surface, surface_name};
use crate::ui::{Action, Visualisation, other_view};
use crate::ui::analyzer::{BarLayout, BarStyle, Peaks, next_peaks, next_style, peaks_name, style_name};
use crate::ui::help::HelpRow;

verus! {

/// How the spectrum is divided into bands.
#[derive(Debug, Clone, Copy, PartialEq, Eq, Structural)]
pub enum Bandwidth {
    Wide,
    Thin,
}

/// The viewing angle of the bar field. Only the pixel surface can show one.
#[derive(Debug, Clone, Copy, PartialEq, Eq, Structural, Default)]
pub enum Angle {
    #[default]
    Flat,
    Raked,
    Turned,
    Corridor,
    Swaying,
}

/// The order `v` walks the angles in.
pub open spec fn next_view(view: Angle) -> Angle {
    match view {
        Angle::Flat => Angle::Raked,
        Angle::Raked => Angle::Turned,
        Angle::Turned => Angle::Corridor,
        Angle::Corridor => Angle::Swaying,
        Angle::Swaying => Angle::Flat,
    }
}

pub open spec fn view_name(view: Angle) -> Seq<char> {
    match view {
        Angle::Flat => "flat"@,
        Angle::Raked => "raked"@,
        Angle::Turned => "turned"@,
        Angle::Corridor => "corridor"@,
        Angle::Swaying => "swaying"@,
    }
}

impl Angle {
    pub fn next(self) -> (view: Self)
        ensures
            view == next_view(self),
    {
        match self {
            Angle::Flat => Angle::Raked,
            Angle::Raked => Angle::Turned,
            Angle::Turned => Angle::Corridor,
            Angle::Corridor => Angle::Swaying,
            Angle::Swaying => Angle::Flat,
        }
    }

    pub fn label(self) -> (label: &'static str)
        ensures
            label@ == view_name(self),
    {
        match self {
            Angle::Flat => "flat",
            Angle::Raked => "raked",
            Angle::Turned => "turned",
            Angle::Corridor => "corridor",
            Angle::Swaying => "swaying",
        }
    }
}

/// The bar fall speeds `f` walks through, in rows a second.
pub open spec fn fall_speeds() -> Seq<nat> {
    seq![3, 6, 12, 16, 32]
}

/// The highest frequency `r` lets the display span; `None` is the full range.
pub open spec fn frequency_limits() -> Seq<Option<nat>> {
    seq![Some(8000), Some(12000), Some(16000), Some(20000), None]
}

/// How many entries each of the two lists above has.
pub const LIST_LENGTH: usize = 5;

/// What rav can be told to change while it runs.
#[derive(Debug, Clone, Copy, PartialEq, Eq, Structural)]
pub struct Settings {
    pub visualisation: Visualisation,
    pub peaks: Peaks,
    pub show_grid: bool,
    pub bandwidth: Bandwidth,
    /// Which of `fall_speeds()` the bars fall at.
    pub bar_fall_index: usize,
    /// Which of `frequency_limits()` the display spans to.
    pub limit_index: usize,
    pub bar_style: BarStyle,
    pub view: Angle,
    /// The surface frames go to, which decides whether a view can be angled.
    pub surface: Surface,
    /// Gain trim, in whole dB.
    pub gain_db: i8,
    pub bar_width: u16,
    /// The narrowest and widest a bar may be made.
    pub narrowest: u16,
    pub widest: u16,
    /// Which theme of the rotation is showing.
    pub theme_index: usize,
    pub show_help: bool,
    pub should_quit: bool,
    /// Set when the band mapping, the ballistics and the colour ramps have to be
    /// rebuilt before the next frame.
    pub stale: bool,
}

/// Where `speed` stands among the fall speeds, or the first where it is not
/// one of them.
pub open spec fn fall_index(speed: nat) -> usize {
    if speed == 3 {
        0
    } else if speed == 6 {
        1
    } else if speed == 12 {
        2
    } else if speed == 16 {
        3
    } else if speed == 32 {
        4
    } else {
        0
    }
}

impl Settings {
    /// The settings rav opens with: the analyser, fine caps, a grid behind
    /// wide bands, bars falling at `bar_fall` where that is one of the fall
    /// speeds, up to 16 kHz, no gain trim, a flat view, three-column bars of
    /// `bar_style` that may be made `narrowest` to `widest` wide, the first
    /// theme, glyphs until a surface is chosen, and everything still to be
    /// built for the first frame.
    pub fn opening(bar_fall: u64, bar_style: BarStyle, narrowest: u16, widest: u16) -> (s: Settings)
        ensures
            s == (Settings {
                visualisation: Visualisation::Analyzer,
                peaks: Peaks::Fine,
                show_grid: true,
                bandwidth: Bandwidth::Wide,
                bar_fall_index: fall_index(bar_fall as nat),
                limit_index: 2,
                bar_style,
                view: Angle::Flat,
                surface: Surface::Glyphs,
                gain_db: 0,
                bar_width: 3,
                narrowest,
                widest,
                theme_index: 0,
                show_help: false,
                should_quit: false,
                stale: true,
            }),
    {
        let mut i: usize = 0;
        while i < LIST_LENGTH && fall_speed(i) != bar_fall
            invariant
                i <= 5,
                forall|j: int| 0 <= j < i ==> fall_speeds()[j] != bar_fall,
            decreases 5 - i,
        {
            i += 1;
        }
        let bar_fall_index: usize = if i < LIST_LENGTH { i } else { 0 };
        proof {
            let speeds = fall_speeds();
            assert(speeds[0] == 3 && speeds[1] == 6 && speeds[2] == 12 && speeds[3] == 16 && speeds[4] == 32);
            if i < 5 {
                assert(speeds[i as int] == bar_fall);
            } else {
                assert(speeds[0] != bar_fall && speeds[1] != bar_fall && speeds[2] != bar_fall);
                assert(speeds[3] != bar_fall && speeds[4] != bar_fall);
            }
        }
        Settings {
            visualisation: Visualisation::Analyzer,
            peaks: Peaks::default(),
            show_grid: true,
            bandwidth: Bandwidth::Wide,
            bar_fall_index,
            limit_index: 2,
            bar_style,
            view: Angle::Flat,
            surface: Surface::Glyphs,
            gain_db: 0,
            bar_width: BarLayout::default().bar_width,
            narrowest,
            widest,
            theme_index: 0,
            show_help: false,
            should_quit: false,
            stale: true,
        }
    }
}

/// What the settings must hold for a key to be applied to them: indices that
/// name an entry of their lists, a theme rotation of `themes` entries, and a
/// bar width range that is not empty.
pub open spec fn settings_fit(s: Settings, themes: nat) -> bool {
    &&& s.bar_fall_index < 5
    &&& s.limit_index < 5
    &&& s.theme_index < themes
    &&& s.narrowest <= s.widest
}

/// `v` held to `lo..=hi`.
pub open spec fn clamped(v: int, lo: int, hi: int) -> int {
    if v < lo { lo } else if v > hi { hi } else { v }
}

/// Whether a viewing angle would change anything: the pixel surface, showing
/// the analyser.
pub open spec fn can_be_angled(s: Settings) -> bool {
    s.surface == Surface::Kitty && s.visualisation == Visualisation::Analyzer
}

/// The settings after `action`, with a rotation of `themes` themes.
pub open spec fn applied(s: Settings, action: Action, themes: nat) -> Settings {
    match action {
        Action::Quit => Settings { should_quit: true, ..s },
        Action::CycleVisualisation => Settings { visualisation: other_view(s.visualisation), ..s },
        Action::TogglePeaks => {
            let peaks = next_peaks(s.peaks);
            // Turning caps on or off changes how many rows the colour ramp spans.
            let rebuild = s.peaks == Peaks::Off || peaks == Peaks::Off;
            Settings { peaks, stale: s.stale || rebuild, ..s }
        },
        Action::ToggleGrid => Settings { show_grid: !s.show_grid, ..s },
        Action::CycleBandwidth => Settings {
            bandwidth: if s.bandwidth == Bandwidth::Wide { Bandwidth::Thin } else { Bandwidth::Wide },
            stale: true,
            ..s
        },
        Action::CycleBarFall => Settings { bar_fall_index: ((s.bar_fall_index + 1) % 5) as usize, ..s },
        Action::CycleFrequencyLimit => Settings {
            limit_index: ((s.limit_index + 1) % 5) as usize,
            stale: true,
            ..s
        },
        Action::ToggleHelp => Settings { show_help: !s.show_help, ..s },
        Action::CycleBarStyle => Settings { bar_style: next_style(s.bar_style), ..s },
        Action::CycleView => if can_be_angled(s) {
            Settings { view: next_view(s.view), ..s }
        } else {
            s
        },
        Action::CycleTheme => Settings {
            theme_index: ((s.theme_index + 1) % (themes as int)) as usize,
            stale: true,
            ..s
        },
        Action::Gain(delta) => Settings { gain_db: clamped(s.gain_db + delta, -40, 40) as i8, ..s },
        Action::ResetGain => Settings { gain_db: 0, ..s },
        Action::BarSize(delta) => Settings {
            bar_width: clamped(s.bar_width + delta, s.narrowest as int, s.widest as int) as u16,
            stale: true,
            ..s
        },
        Action::Nothing => s,
    }
}

pub open spec fn visualisation_name(shown: Visualisation) -> Seq<char> {
    match shown {
        Visualisation::Analyzer => "analyser"@,
        Visualisation::Oscilloscope => "oscilloscope"@,
    }
}

pub open spec fn bandwidth_name(bandwidth: Bandwidth) -> Seq<char> {
    match bandwidth {
        Bandwidth::Wide => "wide"@,
        Bandwidth::Thin => "thin"@,
    }
}

pub open spec fn on_off(on: bool) -> Seq<char> {
    if on { "on"@ } else { "off"@ }
}

/// How the frequency limit at `i` reads: in whole kHz, or the full range.
pub open spec fn limit_text(i: int) -> Seq<char> {
    match frequency_limits()[i] {
        Some(hz) => "up to "@ + decimal(hz / 1000) + " kHz"@,
        None => "full range"@,
    }
}

/// A gain in dB, always signed: `+6 dB`, `-2 dB`, `+0 dB`.
pub open spec fn gain_text(gain: int) -> Seq<char> {
    (if gain >= 0 { "+"@ + decimal(gain as nat) } else { "-"@ + decimal((-gain) as nat) })
        + " dB"@
}

/// How the viewing angle reads: the angle, or why there is none.
pub open spec fn angle_text(s: Settings) -> Seq<char> {
    if can_be_angled(s) { view_name(s.view) } else { "needs pixels"@ }
}

/// The note `action` leaves, read off the settings it lands on.
pub open spec fn note_of(s: Settings, action: Action, themes: Seq<&str>) -> Option<Seq<char>> {
    let after = applied(s, action, themes.len());
    match action {
        Action::Quit | Action::ToggleHelp | Action::Nothing => None,
        Action::CycleVisualisation => Some(visualisation_name(after.visualisation)),
        Action::TogglePeaks => Some("peaks "@ + peaks_name(after.peaks)),
        Action::ToggleGrid => Some("grid "@ + on_off(after.show_grid)),
        Action::CycleBandwidth => Some("bandwidth "@ + bandwidth_name(after.bandwidth)),
        Action::CycleBarFall => Some("bar fall "@ + decimal(fall_speeds()[after.bar_fall_index as int])),
        Action::CycleFrequencyLimit => Some(limit_text(after.limit_index as int)),
        Action::CycleBarStyle => Some("bars "@ + style_name(after.bar_style)),
        Action::CycleView => Some(
            if can_be_angled(s) {
                "view "@ + view_name(after.view)
            } else {
                "viewing angle needs pixels"@
            },
        ),
        Action::CycleTheme => Some("theme "@ + themes[after.theme_index as int]@),
        Action::Gain(_) | Action::ResetGain => Some("gain "@ + gain_text(after.gain_db as int)),
        Action::BarSize(_) => Some("bar size "@ + decimal(after.bar_width as nat)),
    }
}

/// A note's text, if there is one.
pub open spec fn shown(note: Option<String>) -> Option<Seq<char>> {
    match note {
        Some(text) => Some(text@),
        None => None,
    }
}

fn joined(a: &str, b: &str) -> (out: String)
    ensures
        out@ == a@ + b@,
{
    let mut out = String::from_str(a);
    out.append(b);
    out
}

fn with_number(a: &str, n: u64) -> (out: String)
    ensures
        out@ == a@ + decimal(n as nat),
{
    let mut out = String::from_str(a);
    push_decimal(&mut out, n);
    out
}

fn number(n: u64) -> (out: String)
    ensures
        out@ == decimal(n as nat),
{
    let mut out = String::new();
    push_decimal(&mut out, n);
    assert(out@ =~= decimal(n as nat));
    out
}

/// The bar fall speed at `i`.
pub fn fall_speed(i: usize) -> (speed: u64)
    requires
        i < 5,
    ensures
        speed == fall_speeds()[i as int],
{
    match i {
        0 => 3,
        1 => 6,
        2 => 12,
        3 => 16,
        _ => 32,
    }
}

/// The frequency limit at `i`, in Hz.
pub fn frequency_limit(i: usize) -> (hz: Option<u64>)
    requires
        i < 5,
    ensures
        match frequency_limits()[i as int] {
            Some(limit) => hz == Some(limit as u64),
            None => hz is None,
        },
{
    match i {
        0 => Some(8000),
        1 => Some(12000),
        2 => Some(16000),
        3 => Some(20000),
        _ => None,
    }
}

fn limit_words(i: usize) -> (text: String)
    requires
        i < 5,
    ensures
        text@ == limit_text(i as int),
{
    match frequency_limit(i) {
        Some(hz) => {
            let mut text = with_number("up to ", hz / 1000);
            text.append(" kHz");
            text
        },
        None => String::from_str("full range"),
    }
}

fn gain_words(gain: i8) -> (text: String)
    ensures
        text@ == gain_text(gain as int),
{
    let mut text = if gain >= 0 { String::from_str("+") } else { String::from_str("-") };
    let size: u64 = if gain >= 0 { gain as u64 } else { (-(gain as i16)) as u64 };
    push_decimal(&mut text, size);
    text.append(" dB");
    text
}

fn visualisation_label(shown: Visualisation) -> (label: &'static str)
    ensures
        label@ == visualisation_name(shown),
{
    match shown {
        Visualisation::Analyzer => "analyser",
        Visualisation::Oscilloscope => "oscilloscope",
    }
}

fn bandwidth_label(bandwidth: Bandwidth) -> (label: &'static str)
    ensures
        label@ == bandwidth_name(bandwidth),
{
    match bandwidth {
        Bandwidth::Wide => "wide",
        Bandwidth::Thin => "thin",
    }
}

fn on_off_label(on: bool) -> (label: &'static str)
    ensures
        label@ == on_off(on),
{
    if on { "on" } else { "off" }
}

fn angled(s: &Settings) -> (b: bool)
    ensures
        b == can_be_angled(*s),
{
    s.surface == Surface::Kitty && s.visualisation == Visualisation::Analyzer
}

/// Apply what a key means, and say where it landed.
///
/// Quitting, opening or closing the help, and a key rav has no use for leave
/// no note; every other key does. The viewing angle is refused, with a note
/// that says why, wherever no angle could be drawn.
#[verifier::rlimit(60)]
pub fn apply(s: &mut Settings, action: Action, themes: &[&str]) -> (note: Option<String>)
    requires
        settings_fit(*old(s), themes@.len()),
    ensures
        *final(s) == applied(*old(s), action, themes@.len()),
        shown(note) == note_of(*old(s), action, themes@),
{
    match action {
        Action::Quit => {
            s.should_quit = true;
            None
        },
        Action::CycleVisualisation => {
            s.visualisation = s.visualisation.next();
            Some(String::from_str(visualisation_label(s.visualisation)))
        },
        Action::TogglePeaks => {
            let was_off = s.peaks == Peaks::Off;
            s.peaks = s.peaks.next();
            if was_off || s.peaks == Peaks::Off {
                s.stale = true;
            }
            Some(joined("peaks ", s.peaks.label()))
        },
        Action::ToggleGrid => {
            s.show_grid = !s.show_grid;
            Some(joined("grid ", on_off_label(s.show_grid)))
        },
        Action::CycleBandwidth => {
            s.bandwidth = match s.bandwidth {
                Bandwidth::Wide => Bandwidth::Thin,
                Bandwidth::Thin => Bandwidth::Wide,
            };
            s.stale = true;
            Some(joined("bandwidth ", bandwidth_label(s.bandwidth)))
        },
        Action::CycleBarFall => {
            s.bar_fall_index = (s.bar_fall_index + 1) % LIST_LENGTH;
            Some(with_number("bar fall ", fall_speed(s.bar_fall_index)))
        },
        Action::CycleFrequencyLimit => {
            s.limit_index = (s.limit_index + 1) % LIST_LENGTH;
            s.stale = true;
            Some(limit_words(s.limit_index))
        },
        Action::CycleBarStyle => {
            s.bar_style = s.bar_style.next();
            Some(joined("bars ", s.bar_style.label()))
        },
        Action::CycleView => {
            if angled(s) {
                s.view = s.view.next();
                Some(joined("view ", s.view.label()))
            } else {
                Some(String::from_str("viewing angle needs pixels"))
            }
        },
        Action::CycleTheme => {
            assert(s.theme_index < themes.len());
            s.theme_index = (s.theme_index + 1) % themes.len();
            s.stale = true;
            Some(joined("theme ", themes[s.theme_index]))
        },
        Action::Gain(delta) => {
            let sum: i16 = s.gain_db as i16 + delta as i16;
            let gain: i16 = if sum < -40 { -40 } else if sum > 40 { 40 } else { sum };
            s.gain_db = gain as i8;
            Some(joined("gain ", gain_words(s.gain_db).as_str()))
        },
        Action::ResetGain => {
            s.gain_db = 0;
            Some(joined("gain ", gain_words(0).as_str()))
        },
        Action::BarSize(delta) => {
            let sum: i32 = s.bar_width as i32 + delta as i32;
            let width: i32 = if sum < s.narrowest as i32 {
                s.narrowest as i32
            } else if sum > s.widest as i32 {
                s.widest as i32
            } else {
                sum
            };
            s.bar_width = width as u16;
            s.stale = true;
            Some(with_number("bar size ", s.bar_width as u64))
        },
        Action::ToggleHelp => {
            s.show_help = !s.show_help;
            None
        },
        Action::Nothing => None,
    }
}

/// What a help row reads: its key, what it does, and its value if it has one.
pub open spec fn row_reads(row: HelpRow) -> (Seq<char>, Seq<char>, Option<Seq<char>>) {
    (row.key@, row.description@, shown(row.value))
}

pub open spec fn source_text(source: Option<&str>) -> Option<Seq<char>> {
    match source {
        Some(text) => Some(text@),
        None => None,
    }
}

/// How many rows the help panel has: one per key, the surface readout, and
/// the source once one has been named.
pub open spec fn help_count(source: Option<Seq<char>>) -> nat {
    if source is Some { 15 } else { 14 }
}

/// Help row `i`, carrying the current value of what its key changes.
///
/// The surface row has no key, because `--surface` is a flag; it says "drawing
/// on" while pixels are going out and "would draw on" while they are not. The
/// source, last and without a key, reports rather than offers.
pub open spec fn help_line(
    s: Settings,
    themes: Seq<&str>,
    because: Seq<char>,
    painting: bool,
    source: Option<Seq<char>>,
    i: int,
) -> (Seq<char>, Seq<char>, Option<Seq<char>>) {
    if i == 0 {
        ("space"@, "switch visualisation"@, Some(visualisation_name(s.visualisation)))
    } else if i == 1 {
        ("r"@, "frequency range"@, Some(limit_text(s.limit_index as int)))
    } else if i == 2 {
        ("f"@, "bar fall speed"@, Some(decimal(fall_speeds()[s.bar_fall_index as int])))
    } else if i == 3 {
        ("w"@, "bandwidth"@, Some(bandwidth_name(s.bandwidth)))
    } else if i == 4 {
        ("p"@, "peak caps"@, Some(peaks_name(s.peaks)))
    } else if i == 5 {
        ("t"@, "theme"@, Some(themes[s.theme_index as int]@))
    } else if i == 6 {
        ("+ / -"@, "bar size"@, Some(decimal(s.bar_width as nat)))
    } else if i == 7 {
        ("b"@, "bar style"@, Some(style_name(s.bar_style)))
    } else if i == 8 {
        ("v"@, "viewing angle"@, Some(angle_text(s)))
    } else if i == 9 {
        ("g"@, "grid behind the bars"@, Some(on_off(s.show_grid)))
    } else if i == 10 {
        ("up/down"@, "gain (0 resets)"@, Some(gain_text(s.gain_db as int)))
    } else if i == 11 {
        ("h"@, "this help"@, None)
    } else if i == 12 {
        ("q"@, "quit"@, None)
    } else if i == 13 {
        (
            ""@,
            if painting { "drawing on"@ } else { "would draw on"@ },
            Some(surface_name(s.surface) + " ("@ + because + ")"@),
        )
    } else {
        (""@, "listening to"@, source)
    }
}

fn row(key: &'static str, description: &'static str, value: Option<String>) -> (line: HelpRow<'static>)
    ensures
        line.key == key,
        line.description == description,
        line.value == value,
{
    HelpRow { key, description, value }
}

/// The help rows, each carrying its current value so the panel doubles as a
/// settings readout.
pub fn help_rows(
    s: &Settings,
    themes: &[&str],
    because: &str,
    painting: bool,
    source: Option<&str>,
) -> (rows: Vec<HelpRow<'static>>)
    requires
        s.bar_fall_index < 5,
        s.limit_index < 5,
        s.theme_index < themes@.len(),
    ensures
        rows@.len() == help_count(source_text(source)),
        forall|i: int|
            0 <= i < rows@.len() ==> row_reads(#[trigger] rows@[i]) == help_line(
                *s,
                themes@,
                because@,
                painting,
                source_text(source),
                i,
            ),
{
    let mut rows: Vec<HelpRow<'static>> = Vec::new();
    rows.push(row("space", "switch visualisation", Some(String::from_str(visualisation_label(s.visualisation)))));
    rows.push(row("r", "frequency range", Some(limit_words(s.limit_index))));
    rows.push(row("f", "bar fall speed", Some(number(fall_speed(s.bar_fall_index)))));
    rows.push(row("w", "bandwidth", Some(String::from_str(bandwidth_label(s.bandwidth)))));
    rows.push(row("p", "peak caps", Some(String::from_str(s.peaks.label()))));
    rows.push(row("t", "theme", Some(String::from_str(themes[s.theme_index]))));
    rows.push(row("+ / -", "bar size", Some(number(s.bar_width as u64))));
    rows.push(row("b", "bar style", Some(String::from_str(s.bar_style.label()))));
    let angle = if angled(s) { s.view.label() } else { "needs pixels" };
    rows.push(row("v", "viewing angle", Some(String::from_str(angle))));
    rows.push(row("g", "grid behind the bars", Some(String::from_str(on_off_label(s.show_grid)))));
    rows.push(row("up/down", "gain (0 resets)", Some(gain_words(s.gain_db))));
    rows.push(row("h", "this help", None));
    rows.push(row("q", "quit", None));
    let mut readout = joined(s.surface.label(), " (");
    readout.append(because);
    readout.append(")");
    let description = if painting { "drawing on" } else { "would draw on" };
    rows.push(row("", description, Some(readout)));
    match source {
        Some(text) => rows.push(row("", "listening to", Some(String::from_str(text)))),
        None => {},
    }
    rows
}

/// `action` pressed `k` times, starting from `s`.
pub open spec fn pressed(s: Settings, action: Action, themes: nat, k: nat) -> Settings
    decreases k,
{
    if k == 0 {
        s
    } else {
        applied(pressed(s, action, themes, (k - 1) as nat), action, themes)
    }
}

/// Every key leaves the settings fit for the next one, and keeps the gain
/// within ±40 dB and the bar width within its range once they are.
pub proof fn lemma_keys_keep_the_settings_fit(s: Settings, action: Action, themes: nat)
    requires
        settings_fit(s, themes),
    ensures
        settings_fit(applied(s, action, themes), themes),
        -40 <= s.gain_db <= 40 ==> -40 <= applied(s, action, themes).gain_db <= 40,
        s.narrowest <= s.bar_width <= s.widest ==> s.narrowest <= applied(s, action, themes).bar_width
            <= s.widest,
        applied(s, action, themes).narrowest == s.narrowest,
        applied(s, action, themes).widest == s.widest,
{
}

proof fn lemma_next_in_cycle(i: int, k: int, m: int)
    requires
        0 < m,
        0 <= i < m,
        k >= 1,
    ensures
        (((i + k - 1) % m) + 1) % m == (i + k) % m,
{
    vstd::arithmetic::div_mod::lemma_add_mod_noop(i + k - 1, 1, m);
    if m == 1 {
        vstd::arithmetic::div_mod::lemma_mod_self_0(1);
        vstd::arithmetic::div_mod::lemma_add_mod_noop(i + k - 1, 0, 1);
        vstd::arithmetic::div_mod::lemma_add_mod_noop(i + k, 0, 1);
    } else {
        vstd::arithmetic::div_mod::lemma_small_mod(1, m as nat);
    }
}

/// Pressing `f` walks the fall speeds in order, one step per press.
pub proof fn lemma_fall_speed_after(s: Settings, themes: nat, k: nat)
    requires
        s.bar_fall_index < 5,
    ensures
        pressed(s, Action::CycleBarFall, themes, k) == (Settings {
            bar_fall_index: ((s.bar_fall_index + k) % 5) as usize,
            ..s
        }),
    decreases k,
{
    if k > 0 {
        lemma_fall_speed_after(s, themes, (k - 1) as nat);
        lemma_next_in_cycle(s.bar_fall_index as int, k as int, 5);
    }
}

/// Pressing `r` walks the frequency limits in order, one step per press, and
/// asks for a rebuild.
pub proof fn lemma_range_after(s: Settings, themes: nat, k: nat)
    requires
        s.limit_index < 5,
        k >= 1,
    ensures
        pressed(s, Action::CycleFrequencyLimit, themes, k) == (Settings {
            limit_index: ((s.limit_index + k) % 5) as usize,
            stale: true,
            ..s
        }),
    decreases k,
{
    assert(pressed(s, Action::CycleFrequencyLimit, themes, 0) == s);
    if k > 1 {
        lemma_range_after(s, themes, (k - 1) as nat);
        lemma_next_in_cycle(s.limit_index as int, k as int, 5);
    }
}

/// `f` walks its whole list of five, no entry twice, and the fifth press
/// comes home.
pub proof fn lemma_fall_speeds_walk_their_list(s: Settings, themes: nat, j: nat, k: nat)
    requires
        s.bar_fall_index < 5,
        j < k < 5,
    ensures
        pressed(s, Action::CycleBarFall, themes, j).bar_fall_index != pressed(
            s,
            Action::CycleBarFall,
            themes,
            k,
        ).bar_fall_index,
        pressed(s, Action::CycleBarFall, themes, 5) == s,
{
    lemma_fall_speed_after(s, themes, j);
    lemma_fall_speed_after(s, themes, k);
    lemma_fall_speed_after(s, themes, 5);
    let i = s.bar_fall_index as int;
    assert((i + j) % 5 != (i + k) % 5);
    assert((i + 5) % 5 == i);
}

/// `r` walks its whole list of five, no entry twice, and the fifth press comes
/// home, having asked for a rebuild on the way.
pub proof fn lemma_ranges_walk_their_list(s: Settings, themes: nat, j: nat, k: nat)
    requires
        s.limit_index < 5,
        j < k < 5,
    ensures
        pressed(s, Action::CycleFrequencyLimit, themes, j).limit_index != pressed(
            s,
            Action::CycleFrequencyLimit,
            themes,
            k,
        ).limit_index,
        pressed(s, Action::CycleFrequencyLimit, themes, 5) == (Settings { stale: true, ..s }),
{
    let i = s.limit_index as int;
    if j > 0 {
        lemma_range_after(s, themes, j);
    } else {
        assert(pressed(s, Action::CycleFrequencyLimit, themes, 0) == s);
    }
    lemma_range_after(s, themes, k);
    lemma_range_after(s, themes, 5);
    assert((i + j) % 5 != (i + k) % 5);
    assert((i + 5) % 5 == i);
}

/// Pressing `t` walks the theme rotation in order, asking for a rebuild.
pub proof fn lemma_theme_after(s: Settings, themes: nat, k: nat)
    requires
        s.theme_index < themes <= usize::MAX,
        k >= 1,
    ensures
        pressed(s, Action::CycleTheme, themes, k) == (Settings {
            theme_index: ((s.theme_index + k) % (themes as int)) as usize,
            stale: true,
            ..s
        }),
    decreases k,
{
    assert(pressed(s, Action::CycleTheme, themes, 0) == s);
    if k > 1 {
        lemma_theme_after(s, themes, (k - 1) as nat);
        lemma_next_in_cycle(s.theme_index as int, k as int, themes as int);
    }
}

/// As many presses of `t` as there are themes come back to the theme they
/// started from.
pub proof fn lemma_themes_come_home(s: Settings, themes: nat)
    requires
        s.theme_index < themes <= usize::MAX,
    ensures
        pressed(s, Action::CycleTheme, themes, themes) == (Settings { stale: true, ..s }),
{
    lemma_theme_after(s, themes, themes);
    vstd::arithmetic::div_mod::lemma_add_mod_noop(s.theme_index as int, themes as int, themes as int);
    vstd::arithmetic::div_mod::lemma_mod_self_0(themes as int);
    vstd::arithmetic::div_mod::lemma_small_mod(s.theme_index as nat, themes);
}

/// The two-way switches: pressing twice puts everything back, but for the
/// rebuild a bandwidth change asks for.
pub proof fn lemma_switches_flip_back(s: Settings, themes: nat)
    ensures
        pressed(s, Action::CycleVisualisation, themes, 2) == s,
        pressed(s, Action::ToggleGrid, themes, 2) == s,
        pressed(s, Action::ToggleHelp, themes, 2) == s,
        pressed(s, Action::CycleBandwidth, themes, 2) == (Settings { stale: true, ..s }),
        applied(s, Action::ToggleGrid, themes).show_grid != s.show_grid,
        applied(s, Action::CycleVisualisation, themes).visualisation != s.visualisation,
        pressed(s, Action::TogglePeaks, themes, 3).peaks == s.peaks,
        applied(s, Action::TogglePeaks, themes).peaks != s.peaks,
{
    reveal_with_fuel(pressed, 4);
}

/// `v` walks the five angles and comes home where an angle can be drawn, and
/// changes nothing at all where it cannot.
pub proof fn lemma_angles_cycle_where_they_can_be_drawn(s: Settings, themes: nat)
    ensures
        can_be_angled(s) ==> pressed(s, Action::CycleView, themes, 5) == s,
        can_be_angled(s) ==> applied(s, Action::CycleView, themes).view != s.view,
        !can_be_angled(s) ==> applied(s, Action::CycleView, themes) == s,
{
    reveal_with_fuel(pressed, 6);
}

/// Pressing `up` `k` times from a gain within ±40 dB climbs one dB a press and
/// stops at +40; pressing `down` falls the same way and stops at -40.
pub proof fn lemma_gain_stops_at_both_ends(s: Settings, themes: nat, k: nat)
    requires
        -40 <= s.gain_db <= 40,
    ensures
        pressed(s, Action::Gain(1), themes, k) == (Settings {
            gain_db: clamped(s.gain_db + k, -40, 40) as i8,
            ..s
        }),
        pressed(s, Action::Gain(-1i8), themes, k) == (Settings {
            gain_db: clamped(s.gain_db - k, -40, 40) as i8,
            ..s
        }),
    decreases k,
{
    if k > 0 {
        lemma_gain_stops_at_both_ends(s, themes, (k - 1) as nat);
    }
}

/// A gain trim undone by the opposite trim returns to where it was, as long as
/// neither end was reached; `0` always returns to no trim.
pub proof fn lemma_a_trim_can_be_undone(s: Settings, themes: nat, delta: i8)
    requires
        -40 <= s.gain_db <= 40,
        -40 <= s.gain_db + delta <= 40,
        delta > -128,
    ensures
        applied(applied(s, Action::Gain(delta), themes), Action::Gain((-delta) as i8), themes) == s,
        applied(s, Action::ResetGain, themes).gain_db == 0,
{
    let once = applied(s, Action::Gain(delta), themes);
    assert(once.gain_db == s.gain_db + delta);
    let back: i8 = (-delta) as i8;
    assert(back == -delta);
    assert(clamped(once.gain_db + back, -40, 40) == s.gain_db);
    assert(applied(once, Action::Gain(back), themes).gain_db == clamped(once.gain_db + back, -40, 40) as i8);
}

/// Pressing `-` `k` times narrows the bars one step a press and stops at the
/// narrowest; pressing `+` widens them the same way and stops at the widest.
pub proof fn lemma_bar_size_stops_at_both_ends(s: Settings, themes: nat, k: nat)
    requires
        s.narrowest <= s.bar_width <= s.widest,
        k >= 1,
    ensures
        pressed(s, Action::BarSize(-1i8), themes, k) == (Settings {
            bar_width: clamped(s.bar_width - k, s.narrowest as int, s.widest as int) as u16,
            stale: true,
            ..s
        }),
        pressed(s, Action::BarSize(1), themes, k) == (Settings {
            bar_width: clamped(s.bar_width + k, s.narrowest as int, s.widest as int) as u16,
            stale: true,
            ..s
        }),
    decreases k,
{
    assert(pressed(s, Action::BarSize(-1i8), themes, 0) == s);
    assert(pressed(s, Action::BarSize(1), themes, 0) == s);
    if k > 1 {
        lemma_bar_size_stops_at_both_ends(s, themes, (k - 1) as nat);
    }
}

} // verus!
