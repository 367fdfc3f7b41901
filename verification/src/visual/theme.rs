//! Colours as a theme writes them, and the ramps a theme is made of.
//!
//! Colours are either `"#rrggbb"`, which looks the same everywhere, or one of
//! the sixteen ANSI names, which the terminal paints from its own palette. A
//! named colour stays named: resolving it here would replace the user's green
//! with one rav picked.

use vstd::prelude::*;
use vstd::string::{StrSliceExecFns, StringExecFns};
use crate::strings::same_text;

verus! {

/// Stops in the analyser ramp, and in a per-stop backdrop.
pub const STOPS: usize = 16;
/// Levels in the oscilloscope ladder.
pub const SCOPE_LEVELS: usize = 5;

/// A colour as a theme gives it: spelled out, or named by its palette slot.
#[derive(Debug, Clone, Copy, PartialEq, Eq, Structural)]
pub enum Ink {
    Rgb(u8, u8, u8),
    /// One of the sixteen ANSI slots, which the terminal resolves.
    Ansi(u8),
}

/// The palette slot each ANSI name stands for.
pub open spec fn ansi_slot(name: Seq<char>) -> Option<u8> {
    if name == "black"@ {
        Some(0u8)
    } else if name == "red"@ {
        Some(1u8)
    } else if name == "green"@ {
        Some(2u8)
    } else if name == "yellow"@ {
        Some(3u8)
    } else if name == "blue"@ {
        Some(4u8)
    } else if name == "magenta"@ {
        Some(5u8)
    } else if name == "cyan"@ {
        Some(6u8)
    } else if name == "white"@ {
        Some(7u8)
    } else if name == "bright-black"@ {
        Some(8u8)
    } else if name == "bright-red"@ {
        Some(9u8)
    } else if name == "bright-green"@ {
        Some(10u8)
    } else if name == "bright-yellow"@ {
        Some(11u8)
    } else if name == "bright-blue"@ {
        Some(12u8)
    } else if name == "bright-magenta"@ {
        Some(13u8)
    } else if name == "bright-cyan"@ {
        Some(14u8)
    } else if name == "bright-white"@ {
        Some(15u8)
    } else {
        None
    }
}

impl Ink {
    /// One of the sixteen ANSI names, as the slot it names.
    pub fn from_name(name: &str) -> (ink: Option<Ink>)
        ensures
            ink == match ansi_slot(name@) {
                Some(slot) => Some(Ink::Ansi(slot)),
                None => None,
            },
    {
        let slot: Option<u8> = if same_text(name, "black") {
            Some(0)
        } else if same_text(name, "red") {
            Some(1)
        } else if same_text(name, "green") {
            Some(2)
        } else if same_text(name, "yellow") {
            Some(3)
        } else if same_text(name, "blue") {
            Some(4)
        } else if same_text(name, "magenta") {
            Some(5)
        } else if same_text(name, "cyan") {
            Some(6)
        } else if same_text(name, "white") {
            Some(7)
        } else if same_text(name, "bright-black") {
            Some(8)
        } else if same_text(name, "bright-red") {
            Some(9)
        } else if same_text(name, "bright-green") {
            Some(10)
        } else if same_text(name, "bright-yellow") {
            Some(11)
        } else if same_text(name, "bright-blue") {
            Some(12)
        } else if same_text(name, "bright-magenta") {
            Some(13)
        } else if same_text(name, "bright-cyan") {
            Some(14)
        } else if same_text(name, "bright-white") {
            Some(15)
        } else {
            None
        };
        match slot {
            Some(slot) => Some(Ink::Ansi(slot)),
            None => None,
        }
    }

    /// Whether the colour is spelled out rather than left to the terminal.
    pub fn is_exact(self) -> (exact: bool)
        ensures
            exact == (self is Rgb),
    {
        match self {
            Ink::Rgb(..) => true,
            Ink::Ansi(_) => false,
        }
    }
}

/// What was wrong with a colour.
#[derive(Debug, Clone, Copy, PartialEq, Eq, Structural)]
pub enum ColourProblem {
    /// It began with `#` but was not `#rrggbb`.
    NotHex,
    /// It was neither hex nor one of the sixteen ANSI names.
    Unknown,
}

/// A colour that did not parse, and the text it was given as, trimmed.
#[derive(Debug, Clone, PartialEq, Eq)]
pub struct ColourError {
    pub problem: ColourProblem,
    pub text: String,
}

/// Whitespace as Unicode defines it: what `str::trim` removes.
pub open spec fn is_white_space(c: char) -> bool {
    ('\u{9}' <= c <= '\u{d}') || c == ' ' || c == '\u{85}' || c == '\u{a0}' || c == '\u{1680}'
        || ('\u{2000}' <= c <= '\u{200a}') || c == '\u{2028}' || c == '\u{2029}' || c == '\u{202f}'
        || c == '\u{205f}' || c == '\u{3000}'
}

/// The first index at or after `from` that is not whitespace.
pub open spec fn lead_end(s: Seq<char>, from: int) -> int
    decreases s.len() - from,
{
    if from < s.len() && from >= 0 && is_white_space(s[from]) {
        lead_end(s, from + 1)
    } else {
        from
    }
}

/// The end of `s` with trailing whitespace down to `floor` dropped.
pub open spec fn trail_start(s: Seq<char>, to: int, floor: int) -> int
    decreases to - floor,
{
    if to > floor && to <= s.len() && is_white_space(s[to - 1]) {
        trail_start(s, to - 1, floor)
    } else {
        to
    }
}

/// `s` without leading or trailing whitespace.
pub open spec fn trimmed(s: Seq<char>) -> Seq<char> {
    let lo = lead_end(s, 0);
    s.subrange(lo, trail_start(s, s.len() as int, lo))
}

/// The value of a hex digit.
pub open spec fn hex_digit(c: char) -> Option<int> {
    if '0' <= c <= '9' {
        Some(c as int - 48)
    } else if 'a' <= c <= 'f' {
        Some(c as int - 87)
    } else if 'A' <= c <= 'F' {
        Some(c as int - 55)
    } else {
        None
    }
}

/// Digit `v` of base 16 as written with lower-case letters.
pub open spec fn lower_hex(v: int) -> char {
    if v < 10 { (48 + v) as char } else { (97 + v - 10) as char }
}

/// Digit `v` of base 16 as written with capital letters.
pub open spec fn upper_hex(v: int) -> char {
    if v < 10 { (48 + v) as char } else { (65 + v - 10) as char }
}

/// Every value of a hex digit is read back from its digit written in either
/// case, and a character is a hex digit only if it is one of those two
/// spellings of its value: case never changes what a digit is worth.
pub proof fn lemma_hex_digits_read_in_either_case(v: int, c: char)
    requires
        0 <= v < 16,
    ensures
        hex_digit(lower_hex(v)) == Some(v),
        hex_digit(upper_hex(v)) == Some(v),
        hex_digit(c) == Some(v) ==> c == lower_hex(v) || c == upper_hex(v),
        hex_digit(c) matches Some(w) ==> 0 <= w < 16,
{
}

/// Two hex digits read as a byte, the first the high one.
pub open spec fn hex_byte(a: char, b: char) -> Option<int> {
    match (hex_digit(a), hex_digit(b)) {
        (Some(high), Some(low)) => Some(high * 16 + low),
        _ => None,
    }
}

/// Every byte is read back from its two hex digits, written in either case.
pub proof fn lemma_hex_bytes_read_in_either_case(n: int)
    requires
        0 <= n < 256,
    ensures
        hex_byte(lower_hex(n / 16), lower_hex(n % 16)) == Some(n),
        hex_byte(upper_hex(n / 16), upper_hex(n % 16)) == Some(n),
{
    lemma_hex_digits_read_in_either_case(n / 16, 'x');
    lemma_hex_digits_read_in_either_case(n % 16, 'x');
}

/// The colour `text` spells, or what is wrong with it.
#[verifier::opaque]
pub open spec fn colour_of(text: Seq<char>) -> Result<Ink, ColourProblem> {
    let t = trimmed(text);
    if t.len() > 0 && t[0] == '#' {
        let hex = t.skip(1);
        if hex.len() == 6 {
            match (hex_byte(hex[0], hex[1]), hex_byte(hex[2], hex[3]), hex_byte(hex[4], hex[5])) {
                (Some(r), Some(g), Some(b)) => Ok(Ink::Rgb(r as u8, g as u8, b as u8)),
                _ => Err(ColourProblem::NotHex),
            }
        } else {
            Err(ColourProblem::NotHex)
        }
    } else {
        match ansi_slot(t) {
            Some(slot) => Ok(Ink::Ansi(slot)),
            None => Err(ColourProblem::Unknown),
        }
    }
}

proof fn lemma_lead_end(s: Seq<char>, from: int)
    requires
        0 <= from <= s.len(),
    ensures
        from <= lead_end(s, from) <= s.len(),
    decreases s.len() - from,
{
    if from < s.len() && is_white_space(s[from]) {
        lemma_lead_end(s, from + 1);
    }
}

proof fn lemma_trail_start(s: Seq<char>, to: int, floor: int)
    requires
        0 <= floor <= to <= s.len(),
    ensures
        floor <= trail_start(s, to, floor) <= to,
    decreases to - floor,
{
    if to > floor && is_white_space(s[to - 1]) {
        lemma_trail_start(s, to - 1, floor);
    }
}

/// Whether `c` is whitespace.
pub fn white_space(c: char) -> (ws: bool)
    ensures
        ws == is_white_space(c),
{
    ('\u{9}' <= c && c <= '\u{d}') || c == ' ' || c == '\u{85}' || c == '\u{a0}' || c == '\u{1680}'
        || ('\u{2000}' <= c && c <= '\u{200a}') || c == '\u{2028}' || c == '\u{2029}' || c
        == '\u{202f}' || c == '\u{205f}' || c == '\u{3000}'
}

fn digit(c: char) -> (value: Option<u8>)
    ensures
        match value {
            Some(v) => hex_digit(c) == Some(v as int),
            None => hex_digit(c) is None,
        },
{
    if '0' <= c && c <= '9' {
        Some((c as u32 - 48) as u8)
    } else if 'a' <= c && c <= 'f' {
        Some((c as u32 - 87) as u8)
    } else if 'A' <= c && c <= 'F' {
        Some((c as u32 - 55) as u8)
    } else {
        None
    }
}

fn channel(a: char, b: char) -> (value: Option<u8>)
    ensures
        match value {
            Some(v) => hex_byte(a, b) == Some(v as int),
            None => hex_byte(a, b) is None,
        },
{
    match (digit(a), digit(b)) {
        (Some(high), Some(low)) => Some(high * 16 + low),
        _ => None,
    }
}

/// `#rrggbb`, or one of the sixteen ANSI names, with whitespace either side.
pub fn parse_color(text: &str) -> (parsed: Result<Ink, ColourError>)
    ensures
        match parsed {
            Ok(ink) => colour_of(text@) == Ok::<Ink, ColourProblem>(ink),
            Err(e) => colour_of(text@) == Err::<Ink, ColourProblem>(e.problem) && e.text@ == trimmed(
                text@,
            ),
        },
{
    reveal(colour_of);
    let s = Ghost(text@);
    let n = text.unicode_len();
    let mut lo: usize = 0;
    while lo < n && white_space(text.get_char(lo))
        invariant
            n == s@.len(),
            s@ == text@,
            lo <= n,
            lead_end(s@, lo as int) == lead_end(s@, 0),
        decreases n - lo,
    {
        lo += 1;
    }
    let mut hi: usize = n;
    proof {
        lemma_lead_end(s@, 0);
    }
    while hi > lo && white_space(text.get_char(hi - 1))
        invariant
            n == s@.len(),
            s@ == text@,
            lo <= hi <= n,
            lo == lead_end(s@, 0),
            trail_start(s@, hi as int, lo as int) == trail_start(s@, n as int, lo as int),
        decreases hi - lo,
    {
        hi -= 1;
    }
    let t = text.substring_char(lo, hi);
    proof {
        assert(t@ =~= trimmed(text@));
    }
    let len = hi - lo;
    if len > 0 && t.get_char(0) == '#' {
        if len == 7 {
            let r = channel(t.get_char(1), t.get_char(2));
            let g = channel(t.get_char(3), t.get_char(4));
            let b = channel(t.get_char(5), t.get_char(6));
            match (r, g, b) {
                (Some(r), Some(g), Some(b)) => {
                    return Ok(Ink::Rgb(r, g, b));
                },
                _ => {},
            }
        }
        return Err(ColourError { problem: ColourProblem::NotHex, text: String::from_str(t) });
    }
    // A name stays a name, for the terminal to paint from its own palette.
    match Ink::from_name(t) {
        Some(ink) => Ok(ink),
        None => Err(ColourError { problem: ColourProblem::Unknown, text: String::from_str(t) }),
    }
}

} // verus!

verus! {

/// One colour, or a full ladder of them, as a theme file writes a ramp.
#[derive(Debug, Clone, PartialEq, Eq)]
pub enum Ladder {
    One(String),
    Many(Vec<String>),
}

/// Why a ramp could not be read.
#[derive(Debug, Clone, PartialEq, Eq)]
pub enum LadderError {
    /// A ladder must be one colour or exactly as many as the ramp has stops.
    Length { wanted: usize, found: usize },
    /// One of its colours did not parse.
    Colour(ColourError),
}

/// Index of the first of `names` that is not a colour, or its length.
pub open spec fn first_bad(names: Seq<String>, from: int) -> int
    decreases names.len() - from,
{
    if from < 0 || from >= names.len() {
        names.len() as int
    } else if colour_of(names[from]@) is Err {
        from
    } else {
        first_bad(names, from + 1)
    }
}

impl Ladder {
    /// Resolve to exactly `len` colours.
    ///
    /// A single colour repeats; a ladder must already be the right length.
    /// Padding a short one would put an arbitrary colour at the top of the
    /// ramp, which looks like a rendering bug later.
    pub fn expand(&self, len: usize) -> (ramp: Result<Vec<Ink>, LadderError>)
        ensures
            self matches Ladder::One(name) ==> (match colour_of(name@) {
                Ok(ink) => ramp matches Ok(inks) && inks@ == Seq::new(len as nat, |i: int| ink),
                Err(problem) => ramp matches Err(LadderError::Colour(e)) && e.problem == problem
                    && e.text@ == trimmed(name@),
            }),
            self matches Ladder::Many(names) ==> names@.len() != len ==> ramp == Err::<Vec<Ink>, LadderError>(
                LadderError::Length { wanted: len, found: names@.len() as usize },
            ),
            self matches Ladder::Many(names) ==> names@.len() == len && first_bad(names@, 0) < len ==> (
            ramp matches Err(LadderError::Colour(e)) && colour_of(names@[first_bad(names@, 0)]@) == Err::<
                Ink,
                ColourProblem,
            >(e.problem) && e.text@ == trimmed(names@[first_bad(names@, 0)]@)),
            self matches Ladder::Many(names) ==> names@.len() == len && first_bad(names@, 0) >= len ==> (
            ramp matches Ok(inks) && inks@.len() == len && forall|i: int|
                0 <= i < len ==> Ok::<Ink, ColourProblem>(#[trigger] inks@[i]) == colour_of(names@[i]@)),
    {
        match self {
            Ladder::One(name) => {
                let ink = match parse_color(name.as_str()) {
                    Ok(ink) => ink,
                    Err(e) => {
                        return Err(LadderError::Colour(e));
                    },
                };
                let mut inks: Vec<Ink> = Vec::new();
                let mut i: usize = 0;
                while i < len
                    invariant
                        i <= len,
                        inks@ == Seq::new(i as nat, |k: int| ink),
                    decreases len - i,
                {
                    inks.push(ink);
                    i += 1;
                    proof {
                        assert(inks@ =~= Seq::new(i as nat, |k: int| ink));
                    }
                }
                Ok(inks)
            },
            Ladder::Many(names) => {
                if names.len() != len {
                    return Err(LadderError::Length { wanted: len, found: names.len() });
                }
                let mut inks: Vec<Ink> = Vec::new();
                let mut i: usize = 0;
                while i < len
                    invariant
                        *self == Ladder::Many(*names),
                        len == names@.len(),
                        i <= len,
                        inks@.len() == i,
                        forall|j: int| 0 <= j < i ==> #[trigger] colour_of(names@[j]@) is Ok,
                        forall|j: int|
                            0 <= j < i ==> Ok::<Ink, ColourProblem>(#[trigger] inks@[j]) == colour_of(
                                names@[j]@,
                            ),
                        first_bad(names@, 0) == first_bad(names@, i as int),
                    decreases len - i,
                {
                    match parse_color(names[i].as_str()) {
                        Ok(ink) => {
                            inks.push(ink);
                        },
                        Err(e) => {
                            proof {
                                assert(first_bad(names@, i as int) == i);
                            }
                            return Err(LadderError::Colour(e));
                        },
                    }
                    proof {
                        assert(first_bad(names@, i as int) == first_bad(names@, i + 1));
                    }
                    i += 1;
                }
                Ok(inks)
            },
        }
    }
}

} // verus!
