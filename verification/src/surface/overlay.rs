//! Writing the status line and the help panel over a picture made of pixels.
//!
//! A written cell blanks the image beneath it, so a pixel surface cannot let
//! its overlay paint the whole grid. The overlay renders into a grid of its
//! own and only **the cells it actually touched** are written; the rest of the
//! picture survives.

use vstd::prelude::*;
use vstd::string::StringExecFns;
use crate::strings::{decimal, lemma_decimal_is_injective, push_decimal, same_text};
use crate::ui::grid::{Cell, Grid, well_formed};
use crate::visual::colors::Color;

verus! {

/// One colour as its SGR parameters: truecolour where the theme gave an exact
/// colour, and the palette slot where it named one.
pub open spec fn sgr(colour: Color, foreground: bool) -> Seq<char> {
    let base: nat = if foreground { 30 } else { 40 };
    let bright: nat = if foreground { 90 } else { 100 };
    match colour {
        Color::Reset => decimal(base + 9),
        Color::Rgb(r, g, b) => decimal(base + 8) + ";2;"@ + decimal(r as nat) + ";"@ + decimal(g as nat)
            + ";"@ + decimal(b as nat),
        Color::Indexed(i) => decimal(base + 8) + ";5;"@ + decimal(i as nat),
        Color::Black => decimal(base),
        Color::Red => decimal(base + 1),
        Color::Green => decimal(base + 2),
        Color::Yellow => decimal(base + 3),
        Color::Blue => decimal(base + 4),
        Color::Magenta => decimal(base + 5),
        Color::Cyan => decimal(base + 6),
        Color::Gray => decimal(base + 7),
        Color::DarkGray => decimal(bright),
        Color::LightRed => decimal(bright + 1),
        Color::LightGreen => decimal(bright + 2),
        Color::LightYellow => decimal(bright + 3),
        Color::LightBlue => decimal(bright + 4),
        Color::LightMagenta => decimal(bright + 5),
        Color::LightCyan => decimal(bright + 6),
        Color::White => decimal(bright + 7),
    }
}

/// The colour a terminal palette holds in each of its sixteen slots: the
/// eight standard colours, then their bright forms. Slot 7 is the standard
/// white, which the library calls `Gray`, and slot 8 the bright black it calls
/// `DarkGray`.
pub open spec fn slot_colour(slot: int) -> Color {
    if slot == 0 { Color::Black }
    else if slot == 1 { Color::Red }
    else if slot == 2 { Color::Green }
    else if slot == 3 { Color::Yellow }
    else if slot == 4 { Color::Blue }
    else if slot == 5 { Color::Magenta }
    else if slot == 6 { Color::Cyan }
    else if slot == 7 { Color::Gray }
    else if slot == 8 { Color::DarkGray }
    else if slot == 9 { Color::LightRed }
    else if slot == 10 { Color::LightGreen }
    else if slot == 11 { Color::LightYellow }
    else if slot == 12 { Color::LightBlue }
    else if slot == 13 { Color::LightMagenta }
    else if slot == 14 { Color::LightCyan }
    else { Color::White }
}

/// A palette colour is selected by the standard SGR parameter for its slot:
/// 30 to 37 then 90 to 97 for the foreground, 40 to 47 then 100 to 107 for the
/// background; the terminal's default colour is 39 and 49.
pub proof fn lemma_a_named_colour_selects_its_slot(slot: int, foreground: bool)
    requires
        0 <= slot < 16,
    ensures
        sgr(slot_colour(slot), foreground) == decimal(
            ((if foreground { 30int } else { 40int }) + (if slot < 8 { slot } else { 60 + slot - 8 })) as nat,
        ),
        sgr(Color::Reset, foreground) == decimal(if foreground { 39nat } else { 49nat }),
{
}

/// No two palette colours, and none of them and the default colour, are
/// written with the same parameter: a terminal can tell every one apart.
pub proof fn lemma_named_colours_are_told_apart(a: int, b: int, foreground: bool)
    requires
        0 <= a < 16,
        0 <= b < 16,
        a != b,
    ensures
        sgr(slot_colour(a), foreground) != sgr(slot_colour(b), foreground),
        sgr(slot_colour(a), foreground) != sgr(Color::Reset, foreground),
{
    let base: int = if foreground { 30 } else { 40 };
    let ka: int = base + if a < 8 { a } else { 60 + a - 8 };
    let kb: int = base + if b < 8 { b } else { 60 + b - 8 };
    lemma_a_named_colour_selects_its_slot(a, foreground);
    lemma_a_named_colour_selects_its_slot(b, foreground);
    if sgr(slot_colour(a), foreground) == sgr(slot_colour(b), foreground) {
        lemma_decimal_is_injective(ka as nat, kb as nat);
    }
    if sgr(slot_colour(a), foreground) == sgr(Color::Reset, foreground) {
        lemma_decimal_is_injective(ka as nat, (base + 9) as nat);
    }
}

/// The SGR sequence that sets a cell's colours.
pub open spec fn sgr_pair(fg: Color, bg: Color) -> Seq<char> {
    "\x1b["@ + sgr(fg, true) + ";"@ + sgr(bg, false) + "m"@
}

/// Append one colour's SGR parameters.
pub fn code(out: &mut String, colour: Color, foreground: bool)
    ensures
        final(out)@ == old(out)@ + sgr(colour, foreground),
{
    let base: u64 = if foreground { 30 } else { 40 };
    let bright: u64 = if foreground { 90 } else { 100 };
    match colour {
        Color::Reset => push_decimal(out, base + 9),
        Color::Rgb(r, g, b) => {
            push_decimal(out, base + 8);
            out.append(";2;");
            push_decimal(out, r as u64);
            out.append(";");
            push_decimal(out, g as u64);
            out.append(";");
            push_decimal(out, b as u64);
        },
        Color::Indexed(i) => {
            push_decimal(out, base + 8);
            out.append(";5;");
            push_decimal(out, i as u64);
        },
        Color::Black => push_decimal(out, base),
        Color::Red => push_decimal(out, base + 1),
        Color::Green => push_decimal(out, base + 2),
        Color::Yellow => push_decimal(out, base + 3),
        Color::Blue => push_decimal(out, base + 4),
        Color::Magenta => push_decimal(out, base + 5),
        Color::Cyan => push_decimal(out, base + 6),
        Color::Gray => push_decimal(out, base + 7),
        Color::DarkGray => push_decimal(out, bright),
        Color::LightRed => push_decimal(out, bright + 1),
        Color::LightGreen => push_decimal(out, bright + 2),
        Color::LightYellow => push_decimal(out, bright + 3),
        Color::LightBlue => push_decimal(out, bright + 4),
        Color::LightMagenta => push_decimal(out, bright + 5),
        Color::LightCyan => push_decimal(out, bright + 6),
        Color::White => push_decimal(out, bright + 7),
    }
    proof {
        assert(final(out)@ =~= old(out)@ + sgr(colour, foreground));
    }
}

/// The SGR sequence that sets a cell's colours.
pub fn colours(fg: Color, bg: Color) -> (out: String)
    ensures
        out@ == sgr_pair(fg, bg),
{
    let mut out = String::from_str("\x1b[");
    code(&mut out, fg, true);
    out.append(";");
    code(&mut out, bg, false);
    out.append("m");
    proof {
        assert(out@ =~= sgr_pair(fg, bg));
    }
    out
}

/// Whether a widget left something in a cell: a symbol other than a space, or
/// any background at all. A space with a background is how a panel is filled.
pub open spec fn touched(cell: Cell) -> bool {
    !(cell.symbol@ == " "@ && cell.bg == Color::Reset)
}

/// What is written for cell `k` of `grid`: nothing if it was left alone, else
/// the cursor moved to it (1-based), its colours, its symbol, and a reset.
pub open spec fn cell_text(grid: Grid, k: int) -> Seq<char> {
    let cell = grid.cells@[k];
    let x = grid.area.x + k % (grid.area.width as int);
    let y = grid.area.y + k / (grid.area.width as int);
    if touched(cell) {
        "\x1b["@ + decimal((y + 1) as nat) + ";"@ + decimal((x + 1) as nat) + "H"@ + sgr_pair(cell.fg, cell.bg)
            + cell.symbol@ + "\x1b[0m"@
    } else {
        Seq::empty()
    }
}

/// The escapes for the first `k` cells of `grid`, row by row.
pub open spec fn written_upto(grid: Grid, k: int) -> Seq<char>
    decreases k,
{
    if k <= 0 {
        Seq::empty()
    } else {
        written_upto(grid, k - 1) + cell_text(grid, k - 1)
    }
}

/// Append what is written for cell `k` of `grid`.
fn write_cell(out: &mut String, grid: &Grid, k: usize)
    requires
        well_formed(*grid),
        k < grid.cells@.len(),
    ensures
        final(out)@ == old(out)@ + cell_text(*grid, k as int),
{
    let width = grid.area.width;
    let n = grid.cells.len();
    proof {
        assert(width > 0) by (nonlinear_arith)
            requires k < n, n == width as int * grid.area.height as int;
        assert((k as int) / (width as int) < grid.area.height as int) by (nonlinear_arith)
            requires width > 0, 0 <= k < n, n == width as int * grid.area.height as int;
    }
    let cell = &grid.cells[k];
    let untouched = same_text(cell.symbol.as_str(), " ") && cell.bg == Color::Reset;
    if !untouched {
        let x: u64 = grid.area.x as u64 + (k % width as usize) as u64;
        let y: u64 = grid.area.y as u64 + (k / width as usize) as u64;
        out.append("\x1b[");
        push_decimal(out, y + 1);
        out.append(";");
        push_decimal(out, x + 1);
        out.append("H");
        let sgr = colours(cell.fg, cell.bg);
        out.append(sgr.as_str());
        out.append(cell.symbol.as_str());
        out.append("\x1b[0m");
    }
    proof {
        assert(final(out)@ =~= old(out)@ + cell_text(*grid, k as int));
    }
}

/// The escapes for every cell a widget left something in.
///
/// Cells are addressed one at a time rather than in runs: a wrong run is a
/// smear across the picture. The cursor is reset after each, because the next
/// frame is placed from wherever it is left.
pub fn written(grid: &Grid) -> (out: String)
    requires
        well_formed(*grid),
    ensures
        out@ == written_upto(*grid, grid.cells@.len() as int),
{
    let mut out = String::new();
    let n = grid.cells.len();
    let mut k: usize = 0;
    while k < n
        invariant
            n == grid.cells@.len(),
            well_formed(*grid),
            k <= n,
            out@ == written_upto(*grid, k as int),
        decreases n - k,
    {
        write_cell(&mut out, grid, k);
        k += 1;
    }
    out
}

/// A grid nobody drew on writes nothing at all: one stray space would blank
/// the picture beneath it.
pub proof fn lemma_an_untouched_grid_writes_nothing(grid: Grid, k: int)
    requires
        0 <= k <= grid.cells@.len(),
        forall|i: int| 0 <= i < grid.cells@.len() ==> !touched(#[trigger] grid.cells@[i]),
    ensures
        written_upto(grid, k) == Seq::<char>::empty(),
    decreases k,
{
    if k > 0 {
        lemma_an_untouched_grid_writes_nothing(grid, k - 1);
        assert(written_upto(grid, k) =~= Seq::<char>::empty());
    }
}

} // verus!
