//! Placing text in a frame, for the surfaces that have no terminal to do it.
//!
//! A window has no font stack, so the help panel is drawn a glyph at a time out
//! of a bitmap. This knows how to place glyphs and nothing about what they look
//! like: a [`Bitmap`] is whatever supplies rows of bits.

use vstd::prelude::*;
use vstd::string::StrSliceExecFns;
use crate::ui::help::{Area, Help, HelpRow, panel_fits_u16, panel_in};

verus! {

/// A monospaced bitmap font: fixed cell, one bit per pixel, rows top-first.
pub trait Bitmap {
    /// The cell size the font declares, in pixels.
    spec fn spec_cell(&self) -> (u32, u32);

    /// Whether the font carries `ch`.
    spec fn spec_carries(&self, ch: char) -> bool;

    /// The byte `rows` leaves at index `k` of a buffer `len` rows long that
    /// held `before` there, when asked for a character the font carries.
    spec fn spec_row(&self, ch: char, len: usize, k: usize, before: u8) -> u8;

    /// Which end of a row byte holds the font's leftmost pixel.
    spec fn spec_leftmost(&self) -> Leftmost;

    /// Cell size in pixels, the same for every glyph.
    fn cell(&self) -> (size: (u32, u32))
        ensures
            size == self.spec_cell(),
    ;

    /// Write one row per pixel of height into `into`, and say whether the
    /// font carries that character. One byte a row, so eight columns.
    fn rows(&self, ch: char, into: &mut [u8]) -> (carried: bool)
        ensures
            final(into)@.len() == old(into)@.len(),
            carried == self.spec_carries(ch),
            carried ==> forall|k: int|
                0 <= k < old(into)@.len() ==> #[trigger] final(into)@[k] == self.spec_row(
                    ch,
                    old(into)@.len() as usize,
                    k as usize,
                    old(into)@[k],
                ),
    ;

    /// Which end of a row byte holds the leftmost pixel. Every font says:
    /// `A` reads correctly either way round, so a font that left it to a
    /// default would ship mirrored until somebody typed an `L`.
    fn leftmost(&self) -> (end: Leftmost)
        ensures
            end == self.spec_leftmost(),
    ;
}

/// Where a row byte keeps its leftmost pixel.
#[derive(Debug, Clone, Copy, PartialEq, Eq, Structural)]
pub enum Leftmost {
    /// Bit 7 first, reading the byte as it is written.
    HighBit,
    /// Bit 0 first, which is what `font8x8` does.
    LowBit,
}

/// Whether column `column` (from the left) of a row byte is lit.
pub open spec fn lit(bits: u8, leftmost: Leftmost, column: int) -> bool {
    match leftmost {
        Leftmost::HighBit => (bits >> ((7 - column) as u8)) & 1 == 1,
        Leftmost::LowBit => (bits >> (column as u8)) & 1 == 1,
    }
}

impl Leftmost {
    /// The mask for a column, counted from the left.
    pub fn mask(self, column: u32) -> (mask: u8)
        requires
            column < 8,
        ensures
            mask == match self {
                Leftmost::HighBit => 0x80u8 >> (column as u8),
                Leftmost::LowBit => 1u8 << (column as u8),
            },
    {
        match self {
            Leftmost::HighBit => 0x80u8 >> (column as u8),
            Leftmost::LowBit => 1u8 << (column as u8),
        }
    }
}

/// Whether `bits` lights `column`, tested the way a renderer does: through the
/// column's mask.
fn is_lit(bits: u8, leftmost: Leftmost, column: u32) -> (on: bool)
    requires
        column < 8,
    ensures
        on == lit(bits, leftmost, column as int),
{
    let mask = leftmost.mask(column);
    let c = column as u8;
    proof {
        match leftmost {
            Leftmost::HighBit => {
                assert((bits & (0x80u8 >> c) != 0) == ((bits >> (7 - c) as u8) & 1 == 1)) by (bit_vector)
                    requires c < 8;
            },
            Leftmost::LowBit => {
                assert((bits & (1u8 << c) != 0) == ((bits >> c) & 1 == 1)) by (bit_vector)
                    requires c < 8;
            },
        }
    }
    bits & mask != 0
}

/// The lit runs of a row, as `(first column, length)`: left to right, each
/// as long as it goes, separated by at least one unlit column.
pub open spec fn are_runs(bits: u8, leftmost: Leftmost, columns: int, runs: Seq<(u32, u32)>) -> bool {
    &&& forall|r: int| 0 <= r < runs.len() ==> #[trigger] runs[r].1 > 0
    &&& forall|r: int| 0 <= r < runs.len() ==> #[trigger] runs[r].0 + runs[r].1 <= columns
    &&& forall|r: int, c: int|
        #![trigger runs[r], lit(bits, leftmost, c)]
        0 <= r < runs.len() && runs[r].0 <= c < runs[r].0 + runs[r].1 ==> lit(bits, leftmost, c)
    &&& forall|r: int| 0 <= r < runs.len() && runs[r].0 > 0 ==> !lit(bits, leftmost, runs[r].0 - 1)
    &&& forall|r: int|
        0 <= r < runs.len() && runs[r].0 + runs[r].1 < columns ==> !lit(
            bits,
            leftmost,
            runs[r].0 + runs[r].1,
        )
    &&& forall|r: int| 0 < r < runs.len() ==> runs[r - 1].0 + runs[r - 1].1 < #[trigger] runs[r].0
    &&& forall|c: int|
        0 <= c < columns && #[trigger] lit(bits, leftmost, c) ==> exists|r: int|
            0 <= r < runs.len() && #[trigger] runs[r].0 <= c < runs[r].0 + runs[r].1
}

/// The runs of lit pixels in one row of a glyph, `columns` wide.
///
/// A run at a time rather than a pixel at a time: a filled span is one
/// rectangle, and a help panel is mostly horizontal strokes.
pub fn runs(bits: u8, leftmost: Leftmost, columns: u32) -> (found: Vec<(u32, u32)>)
    requires
        columns <= 8,
    ensures
        are_runs(bits, leftmost, columns as int, found@),
{
    let mut found: Vec<(u32, u32)> = Vec::new();
    let mut col: u32 = 0;
    while col < columns
        invariant
            columns <= 8,
            col <= columns,
            forall|r: int| 0 <= r < found@.len() ==> #[trigger] found@[r].1 > 0,
            forall|r: int| 0 <= r < found@.len() ==> #[trigger] found@[r].0 + found@[r].1 <= col,
            forall|r: int, c: int|
                #![trigger found@[r], lit(bits, leftmost, c)]
                0 <= r < found@.len() && found@[r].0 <= c < found@[r].0 + found@[r].1 ==> lit(bits, leftmost, c),
            forall|r: int| 0 <= r < found@.len() && found@[r].0 > 0 ==> !lit(bits, leftmost, found@[r].0 - 1),
            forall|r: int|
                0 <= r < found@.len() && found@[r].0 + found@[r].1 < columns ==> !lit(
                    bits,
                    leftmost,
                    found@[r].0 + found@[r].1,
                ),
            forall|r: int| 0 < r < found@.len() ==> found@[r - 1].0 + found@[r - 1].1 < #[trigger] found@[r].0,
            found@.len() > 0 && found@.last().0 + found@.last().1 < col ==> !lit(
                bits,
                leftmost,
                found@.last().0 + found@.last().1,
            ),
            found@.len() > 0 ==> found@.last().0 + found@.last().1 < col || found@.last().0
                + found@.last().1 == col,
            col > 0 && (found@.len() == 0 || found@.last().0 + found@.last().1 < col) ==> !lit(
                bits,
                leftmost,
                col - 1,
            ),
            forall|c: int|
                0 <= c < col && #[trigger] lit(bits, leftmost, c) ==> exists|r: int|
                    0 <= r < found@.len() && #[trigger] found@[r].0 <= c < found@[r].0 + found@[r].1,
        decreases columns - col,
    {
        if !is_lit(bits, leftmost, col) {
            col += 1;
            continue;
        }
        let start = col;
        let ghost covered = found@;
        proof {
            assert(forall|c: int| 0 <= c < start && #[trigger] lit(bits, leftmost, c) ==> exists|r: int|
                0 <= r < covered.len() && #[trigger] covered[r].0 <= c < covered[r].0 + covered[r].1);
        }
        while col < columns && is_lit(bits, leftmost, col)
            invariant
                columns <= 8,
                start < columns,
                start <= col <= columns,
                lit(bits, leftmost, start as int),
                forall|c: int| start <= c < col ==> #[trigger] lit(bits, leftmost, c),
            decreases columns - col,
        {
            col += 1;
        }
        let ghost before = found@;
        found.push((start, col - start));
        proof {
            assert forall|c: int| 0 <= c < col && #[trigger] lit(bits, leftmost, c) implies exists|r: int|
                0 <= r < found@.len() && #[trigger] found@[r].0 <= c < found@[r].0 + found@[r].1 by {
                if c < start {
                    let r = choose|r: int| 0 <= r < before.len() && #[trigger] before[r].0 <= c < before[r].0 + before[r].1;
                    assert(found@[r] == before[r]);
                    assert(0 <= r < found@.len() && found@[r].0 <= c < found@[r].0 + found@[r].1);
                } else {
                    let r = before.len() as int;
                    assert(found@[r] == (start, (col - start) as u32));
                    assert(0 <= r < found@.len() && found@[r].0 <= c < found@[r].0 + found@[r].1);
                }
            }
        }
    }
    found
}

/// How wide `count` characters are in cells `across` pixels wide, in the
/// `u32` arithmetic a frame is measured in.
pub open spec fn text_width(across: u32, count: nat) -> u32 {
    ((across as int * (count as u32) as int) % 0x1_0000_0000) as u32
}

/// How wide that text is, in pixels, in cells `across` pixels wide.
pub fn width_in(across: u32, text: &str) -> (wide: u32)
    ensures
        wide == text_width(across, text@.len()),
{
    let count = text.unicode_len();
    let count32: u32 = count as u32;
    across.wrapping_mul(count32)
}

/// How wide that text is, in pixels: one cell per character, in cells as
/// wide as `font` says its cells are.
pub fn width<F: Bitmap + ?Sized>(font: &F, text: &str) -> (wide: u32)
    ensures
        wide == text_width(font.spec_cell().0, text@.len()),
{
    let across = font.cell().0;
    let wide = width_in(across, text);
    assert(wide == text_width(across, text@.len()));
    wide
}

} // verus!

verus! {

/// The glyph `font8x8`'s basic table holds for `ch`: eight row bytes, top first.
pub uninterp spec fn basic_glyph(ch: char) -> Seq<u8>;

/// `font8x8::BASIC_FONTS.get`: the basic table covers `U+0000` to `U+007F`, one
/// glyph each, and nothing else.
#[verifier::external_body]
fn basic_font(ch: char) -> (glyph: Option<[u8; 8]>)
    ensures
        glyph is Some <==> (ch as u32) < 128,
        glyph matches Some(rows) ==> rows@ == basic_glyph(ch),
{
    font8x8::UnicodeFonts::get(&font8x8::BASIC_FONTS, ch)
}

/// The bitmap font rav ships with: public domain, 8x8, ASCII.
pub struct Font8x8;

impl Bitmap for Font8x8 {
    open spec fn spec_cell(&self) -> (u32, u32) {
        (8u32, 8u32)
    }

    open spec fn spec_carries(&self, ch: char) -> bool {
        (ch as u32) < 128
    }

    open spec fn spec_row(&self, ch: char, len: usize, k: usize, before: u8) -> u8 {
        if k < 8 { basic_glyph(ch)[k as int] } else { before }
    }

    open spec fn spec_leftmost(&self) -> Leftmost {
        Leftmost::LowBit
    }

    fn cell(&self) -> (cell: (u32, u32))
        ensures
            cell == (8u32, 8u32),
    {
        (8, 8)
    }

    fn rows(&self, ch: char, into: &mut [u8]) -> (carried: bool)
        ensures
            carried == ((ch as u32) < 128),
            final(into)@.len() == old(into)@.len(),
            carried ==> forall|k: int|
                0 <= k < old(into)@.len() ==> #[trigger] final(into)@[k] == if k < 8 {
                    basic_glyph(ch)[k]
                } else {
                    old(into)@[k]
                },
            !carried ==> final(into)@ == old(into)@,
    {
        // The basic table covers ASCII, which is all the panel writes.
        match basic_font(ch) {
            Some(glyph) => {
                let n = if into.len() < 8 { into.len() } else { 8 };
                let mut k: usize = 0;
                while k < n
                    invariant
                        n <= 8,
                        n <= into@.len(),
                        n == if old(into)@.len() < 8 { old(into)@.len() } else { 8 },
                        into@.len() == old(into)@.len(),
                        glyph@ == basic_glyph(ch),
                        k <= n,
                        forall|j: int| 0 <= j < k ==> #[trigger] into@[j] == glyph@[j],
                        forall|j: int| k <= j < into@.len() ==> #[trigger] into@[j] == old(into)@[j],
                    decreases n - k,
                {
                    into[k] = glyph[k];
                    k += 1;
                }
                true
            },
            None => false,
        }
    }

    /// `font8x8` keeps the leftmost pixel in bit 0.
    fn leftmost(&self) -> (end: Leftmost)
        ensures
            end == Leftmost::LowBit,
    {
        Leftmost::LowBit
    }
}

/// How many whole cells of `cell` pixels fit in `pixels`, saturated at what a
/// `u16` holds.
pub open spec fn cells_in(pixels: u32, cell: u32) -> u16 {
    if pixels / cell > 65535 { 65535u16 } else { (pixels / cell) as u16 }
}

/// Where the help panel goes in a frame of `screen` pixels, drawn in cells of
/// `cell` pixels: the terminal panel's layout, in pixels.
pub open spec fn panel_pixels(
    cell: (u32, u32),
    rows: Seq<HelpRow>,
    title: Seq<char>,
    screen: (u32, u32),
) -> Option<(u32, u32, u32, u32)> {
    let (across, down) = cell;
    if across == 0 || down == 0 {
        None
    } else {
        let area = Area { x: 0, y: 0, width: cells_in(screen.0, across), height: cells_in(screen.1, down) };
        let at = panel_in(rows, title, area);
        if at.width == 0 || at.height == 0 {
            None
        } else {
            Some(
                (
                    (at.x * across) as u32,
                    (at.y * down) as u32,
                    (at.width * across) as u32,
                    (at.height * down) as u32,
                ),
            )
        }
    }
}

/// What the panel's own width arithmetic needs to stay inside a `u16`.
pub open spec fn panel_text_fits(rows: Seq<HelpRow>, title: Seq<char>) -> bool {
    panel_fits_u16(rows, title, Area { x: 0, y: 0, width: 0, height: 0 })
}

fn cells(pixels: u32, cell: u32) -> (n: u16)
    requires
        cell > 0,
    ensures
        n == cells_in(pixels, cell),
{
    // Saturating, not truncating: `as u16` on a window wide enough to hold
    // more than 65535 cells would wrap to a small number.
    let n = pixels / cell;
    if n > 65535 { 65535 } else { n as u16 }
}

/// The help panel's place in a frame, in pixels, for a font whose cell is
/// `cell`: `(x, y, width, height)`, or `None` where there is no room.
///
/// The layout is the terminal's - [`Help::panel`] decides where it sits and how
/// big it is, in cells - multiplied by the font's cell to reach pixels, so it
/// always sits on whole cells and inside the screen.
pub fn help_area_in(
    cell: (u32, u32),
    rows: &[HelpRow<'_>],
    title: &str,
    screen: (u32, u32),
) -> (placed: Option<(u32, u32, u32, u32)>)
    requires
        panel_text_fits(rows@, title@),
    ensures
        placed == panel_pixels(cell, rows@, title@, screen),
        placed matches Some(at) ==> at.0 + at.2 <= screen.0 && at.1 + at.3 <= screen.1,
        placed matches Some(at) ==> at.0 % cell.0 == 0 && at.1 % cell.1 == 0,
        placed matches Some(at) ==> at.2 > 0 && at.3 > 0,
{
    let (across, down) = cell;
    if across == 0 || down == 0 {
        return None;
    }
    let area = Area { x: 0, y: 0, width: cells(screen.0, across), height: cells(screen.1, down) };
    let at = Help { rows, title }.panel(area);
    if at.width == 0 || at.height == 0 {
        return None;
    }
    proof {
        let w = at.x as int + at.width as int;
        let h = at.y as int + at.height as int;
        assert(w <= area.width);
        assert(h <= area.height);
        assert(area.width as int * across <= screen.0) by (nonlinear_arith)
            requires area.width as int <= screen.0 as int / across as int, across > 0, screen.0 >= 0;
        assert(area.height as int * down <= screen.1) by (nonlinear_arith)
            requires area.height as int <= screen.1 as int / down as int, down > 0, screen.1 >= 0;
        assert(w * across <= area.width as int * across) by (nonlinear_arith)
            requires w <= area.width, across >= 0;
        assert(h * down <= area.height as int * down) by (nonlinear_arith)
            requires h <= area.height, down >= 0;
        assert(at.x as int * across + at.width as int * across == w * across) by (nonlinear_arith)
            requires w == at.x as int + at.width as int;
        assert(at.y as int * down + at.height as int * down == h * down) by (nonlinear_arith)
            requires h == at.y as int + at.height as int;
        assert(at.x as int * across >= 0 && at.width as int * across >= 0) by (nonlinear_arith)
            requires across >= 0;
        assert(at.y as int * down >= 0 && at.height as int * down >= 0) by (nonlinear_arith)
            requires down >= 0;
        assert((at.x as int * across) % across as int == 0) by (nonlinear_arith)
            requires across > 0;
        assert((at.y as int * down) % down as int == 0) by (nonlinear_arith)
            requires down > 0;
        assert(at.width as int * across > 0) by (nonlinear_arith)
            requires at.width > 0, across > 0;
        assert(at.height as int * down > 0) by (nonlinear_arith)
            requires at.height > 0, down > 0;
    }
    Some((at.x as u32 * across, at.y as u32 * down, at.width as u32 * across, at.height as u32 * down))
}

/// Where the help panel goes in a frame of `screen` pixels, drawn in `font`.
pub fn help_area<F: Bitmap + ?Sized>(
    font: &F,
    rows: &[HelpRow<'_>],
    title: &str,
    screen: (u32, u32),
) -> (placed: Option<(u32, u32, u32, u32)>)
    requires
        panel_text_fits(rows@, title@),
    ensures
        placed == panel_pixels(font.spec_cell(), rows@, title@, screen),
        placed matches Some(at) ==> at.0 + at.2 <= screen.0 && at.1 + at.3 <= screen.1,
        placed matches Some(at) ==> at.2 > 0 && at.3 > 0,
{
    let cell = font.cell();
    let placed = help_area_in(cell, rows, title, screen);
    assert(placed == panel_pixels(cell, rows@, title@, screen));
    placed
}

} // verus!

verus! {

/// A filled rectangle of pixels: `(x, y, width, height)`.
pub open spec fn covers(rect: (u32, u32, u32, u32), px: int, py: int) -> bool {
    rect.0 <= px < rect.0 + rect.2 && rect.1 <= py < rect.1 + rect.3
}

/// Whether any of `rects` covers pixel `(px, py)`.
pub open spec fn covered(rects: Seq<(u32, u32, u32, u32)>, px: int, py: int) -> bool {
    exists|k: int| 0 <= k < rects.len() && #[trigger] covers(rects[k], px, py)
}

/// How many rows of a glyph are drawn: the cell's height, cut to the 32 rows
/// a glyph buffer holds.
pub open spec fn drawn_rows(down: u32) -> int {
    if down < 32 { down as int } else { 32 }
}

/// How many columns of a glyph are drawn: the cell's width, cut to the eight
/// a row byte holds. The advance is still the whole cell.
pub open spec fn drawn_columns(across: u32) -> int {
    if across < 8 { across as int } else { 8 }
}

/// Whether a glyph of rows `g` lights column `c` of row `r` of its cell.
pub open spec fn glyph_inks(g: Seq<u8>, leftmost: Leftmost, cell: (u32, u32), c: int, r: int) -> bool {
    0 <= r < drawn_rows(cell.1) && 0 <= c < drawn_columns(cell.0) && lit(g[r], leftmost, c)
}

/// Whether a line of text lights pixel `(px, py)`, counting only its first
/// `upto` characters: the pixel falls in the cell of a character the font
/// carries, and that character's glyph lights it. `glyphs` holds, per
/// character, the rows the font gave for it, or nothing where the font does
/// not carry it.
pub open spec fn inked(
    glyphs: Seq<Option<Vec<u8>>>,
    cell: (u32, u32),
    leftmost: Leftmost,
    origin: (u32, u32),
    upto: int,
    px: int,
    py: int,
) -> bool {
    let across = cell.0 as int;
    let i = (px - origin.0) / across;
    &&& across > 0
    &&& px >= origin.0
    &&& i < upto
    &&& i < glyphs.len()
    &&& glyphs[i] matches Some(g) && glyph_inks(g@, leftmost, cell, (px - origin.0) % across, py - origin.1)
}

/// Which character's cell a column falls in, and where in it.
proof fn lemma_cell_of(x: int, across: int, i: int, px: int)
    requires
        across > 0,
        i >= 0,
    ensures
        (px >= x && (px - x) / across == i) <==> (x + across * i <= px < x + across * i + across),
        (x + across * i <= px < x + across * i + across) ==> (px - x) % across == px - (x + across * i),
        (px >= x && (px - x) / across < i + 1) <==> ((px >= x && (px - x) / across < i) || (x + across * i
            <= px < x + across * i + across)),
{
    if px >= x {
        let q = (px - x) / across;
        let m = (px - x) % across;
        assert(px - x == across * q + m && 0 <= m < across) by (nonlinear_arith)
            requires across > 0, px - x >= 0, q == (px - x) / across, m == (px - x) % across;
        if q < i {
            assert(across * q + m < across * i) by (nonlinear_arith)
                requires q < i, 0 <= m < across, across > 0;
        } else if q > i {
            assert(across * q + m >= across * i + across) by (nonlinear_arith)
                requires q >= i + 1, 0 <= m, across > 0;
        }
    } else {
        assert(across * i >= 0) by (nonlinear_arith)
            requires across > 0, i >= 0;
    }
}

/// Whether column `c` falls in `run`, a `(first column, length)` pair.
pub open spec fn in_run(run: (u32, u32), c: int) -> bool {
    run.0 <= c < run.0 + run.1
}

/// Whether column `c` falls in one of the first `upto` runs.
pub open spec fn run_holds(runs: Seq<(u32, u32)>, upto: int, c: int) -> bool {
    exists|q: int| 0 <= q < upto && #[trigger] in_run(runs[q], c)
}

proof fn lemma_covered_push(prior: Seq<(u32, u32, u32, u32)>, rect: (u32, u32, u32, u32), px: int, py: int)
    ensures
        covered(prior.push(rect), px, py) == (covered(prior, px, py) || covers(rect, px, py)),
{
    let after = prior.push(rect);
    if covered(after, px, py) {
        let k = choose|k: int| 0 <= k < after.len() && #[trigger] covers(after[k], px, py);
        if k < prior.len() {
            assert(after[k] == prior[k]);
            assert(covers(prior[k], px, py));
        }
    }
    if covered(prior, px, py) {
        let k = choose|k: int| 0 <= k < prior.len() && #[trigger] covers(prior[k], px, py);
        assert(after[k] == prior[k]);
        assert(covers(after[k], px, py));
    }
    if covers(rect, px, py) {
        assert(after[prior.len() as int] == rect);
        assert(covers(after[prior.len() as int], px, py));
    }
}

proof fn lemma_run_holds_step(runs: Seq<(u32, u32)>, j: int, c: int)
    requires
        0 <= j < runs.len(),
    ensures
        run_holds(runs, j + 1, c) == (run_holds(runs, j, c) || in_run(runs[j], c)),
{
    if run_holds(runs, j + 1, c) {
        let q = choose|q: int| 0 <= q < j + 1 && #[trigger] in_run(runs[q], c);
        if q < j {
            assert(run_holds(runs, j, c));
        }
    }
    if run_holds(runs, j, c) {
        let q = choose|q: int| 0 <= q < j && #[trigger] in_run(runs[q], c);
        assert(run_holds(runs, j + 1, c));
    }
    if in_run(runs[j], c) {
        assert(run_holds(runs, j + 1, c));
    }
}

/// The runs of a row cover exactly its lit columns.
proof fn lemma_runs_cover(bits: u8, leftmost: Leftmost, columns: int, runs: Seq<(u32, u32)>, c: int)
    requires
        are_runs(bits, leftmost, columns, runs),
    ensures
        run_holds(runs, runs.len() as int, c) == (0 <= c < columns && lit(bits, leftmost, c)),
{
    if run_holds(runs, runs.len() as int, c) {
        let q = choose|q: int| 0 <= q < runs.len() && #[trigger] in_run(runs[q], c);
        assert(runs[q].0 + runs[q].1 <= columns);
        assert(lit(bits, leftmost, c));
    }
    if 0 <= c < columns && lit(bits, leftmost, c) {
        let q = choose|q: int| 0 <= q < runs.len() && #[trigger] runs[q].0 <= c < runs[q].0 + runs[q].1;
        assert(in_run(runs[q], c));
    }
}

/// Whether `glyph`, a glyph's rows or nothing, lights column `c` of row `r`
/// of its cell.
pub open spec fn inks_at(glyph: Option<Vec<u8>>, leftmost: Leftmost, cell: (u32, u32), c: int, r: int) -> bool {
    glyph matches Some(g) && glyph_inks(g@, leftmost, cell, c, r)
}

/// Whether every pixel `glyphs` light, drawn from row `y` down, lies on a row
/// a `u32` can name. Rows a glyph leaves dark may run past it.
pub open spec fn ink_fits(glyphs: Seq<Option<Vec<u8>>>, cell: (u32, u32), leftmost: Leftmost, y: u32) -> bool {
    forall|i: int, c: int, r: int|
        0 <= i < glyphs.len() && #[trigger] inks_at(glyphs[i], leftmost, cell, c, r) ==> y + r <= u32::MAX
}

/// Where a line of text lights pixels, drawn with its top-left corner at
/// `origin` in cells of `cell` pixels: one rectangle per lit run of each row
/// of each glyph, a character at a time, each character one cell along from
/// the last. Returns the rectangles and where the next character would start.
///
/// `glyphs` holds, per character, the rows its font gave - as many as are
/// drawn - or nothing where the font does not carry it, which still takes its
/// cell: a gap reads as a gap.
pub fn text_rects(
    glyphs: &[Option<Vec<u8>>],
    cell: (u32, u32),
    leftmost: Leftmost,
    origin: (u32, u32),
) -> (placed: (Vec<(u32, u32, u32, u32)>, u32))
    requires
        origin.0 + cell.0 * glyphs@.len() <= u32::MAX,
        ink_fits(glyphs@, cell, leftmost, origin.1),
        forall|i: int| 0 <= i < glyphs@.len() ==> (#[trigger] glyphs@[i] matches Some(g) ==> g@.len() == drawn_rows(
            cell.1,
        )),
    ensures
        placed.1 == origin.0 + cell.0 * glyphs@.len(),
        forall|k: int| 0 <= k < placed.0@.len() ==> (#[trigger] placed.0@[k]).3 == 1 && placed.0@[k].2 > 0,
        forall|px: int, py: int|
            covered(placed.0@, px, py) <==> inked(glyphs@, cell, leftmost, origin, glyphs@.len() as int, px, py),
{
    let (across, down) = cell;
    let columns: u32 = if across < 8 { across } else { 8 };
    let height: u32 = if down < 32 { down } else { 32 };
    let (x, y) = origin;
    let n = glyphs.len();
    let mut rects: Vec<(u32, u32, u32, u32)> = Vec::new();
    let mut at: u32 = x;
    let mut i: usize = 0;
    proof {
        assert(across as int * n as int >= 0) by (nonlinear_arith)
            requires across >= 0, n >= 0;
    }
    while i < n
        invariant
            n == glyphs@.len(),
            i <= n,
            columns as int == drawn_columns(across),
            height as int == drawn_rows(down),
            cell == (across, down),
            origin == (x, y),
            x + across * n <= u32::MAX,
            ink_fits(glyphs@, cell, leftmost, y),
            at == x + across * i,
            forall|j: int| 0 <= j < glyphs@.len() ==> (#[trigger] glyphs@[j] matches Some(g) ==> g@.len() == drawn_rows(down)),
            forall|k: int| 0 <= k < rects@.len() ==> (#[trigger] rects@[k]).3 == 1 && rects@[k].2 > 0,
            forall|px: int, py: int| #![trigger covered(rects@, px, py)] covered(rects@, px, py) <==> inked(glyphs@, cell, leftmost, origin, i as int, px, py),
        decreases n - i,
    {
        proof {
            assert(across * i + across <= across * n) by (nonlinear_arith)
                requires i < n, across >= 0;
            assert(across * (i + 1) == across * i + across) by (nonlinear_arith);
        }
        let ghost before = rects@;
        match &glyphs[i] {
            Some(g) => {
                let mut r: u32 = 0;
                while r < height
                    invariant
                        n == glyphs@.len(),
                        i < n,
                        columns as int == drawn_columns(across),
                        height as int == drawn_rows(down),
                        cell == (across, down),
                        origin == (x, y),
                        ink_fits(glyphs@, cell, leftmost, y),
                        at == x + across * i,
                        at + across <= u32::MAX,
                        glyphs@[i as int] == Some(*g),
                        g@.len() == height,
                        r <= height,
                        forall|k: int| 0 <= k < rects@.len() ==> (#[trigger] rects@[k]).3 == 1 && rects@[k].2 > 0,
                        forall|px: int, py: int| #![trigger covered(rects@, px, py)]
                            covered(rects@, px, py) <==> (covered(before, px, py) || (at <= px < at + across
                                && 0 <= py - y < r && glyph_inks(g@, leftmost, cell, px - at, py - y))),
                    decreases height - r,
                {
                    let found = runs(g[r as usize], leftmost, columns);
                    let ghost row_start = rects@;
                    let mut j: usize = 0;
                    while j < found.len()
                        invariant
                            are_runs(g@[r as int], leftmost, columns as int, found@),
                            columns as int == drawn_columns(across),
                            at + across <= u32::MAX,
                            ink_fits(glyphs@, cell, leftmost, y),
                            n == glyphs@.len(),
                            i < n,
                            glyphs@[i as int] == Some(*g),
                            cell == (across, down),
                            height as int == drawn_rows(down),
                            r < height,
                            g@.len() == height,
                            j <= found@.len(),
                            forall|k: int| 0 <= k < rects@.len() ==> (#[trigger] rects@[k]).3 == 1 && rects@[k].2 > 0,
                            forall|px: int, py: int| #![trigger covered(rects@, px, py)]
                                covered(rects@, px, py) <==> (covered(row_start, px, py) || (py == y + r
                                    && run_holds(found@, j as int, px - at))),
                        decreases found@.len() - j,
                    {
                        let (start, length) = found[j];
                        proof {
                            assert(found@[j as int].0 + found@[j as int].1 <= columns);
                            assert(found@[j as int].1 > 0);
                            let first = found@[j as int].0 as int;
                            assert(lit(g@[r as int], leftmost, first));
                            assert(inks_at(glyphs@[i as int], leftmost, cell, first, r as int));
                        }
                        let rect = (at + start, y + r, length, 1u32);
                        let ghost prior = rects@;
                        rects.push(rect);
                        proof {
                            assert forall|px: int, py: int| #![trigger covered(rects@, px, py)]
                                covered(rects@, px, py) <==> (covered(row_start, px, py) || (py == y + r
                                    && run_holds(found@, j + 1, px - at))) by {
                                lemma_covered_push(prior, rect, px, py);
                                lemma_run_holds_step(found@, j as int, px - at);
                            }
                        }
                        j += 1;
                    }
                    proof {
                        assert forall|px: int, py: int| #![trigger covered(rects@, px, py)]
                            covered(rects@, px, py) <==> (covered(before, px, py) || (at <= px < at + across
                                && 0 <= py - y < r + 1 && glyph_inks(g@, leftmost, cell, px - at, py - y))) by {
                            lemma_runs_cover(g@[r as int], leftmost, columns as int, found@, px - at);
                        }
                    }
                    r += 1;
                }
                proof {
                    assert forall|px: int, py: int| #![trigger covered(rects@, px, py)]
                        covered(rects@, px, py) <==> inked(glyphs@, cell, leftmost, origin, i + 1, px, py) by {
                        if across > 0 {
                            lemma_cell_of(x as int, across as int, i as int, px);
                        }
                    }
                }
            },
            None => {
                proof {
                    assert forall|px: int, py: int| #![trigger covered(rects@, px, py)]
                        covered(rects@, px, py) <==> inked(glyphs@, cell, leftmost, origin, i + 1, px, py) by {
                        if across > 0 {
                            lemma_cell_of(x as int, across as int, i as int, px);
                        }
                    }
                }
            },
        }
        at = at + across;
        i += 1;
    }
    (rects, at)
}

} // verus!

verus! {

/// Whether a font that carries `carries` and gives row `row(ch, r)` of a
/// glyph lights column `c` of row `r` of the cell `ch` is drawn in.
pub open spec fn lights(
    carries: spec_fn(char) -> bool,
    row: spec_fn(char, int) -> u8,
    leftmost: Leftmost,
    cell: (u32, u32),
    ch: char,
    c: int,
    r: int,
) -> bool {
    &&& carries(ch)
    &&& 0 <= r < drawn_rows(cell.1)
    &&& 0 <= c < drawn_columns(cell.0)
    &&& lit(row(ch, r), leftmost, c)
}

/// Whether `text`, drawn from `origin` in such a font with cells of `cell`
/// pixels and bit order `leftmost`, lights pixel `(px, py)`: the pixel falls
/// in the cell of a character the font carries, and that character's glyph
/// lights it.
pub open spec fn font_inked(
    cell: (u32, u32),
    leftmost: Leftmost,
    carries: spec_fn(char) -> bool,
    row: spec_fn(char, int) -> u8,
    text: Seq<char>,
    origin: (u32, u32),
    px: int,
    py: int,
) -> bool {
    let across = cell.0 as int;
    let i = (px - origin.0) / across;
    &&& across > 0
    &&& px >= origin.0
    &&& i < text.len()
    &&& lights(carries, row, leftmost, cell, text[i], (px - origin.0) % across, py - origin.1)
}

/// Whether a line of `text` in such a font, from `origin`, needs a coordinate
/// past what a `u32` holds: its advance runs past it, or a lit pixel falls on
/// a row past it. Dark rows below the last one a `u32` names do not count.
pub open spec fn overflows(
    origin: (u32, u32),
    cell: (u32, u32),
    leftmost: Leftmost,
    carries: spec_fn(char) -> bool,
    row: spec_fn(char, int) -> u8,
    text: Seq<char>,
) -> bool {
    ||| origin.0 + cell.0 * text.len() > u32::MAX
    ||| exists|i: int, c: int, r: int|
        0 <= i < text.len() && #[trigger] lights(carries, row, leftmost, cell, text[i], c, r) && origin.1 + r
            > u32::MAX
}

/// Lay out one line of text in `font` with its top-left corner at `origin`:
/// the rectangles it lights and where the next character would start - or
/// `None` where that would need a coordinate past what a `u32` holds.
///
/// Each character takes one cell, whether the font carries it or not; each
/// lit run of each row of a carried glyph is one rectangle a pixel tall. A
/// glyph is asked for in a buffer of as many rows as are drawn, all dark.
pub fn lay_out<F: Bitmap + ?Sized>(font: &F, text: &str, origin: (u32, u32)) -> (placed: Option<(Vec<(u32, u32, u32, u32)>, u32)>)
    ensures
        placed is None <==> overflows(
            origin,
            font.spec_cell(),
            font.spec_leftmost(),
            |ch: char| font.spec_carries(ch),
            |ch: char, k: int| font.spec_row(ch, drawn_rows(font.spec_cell().1) as usize, k as usize, 0u8),
            text@,
        ),
        placed matches Some((rects, end)) ==> {
            &&& end == origin.0 + font.spec_cell().0 * text@.len()
            &&& forall|k: int| 0 <= k < rects@.len() ==> (#[trigger] rects@[k]).3 == 1 && rects@[k].2 > 0
            &&& forall|px: int, py: int| #![trigger covered(rects@, px, py)]
                covered(rects@, px, py) <==> font_inked(
                    font.spec_cell(),
                    font.spec_leftmost(),
                    |ch: char| font.spec_carries(ch),
                    |ch: char, k: int| font.spec_row(ch, drawn_rows(font.spec_cell().1) as usize, k as usize, 0u8),
                    text@,
                    origin,
                    px,
                    py,
                )
        },
{
    let cell = font.cell();
    let (across, down) = cell;
    let n = text.unicode_len();
    let height: u32 = if down < 32 { down } else { 32 };
    let columns: u32 = if across < 8 { across } else { 8 };
    let leftmost = font.leftmost();
    let ghost carries = |ch: char| font.spec_carries(ch);
    let ghost row = |ch: char, k: int| font.spec_row(ch, drawn_rows(font.spec_cell().1) as usize, k as usize, 0u8);
    proof {
        assert((n as int) * (across as int) <= 0x1_0000_0000_0000_0000 * 0x1_0000_0000) by (nonlinear_arith)
            requires 0 <= n < 0x1_0000_0000_0000_0000, 0 <= across < 0x1_0000_0000;
        assert((n as int) * (across as int) == across as int * n as int) by (nonlinear_arith);
    }
    if (n as u128) * (across as u128) + origin.0 as u128 > u32::MAX as u128 {
        return None;
    }
    let mut glyphs: Vec<Option<Vec<u8>>> = Vec::new();
    let mut i: usize = 0;
    while i < n
        invariant
            n == text@.len(),
            i <= n,
            glyphs@.len() == i,
            cell == font.spec_cell(),
            cell == (across, down),
            height as int == drawn_rows(down),
            forall|j: int| 0 <= j < glyphs@.len() ==> (#[trigger] glyphs@[j] is Some) == font.spec_carries(text@[j]),
            forall|j: int|
                0 <= j < glyphs@.len() ==> (#[trigger] glyphs@[j] matches Some(g) ==> (g@.len() == height && forall|k: int|
                    0 <= k < height ==> #[trigger] g@[k] == font.spec_row(text@[j], height as usize, k as usize, 0u8))),
        decreases n - i,
    {
        let mut rows: Vec<u8> = Vec::new();
        let mut r: u32 = 0;
        while r < height
            invariant
                r <= height,
                rows@.len() == r,
                forall|k: int| 0 <= k < r ==> rows@[k] == 0u8,
            decreases height - r,
        {
            rows.push(0);
            r += 1;
        }
        let ch = text.get_char(i);
        let ghost zeros = rows@;
        let carried = font.rows(ch, rows.as_mut_slice());
        proof {
            if carried {
                assert forall|k: int| 0 <= k < height implies rows@[k] == font.spec_row(ch, height as usize, k as usize, 0u8) by {
                    assert(zeros[k] == 0u8);
                }
            }
        }
        if carried {
            glyphs.push(Some(rows));
        } else {
            glyphs.push(None);
        }
        i += 1;
    }
    // A lit pixel on a row past the last a `u32` names has no place to go.
    let mut i: usize = 0;
    while i < n
        invariant
            n == text@.len(),
            i <= n,
            glyphs@.len() == n,
            cell == font.spec_cell(),
            cell == (across, down),
            height as int == drawn_rows(down),
            columns as int == drawn_columns(across),
            leftmost == font.spec_leftmost(),
            carries == (|ch: char| font.spec_carries(ch)),
            row == (|ch: char, k: int| font.spec_row(ch, drawn_rows(font.spec_cell().1) as usize, k as usize, 0u8)),
            forall|j: int| 0 <= j < glyphs@.len() ==> (#[trigger] glyphs@[j] is Some) == font.spec_carries(text@[j]),
            forall|j: int|
                0 <= j < glyphs@.len() ==> (#[trigger] glyphs@[j] matches Some(g) ==> (g@.len() == height && forall|k: int|
                    0 <= k < height ==> #[trigger] g@[k] == font.spec_row(text@[j], height as usize, k as usize, 0u8))),
            forall|j: int, c: int, r: int|
                0 <= j < i && #[trigger] inks_at(glyphs@[j], leftmost, cell, c, r) ==> origin.1 + r <= u32::MAX,
        decreases n - i,
    {
        match &glyphs[i] {
            Some(g) => {
                let mut r: u32 = 0;
                while r < height
                    invariant
                        n == text@.len(),
                        i < n,
                        glyphs@.len() == n,
                        glyphs@[i as int] == Some(*g),
                        g@.len() == height,
                        cell == font.spec_cell(),
                        cell == (across, down),
                        height as int == drawn_rows(down),
                        columns as int == drawn_columns(across),
                        leftmost == font.spec_leftmost(),
                        carries == (|ch: char| font.spec_carries(ch)),
                        row == (|ch: char, k: int| font.spec_row(ch, drawn_rows(font.spec_cell().1) as usize, k as usize, 0u8)),
                        r <= height,
                        forall|j: int| 0 <= j < glyphs@.len() ==> (#[trigger] glyphs@[j] is Some) == font.spec_carries(text@[j]),
                        forall|j: int|
                            0 <= j < glyphs@.len() ==> (#[trigger] glyphs@[j] matches Some(g) ==> (g@.len() == height
                                && forall|k: int| 0 <= k < height ==> #[trigger] g@[k] == font.spec_row(text@[j], height as usize, k as usize, 0u8))),
                        forall|j: int, c: int, rr: int|
                            0 <= j < i && #[trigger] inks_at(glyphs@[j], leftmost, cell, c, rr) ==> origin.1 + rr
                                <= u32::MAX,
                        forall|c: int, rr: int|
                            rr < r && #[trigger] inks_at(glyphs@[i as int], leftmost, cell, c, rr) ==> origin.1 + rr
                                <= u32::MAX,
                    decreases height - r,
                {
                    if origin.1 as u64 + r as u64 > u32::MAX as u64 {
                        let found = runs(g[r as usize], leftmost, columns);
                        if found.len() > 0 {
                            proof {
                                let first = found@[0].0 as int;
                                assert(lit(g@[r as int], leftmost, first));
                                assert(glyphs@[i as int] matches Some(h) && h@[r as int] == font.spec_row(
                                    text@[i as int],
                                    height as usize,
                                    r as usize,
                                    0u8,
                                ));
                                assert(row(text@[i as int], r as int) == g@[r as int]);
                                assert(lights(carries, row, leftmost, cell, text@[i as int], first, r as int));
                            }
                            return None;
                        }
                        proof {
                            assert forall|c: int| #![trigger inks_at(glyphs@[i as int], leftmost, cell, c, r as int)]
                                !inks_at(glyphs@[i as int], leftmost, cell, c, r as int) by {
                                if 0 <= c < columns && lit(g@[r as int], leftmost, c) {
                                    let q = choose|q: int| 0 <= q < found@.len() && #[trigger] found@[q].0 <= c < found@[q].0
                                        + found@[q].1;
                                }
                            }
                        }
                    }
                    r += 1;
                }
            },
            None => {},
        }
        i += 1;
    }
    let (rects, end) = text_rects(&glyphs, cell, leftmost, origin);
    proof {
        assert forall|px: int, py: int| #![trigger covered(rects@, px, py)]
            covered(rects@, px, py) <==> font_inked(cell, leftmost, carries, row, text@, origin, px, py) by {
            if cell.0 > 0 && px >= origin.0 {
                let q = (px - origin.0) / (cell.0 as int);
                if 0 <= q < n {
                    let c = (px - origin.0) % (cell.0 as int);
                    let r = py - origin.1;
                    assert(carries(text@[q]) == (glyphs@[q] is Some));
                    match glyphs@[q] {
                        Some(g) => {
                            if 0 <= r < height {
                                assert(row(text@[q], r) == g@[r]);
                            }
                        },
                        None => {},
                    }
                }
            }
        }
        assert forall|j: int, c: int, r: int|
            0 <= j < text@.len() && #[trigger] lights(carries, row, leftmost, cell, text@[j], c, r) implies origin.1 + r
                <= u32::MAX by {
            assert(glyphs@[j] is Some);
            assert(inks_at(glyphs@[j], leftmost, cell, c, r));
        }
    }
    Some((rects, end))
}

/// The width `width` measures a line at in `font` is the advance `lay_out`
/// draws it with: wherever the line fits in a `u32` frame, `origin.0` plus
/// the width is where the next character would start.
pub proof fn lemma_width_is_the_advance<F: Bitmap + ?Sized>(font: &F, text: Seq<char>, origin: (u32, u32))
    requires
        origin.0 + font.spec_cell().0 * text.len() <= u32::MAX,
    ensures
        origin.0 + text_width(font.spec_cell().0, text.len()) == origin.0 + font.spec_cell().0 * text.len(),
{
    lemma_width_is_what_draw_uses(origin, font.spec_cell().0, text.len());
}

/// The width a line is measured at is the advance it is drawn with: where
/// a line fits in a `u32` frame, what `width_in` says of it is how far
/// `text_rects` moves along it.
pub proof fn lemma_width_is_what_draw_uses(origin: (u32, u32), across: u32, count: nat)
    requires
        origin.0 + across * count <= u32::MAX,
    ensures
        origin.0 + text_width(across, count) == origin.0 + across * count,
{
    let c = (count as u32) as int;
    if across > 0 {
        assert(count <= across * count) by (nonlinear_arith)
            requires across >= 1;
        assert(c == count);
    }
    assert(across * c == across * count) by (nonlinear_arith)
        requires across == 0 || c == count;
    assert(0 <= across * c) by (nonlinear_arith)
        requires across >= 0, c >= 0;
}

} // verus!
