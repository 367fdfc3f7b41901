//! The help overlay's layout.
//!
//! Doubles as the settings readout: every line that has a current value shows
//! it. Sizing and layout share one key column, so a row with a short key and a
//! long description is never laid out narrower than it was measured.

use vstd::prelude::*;
use vstd::string::StrSliceExecFns;
use vstd::string::StringExecFns;
use crate::ui::grid::{Cell, Grid, column_of, inside, position, row_of, well_formed, within};
use crate::ui::status::{plate, plate_char};
use crate::visual::colors::Color;

verus! {

/// One row of the overlay: a key, what it does, and its current value.
pub struct HelpRow<'a> {
    pub key: &'a str,
    pub description: &'a str,
    pub value: Option<String>,
}

pub struct Help<'a> {
    pub rows: &'a [HelpRow<'a>],
    pub title: &'a str,
}

/// A rectangle of cells.
#[derive(Debug, Clone, Copy, PartialEq, Eq, Structural, Default)]
pub struct Area {
    pub x: u16,
    pub y: u16,
    pub width: u16,
    pub height: u16,
}

/// The wider of two widths.
pub open spec fn wider(a: nat, b: nat) -> nat {
    if a >= b { a } else { b }
}

/// The widest key among `rows`, in characters.
pub open spec fn widest_key(rows: Seq<HelpRow>) -> nat
    decreases rows.len(),
{
    if rows.len() == 0 {
        0
    } else {
        wider(widest_key(rows.drop_last()), rows.last().key@.len())
    }
}

/// How wide one row needs to be, laid out against a key column `key` wide: the
/// key column, the description, and the value with the gap before it.
pub open spec fn row_width(row: HelpRow, key: nat) -> nat {
    key + row.description@.len() + match row.value {
        Some(value) => value@.len() + 2,
        None => 0,
    }
}

/// The widest row, laid out against a key column `key` wide.
pub open spec fn widest_row(rows: Seq<HelpRow>, key: nat) -> nat
    decreases rows.len(),
{
    if rows.len() == 0 {
        0
    } else {
        wider(widest_row(rows.drop_last(), key), row_width(rows.last(), key))
    }
}

/// The width the panel wants: its widest row and a border, or its title and a
/// border, whichever is wider - each taken as a `u16`, as the panel counts.
pub open spec fn wanted_width(rows: Seq<HelpRow>, title: Seq<char>) -> int {
    let rows_wide = (widest_row(rows, widest_key(rows)) % 65536) as int + 8;
    let title_wide = (title.len() % 65536) as int + 6;
    if rows_wide >= title_wide { rows_wide } else { title_wide }
}

/// The panel is this help's wanted size, cut to `area`, and centred in it.
pub open spec fn panel_in(rows: Seq<HelpRow>, title: Seq<char>, area: Area) -> Area {
    let wanted = wanted_width(rows, title);
    let width = if wanted <= area.width { wanted } else { area.width as int };
    let tall = (rows.len() % 65536) as int + 4;
    let height = if tall <= area.height { tall } else { area.height as int };
    Area {
        x: (area.x + (area.width - width) / 2) as u16,
        y: (area.y + (area.height - height) / 2) as u16,
        width: width as u16,
        height: height as u16,
    }
}

/// Whether the panel's arithmetic stays inside what a `u16` holds.
pub open spec fn panel_fits_u16(rows: Seq<HelpRow>, title: Seq<char>, area: Area) -> bool {
    &&& forall|i: int| 0 <= i < rows.len() ==> row_width(#[trigger] rows[i], widest_key(rows)) <= usize::MAX
    &&& (widest_row(rows, widest_key(rows)) % 65536) + 8 <= u16::MAX
    &&& (title.len() % 65536) + 6 <= u16::MAX
    &&& (rows.len() % 65536) + 4 <= u16::MAX
    &&& area.x + area.width <= u16::MAX
    &&& area.y + area.height <= u16::MAX
}

/// The widest key of a longer list is the wider of the shorter list's and the
/// new row's.
proof fn lemma_widest_key_step(rows: Seq<HelpRow>, i: int)
    requires
        0 <= i < rows.len(),
    ensures
        widest_key(rows.take(i + 1)) == wider(widest_key(rows.take(i)), rows[i].key@.len()),
{
    assert(rows.take(i + 1).drop_last() =~= rows.take(i));
}

proof fn lemma_widest_row_step(rows: Seq<HelpRow>, key: nat, i: int)
    requires
        0 <= i < rows.len(),
    ensures
        widest_row(rows.take(i + 1), key) == wider(widest_row(rows.take(i), key), row_width(rows[i], key)),
{
    assert(rows.take(i + 1).drop_last() =~= rows.take(i));
}

/// No row is wider than the widest, laid out against the same key column.
proof fn lemma_widest_row_bounds(rows: Seq<HelpRow>, key: nat)
    ensures
        forall|i: int| 0 <= i < rows.len() ==> row_width(#[trigger] rows[i], key) <= widest_row(rows, key),
        rows.len() > 0 ==> exists|i: int| 0 <= i < rows.len() && widest_row(rows, key) == row_width(#[trigger] rows[i], key),
    decreases rows.len(),
{
    if rows.len() > 0 {
        lemma_widest_row_bounds(rows.drop_last(), key);
        assert forall|i: int| 0 <= i < rows.len() implies row_width(#[trigger] rows[i], key) <= widest_row(rows, key) by {
            if i < rows.len() - 1 {
                assert(rows.drop_last()[i] == rows[i]);
            }
        }
        if rows.len() == 1 {
            assert(widest_row(rows, key) == row_width(rows[0], key));
        } else if widest_row(rows.drop_last(), key) >= row_width(rows.last(), key) {
            let j = choose|j: int| 0 <= j < rows.drop_last().len() && widest_row(rows.drop_last(), key) == row_width(#[trigger] rows.drop_last()[j], key);
            assert(rows.drop_last()[j] == rows[j]);
        } else {
            assert(widest_row(rows, key) == row_width(rows[rows.len() - 1], key));
        }
    }
}

impl Help<'_> {
    /// Width of the key column, which every row is indented by.
    pub fn key_width(&self) -> (width: usize)
        ensures
            width == widest_key(self.rows@),
    {
        let n = self.rows.len();
        let mut widest: usize = 0;
        let mut i: usize = 0;
        while i < n
            invariant
                n == self.rows@.len(),
                i <= n,
                widest == widest_key(self.rows@.take(i as int)),
            decreases n - i,
        {
            let key = self.rows[i].key.unicode_len();
            proof {
                lemma_widest_key_step(self.rows@, i as int);
            }
            if key > widest {
                widest = key;
            }
            i += 1;
        }
        proof {
            assert(self.rows@.take(n as int) =~= self.rows@);
        }
        widest
    }

    /// Width the panel wants, from its widest row.
    ///
    /// This sizes against the shared key column, not each row's own key,
    /// because that is what the layout indents by.
    pub fn desired_width(&self) -> (width: u16)
        requires
            forall|i: int|
                0 <= i < self.rows@.len() ==> row_width(#[trigger] self.rows@[i], widest_key(self.rows@))
                    <= usize::MAX,
            (widest_row(self.rows@, widest_key(self.rows@)) % 65536) + 8 <= u16::MAX,
            (self.title@.len() % 65536) + 6 <= u16::MAX,
        ensures
            width == wanted_width(self.rows@, self.title@),
    {
        let key = self.key_width();
        let n = self.rows.len();
        let mut widest: usize = 0;
        let mut i: usize = 0;
        proof {
            lemma_widest_row_bounds(self.rows@, key as nat);
        }
        while i < n
            invariant
                n == self.rows@.len(),
                i <= n,
                key == widest_key(self.rows@),
                widest == widest_row(self.rows@.take(i as int), key as nat),
                forall|j: int|
                    0 <= j < self.rows@.len() ==> row_width(#[trigger] self.rows@[j], key as nat) <= usize::MAX,
            decreases n - i,
        {
            let row = &self.rows[i];
            proof {
                lemma_widest_row_step(self.rows@, key as nat, i as int);
                assert(row_width(self.rows@[i as int], key as nat) <= usize::MAX);
            }
            let description = row.description.unicode_len();
            let value = match &row.value {
                Some(value) => value.as_str().unicode_len() + 2,
                None => 0,
            };
            let width = key + description + value;
            if width > widest {
                widest = width;
            }
            i += 1;
        }
        proof {
            assert(self.rows@.take(n as int) =~= self.rows@);
        }
        let title: usize = self.title.unicode_len();
        let rows_wide: u16 = (widest % 65536) as u16 + 8;
        let title_wide: u16 = (title % 65536) as u16 + 6;
        if rows_wide >= title_wide {
            rows_wide
        } else {
            title_wide
        }
    }

    /// Centre the panel, shrinking it if the terminal is too small.
    pub fn panel(&self, area: Area) -> (at: Area)
        requires
            panel_fits_u16(self.rows@, self.title@, area),
        ensures
            at == panel_in(self.rows@, self.title@, area),
            area.x <= at.x,
            at.x + at.width <= area.x + area.width,
            area.y <= at.y,
            at.y + at.height <= area.y + area.height,
    {
        let width = self.desired_width();
        let width = if width <= area.width { width } else { area.width };
        let n = self.rows.len();
        let tall: u16 = (n % 65536) as u16 + 4;
        let height = if tall <= area.height { tall } else { area.height };
        Area {
            x: area.x + (area.width - width) / 2,
            y: area.y + (area.height - height) / 2,
            width,
            height,
        }
    }
}

} // verus!

verus! {

/// The panel's fill; the overlay is the one place a background is painted.
pub open spec fn panel_ink() -> Color {
    Color::Rgb(16, 20, 26)
}

/// The frame's colour.
pub open spec fn border_ink() -> Color {
    Color::Rgb(90, 100, 110)
}

/// The colour of the keys and the title.
pub open spec fn key_ink() -> Color {
    Color::Rgb(239, 187, 49)
}

/// The colour of the descriptions.
pub open spec fn text_ink() -> Color {
    Color::Rgb(222, 222, 222)
}

/// The colour of the current values.
pub open spec fn value_ink() -> Color {
    Color::Rgb(41, 206, 16)
}

/// Character `x - start` of `text`, where column `x` falls within it.
pub open spec fn char_at(text: Seq<char>, start: int, x: int) -> Option<char> {
    if start <= x < start + text.len() {
        Some(text[x - start])
    } else {
        None
    }
}

/// The frame glyph at `(x, y)` of panel `p`: rounded corners, rules along
/// the edges, and a space inside.
pub open spec fn frame_glyph(p: Area, x: int, y: int) -> Seq<char> {
    let right = p.x + p.width - 1;
    let bottom = p.y + p.height - 1;
    if x == p.x && y == p.y {
        "\u{256d}"@
    } else if x == right && y == p.y {
        "\u{256e}"@
    } else if x == p.x && y == bottom {
        "\u{2570}"@
    } else if x == right && y == bottom {
        "\u{256f}"@
    } else if x == p.x || x == right {
        "\u{2502}"@
    } else if y == p.y || y == bottom {
        "\u{2500}"@
    } else {
        " "@
    }
}

/// Where the title's plate starts: centred on the top edge.
pub open spec fn title_at(p: Area, title: Seq<char>) -> int {
    let wide = ((title.len() + 2) % 65536) as int;
    p.x + (if p.width >= wide { p.width - wide } else { 0 }) / 2
}

/// Where every description starts: past the shared key column and a gap.
pub open spec fn description_at(p: Area, rows: Seq<HelpRow>) -> int {
    p.x + 2 + (widest_key(rows) % 65536) as int + 2
}

/// Where a value starts: against the right edge, a space in from the frame.
pub open spec fn value_at(p: Area, value: Seq<char>) -> int {
    let right = p.x + p.width - 1;
    let wide = (value.len() % 65536) as int + 1;
    if right >= wide { right - wide } else { 0 }
}

/// Whether a row's value is drawn: only where it clears the description.
pub open spec fn value_shown(p: Area, rows: Seq<HelpRow>, row: HelpRow) -> bool {
    match row.value {
        Some(value) => value_at(p, value@) > description_at(p, rows) + (row.description@.len()
            % 65536) as int,
        None => false,
    }
}

/// What a help row writes at column `x`, and in which colour: its value over
/// its description over its key, as they are written in that order.
pub open spec fn row_char(p: Area, rows: Seq<HelpRow>, row: HelpRow, x: int) -> Option<(char, Color)> {
    let shown = match row.value {
        Some(value) => if value_shown(p, rows, row) {
            char_at(value@, value_at(p, value@), x)
        } else {
            None
        },
        None => None,
    };
    match shown {
        Some(c) => Some((c, value_ink())),
        None => match char_at(row.description@, description_at(p, rows), x) {
            Some(c) => Some((c, text_ink())),
            None => match char_at(row.key@, p.x + 2, x) {
                Some(c) => Some((c, key_ink())),
                None => None,
            },
        },
    }
}

/// What cell `(x, y)` shows once the help is drawn over `old` in `area`: the
/// panel filled and framed, the title on its top edge, then a row per line
/// from the third row down for as many as fit above the bottom edge. Cells
/// outside the panel, and every cell when the panel is too small to frame,
/// are left as they were.
pub open spec fn help_cell(help: Help, area: Area, old: (Seq<char>, Color, Color), x: int, y: int) -> (
    Seq<char>,
    Color,
    Color,
) {
    let p = panel_in(help.rows@, help.title@, area);
    let bottom = p.y + p.height - 1;
    let i = y - p.y - 2;
    if !(p.width >= 4 && p.height >= 3 && inside(p, x, y)) {
        old
    } else if y == p.y && char_at(plate(help.title@), title_at(p, help.title@), x) is Some {
        (seq![char_at(plate(help.title@), title_at(p, help.title@), x)->0], key_ink(), panel_ink())
    } else if 0 <= i < help.rows@.len() && y < bottom && row_char(p, help.rows@, help.rows@[i], x) is Some {
        let (c, ink) = row_char(p, help.rows@, help.rows@[i], x)->0;
        (seq![c], ink, panel_ink())
    } else {
        (
            frame_glyph(p, x, y),
            if frame_glyph(p, x, y) == " "@ { text_ink() } else { border_ink() },
            panel_ink(),
        )
    }
}

/// Whether drawing the help over `area` keeps every column it computes
/// inside what a `u16` holds.
pub open spec fn help_fits_u16(help: Help, area: Area) -> bool {
    let p = panel_in(help.rows@, help.title@, area);
    &&& panel_fits_u16(help.rows@, help.title@, area)
    &&& forall|i: int|
        0 <= i < help.rows@.len() && i + 3 < p.height && p.width >= 4 ==> {
            &&& description_at(p, help.rows@) <= u16::MAX
            &&& (#[trigger] help.rows@[i]).value matches Some(value) ==> {
                &&& (value@.len() % 65536) + 1 <= u16::MAX
                &&& description_at(p, help.rows@) + (help.rows@[i].description@.len() % 65536) <= u16::MAX
            }
        }
}

/// Character `x - start` of `text`, where column `x` falls within it.
fn text_char(text: &str, start: u16, x: u16) -> (c: Option<char>)
    ensures
        c == char_at(text@, start as int, x as int),
{
    if x < start {
        return None;
    }
    let i = (x - start) as usize;
    if i < text.unicode_len() {
        Some(text.get_char(i))
    } else {
        None
    }
}

/// The frame glyph at `(x, y)` of panel `p`.
fn frame_at(p: Area, x: u16, y: u16) -> (glyph: &'static str)
    requires
        p.width >= 1,
        p.height >= 1,
        p.x + p.width <= u16::MAX,
        p.y + p.height <= u16::MAX,
    ensures
        glyph@ == frame_glyph(p, x as int, y as int),
{
    let right = p.x + p.width - 1;
    let bottom = p.y + p.height - 1;
    if x == p.x && y == p.y {
        "\u{256d}"
    } else if x == right && y == p.y {
        "\u{256e}"
    } else if x == p.x && y == bottom {
        "\u{2570}"
    } else if x == right && y == bottom {
        "\u{256f}"
    } else if x == p.x || x == right {
        "\u{2502}"
    } else if y == p.y || y == bottom {
        "\u{2500}"
    } else {
        " "
    }
}

/// A cell showing the one character `c`.
fn char_cell(c: char, fg: Color, bg: Color) -> (cell: Cell)
    ensures
        cell@ == (seq![c], fg, bg),
{
    let mut symbol = String::new();
    symbol.push(c);
    proof {
        assert(symbol@ =~= seq![c]);
    }
    Cell { symbol, fg, bg }
}

impl Help<'_> {
    /// What row `i` writes at column `x`.
    fn row_char_at(&self, p: Area, key: u16, i: usize, x: u16) -> (c: Option<(char, Color)>)
        requires
            i < self.rows@.len(),
            key == widest_key(self.rows@) % 65536,
            p.x + p.width <= u16::MAX,
            p.width >= 4,
            description_at(p, self.rows@) <= u16::MAX,
            self.rows@[i as int].value matches Some(value) ==> {
                &&& (value@.len() % 65536) + 1 <= u16::MAX
                &&& description_at(p, self.rows@) + (self.rows@[i as int].description@.len() % 65536)
                    <= u16::MAX
            },
        ensures
            c == row_char(p, self.rows@, self.rows@[i as int], x as int),
    {
        let row = &self.rows[i];
        let dx: u16 = p.x + 2 + key + 2;
        let right: u16 = p.x + p.width - 1;
        let shown: Option<char> = match &row.value {
            Some(value) => {
                let wide: u16 = (value.as_str().unicode_len() % 65536) as u16 + 1;
                let vx: u16 = if right >= wide { right - wide } else { 0 };
                let described: u16 = (row.description.unicode_len() % 65536) as u16;
                if vx > dx + described {
                    text_char(value.as_str(), vx, x)
                } else {
                    None
                }
            },
            None => None,
        };
        match shown {
            Some(c) => Some((c, Color::Rgb(41, 206, 16))),
            None => match text_char(row.description, dx, x) {
                Some(c) => Some((c, Color::Rgb(222, 222, 222))),
                None => match text_char(row.key, p.x + 2, x) {
                    Some(c) => Some((c, Color::Rgb(239, 187, 49))),
                    None => None,
                },
            },
        }
    }

    /// What cell `(x, y)` of the panel `p` shows once the help is drawn.
    #[verifier::spinoff_prover]
    fn cell_at(&self, area: Area, p: Area, key: u16, x: u16, y: u16) -> (cell: Cell)
        requires
            help_fits_u16(*self, area),
            p == panel_in(self.rows@, self.title@, area),
            area.x + area.width <= u16::MAX,
            area.y + area.height <= u16::MAX,
            area.x <= p.x,
            p.x + p.width <= area.x + area.width,
            area.y <= p.y,
            p.y + p.height <= area.y + area.height,
            p.width >= 4 && p.height >= 3,
            key == widest_key(self.rows@) % 65536,
            inside(p, x as int, y as int),
        ensures
            forall|o: (Seq<char>, Color, Color)| #[trigger] help_cell(*self, area, o, x as int, y as int) == cell@,
    {
        let bottom: u16 = p.y + p.height - 1;
        let titled: Option<char> = if y == p.y {
            let wide: u16 = ((self.title.unicode_len() as u64 + 2) % 65536) as u16;
            let tx: u16 = p.x + (if p.width >= wide { p.width - wide } else { 0 }) / 2;
            if x >= tx {
                plate_char(self.title, (x - tx) as usize)
            } else {
                None
            }
        } else {
            None
        };
        let row_written: Option<(char, Color)> = if titled.is_none() && y >= p.y + 2 && y < bottom
            && ((y - p.y - 2) as usize) < self.rows.len() {
            let i = (y - p.y - 2) as usize;
            proof {
                assert(help_fits_u16(*self, area));
                assert((i as int) + 3 < p.height);
            }
            self.row_char_at(p, key, i, x)
        } else {
            None
        };
        let cell = match titled {
            Some(c) => char_cell(c, Color::Rgb(239, 187, 49), Color::Rgb(16, 20, 26)),
            None => match row_written {
                Some((c, ink)) => char_cell(c, ink, Color::Rgb(16, 20, 26)),
                None => {
                    let glyph = frame_at(p, x, y);
                    let ink = if glyph.unicode_len() == 1 && glyph.get_char(0) == ' ' {
                        Color::Rgb(222, 222, 222)
                    } else {
                        Color::Rgb(90, 100, 110)
                    };
                    proof {
                        reveal_strlit(" ");
                        reveal_strlit("\u{256d}");
                        reveal_strlit("\u{256e}");
                        reveal_strlit("\u{2570}");
                        reveal_strlit("\u{256f}");
                        reveal_strlit("\u{2502}");
                        reveal_strlit("\u{2500}");
                    }
                    cell_of_glyph(glyph, ink)
                },
            },
        };
        cell
    }

    /// Draw the help over `area` of `grid`: a filled, framed panel centred in
    /// the area, shrunk to it if need be, and nothing at all where the area
    /// leaves too little room to frame one.
    #[verifier::spinoff_prover]
    pub fn render(&self, area: Area, grid: &mut Grid)
        requires
            well_formed(*old(grid)),
            within(area, old(grid).area),
            old(grid).area.x + old(grid).area.width <= u16::MAX,
            old(grid).area.y + old(grid).area.height <= u16::MAX,
            help_fits_u16(*self, area),
        ensures
            final(grid).area == old(grid).area,
            final(grid).cells@.len() == old(grid).cells@.len(),
            forall|k: int|
                0 <= k < old(grid).cells@.len() ==> #[trigger] final(grid).cells@[k]@ == help_cell(
                    *self,
                    area,
                    old(grid).cells@[k]@,
                    column_of(old(grid).area, k),
                    row_of(old(grid).area, k),
                ),
    {
        let p = self.panel(area);
        let n = grid.cells.len();
        let ghost before = grid.cells@;
        if p.width < 4 || p.height < 3 {
            proof {
                assert forall|k: int| 0 <= k < n implies #[trigger] grid.cells@[k]@ == help_cell(
                    *self,
                    area,
                    before[k]@,
                    column_of(grid.area, k),
                    row_of(grid.area, k),
                ) by {}
            }
            return;
        }
        let key: u16 = (self.key_width() % 65536) as u16;
        let mut k: usize = 0;
        while k < n
            invariant
                well_formed(*old(grid)),
                within(area, old(grid).area),
                old(grid).area.x + old(grid).area.width <= u16::MAX,
                old(grid).area.y + old(grid).area.height <= u16::MAX,
                help_fits_u16(*self, area),
                p == panel_in(self.rows@, self.title@, area),
                area.x <= p.x,
                p.x + p.width <= area.x + area.width,
                area.y <= p.y,
                p.y + p.height <= area.y + area.height,
                p.width >= 4 && p.height >= 3,
                key == widest_key(self.rows@) % 65536,
                grid.area == old(grid).area,
                before == old(grid).cells@,
                n == before.len(),
                grid.cells@.len() == n,
                k <= n,
                forall|j: int| k <= j < n ==> #[trigger] grid.cells@[j] == before[j],
                forall|j: int|
                    0 <= j < k ==> #[trigger] grid.cells@[j]@ == help_cell(
                        *self,
                        area,
                        before[j]@,
                        column_of(grid.area, j),
                        row_of(grid.area, j),
                    ),
            decreases n - k,
        {
            proof {
                assert(grid.area.width > 0) by (nonlinear_arith)
                    requires k < n, n == grid.area.width as int * grid.area.height as int;
            }
            let (x, y) = position(grid.area, k);
            if x >= p.x && x - p.x < p.width && y >= p.y && y - p.y < p.height {
                let cell = self.cell_at(area, p, key, x, y);
                grid.cells[k] = cell;
            }
            k += 1;
        }
    }
}

/// A cell of the panel showing `glyph` in `fg`.
fn cell_of_glyph(glyph: &str, fg: Color) -> (cell: Cell)
    ensures
        cell@ == (glyph@, fg, Color::Rgb(16, 20, 26)),
{
    Cell { symbol: String::from_str(glyph), fg, bg: Color::Rgb(16, 20, 26) }
}

} // verus!

verus! {

/// A value never overlaps its description: no column holds both a character
/// of a row's shown value and one of its description.
pub proof fn lemma_a_value_clears_its_description(p: Area, rows: Seq<HelpRow>, row: HelpRow, x: int)
    requires
        value_shown(p, rows, row),
        row.description@.len() < 65536,
    ensures
        row.value matches Some(value) ==> !(char_at(value@, value_at(p, value@), x) is Some && char_at(
            row.description@,
            description_at(p, rows),
            x,
        ) is Some),
{
}

/// The help draws nothing outside its panel: every cell outside the centred
/// panel, and every cell when the panel is too small to frame, is left as it
/// was.
pub proof fn lemma_the_help_stays_in_its_panel(help: Help, area: Area, old: (Seq<char>, Color, Color), x: int, y: int)
    requires
        !inside(panel_in(help.rows@, help.title@, area), x, y) || panel_in(help.rows@, help.title@, area).width < 4
            || panel_in(help.rows@, help.title@, area).height < 3,
    ensures
        help_cell(help, area, old, x, y) == old,
{
}

/// Inside the panel every cell is painted on the panel's own fill, so the
/// help is readable over whatever was behind it.
pub proof fn lemma_the_panel_is_solid(help: Help, area: Area, old: (Seq<char>, Color, Color), x: int, y: int)
    requires
        inside(panel_in(help.rows@, help.title@, area), x, y),
        panel_in(help.rows@, help.title@, area).width >= 4,
        panel_in(help.rows@, help.title@, area).height >= 3,
    ensures
        help_cell(help, area, old, x, y).2 == panel_ink(),
{
}

} // verus!

verus! {

/// What `help_fits_u16` asks of row `i`, once the panel is known to be `p`.
pub open spec fn row_fits_u16(p: Area, rows: Seq<HelpRow>, i: int) -> bool {
    (i + 3 < p.height && p.width >= 4) ==> {
        &&& description_at(p, rows) <= u16::MAX
        &&& rows[i].value matches Some(value) ==> {
            &&& (value@.len() % 65536) + 1 <= u16::MAX
            &&& description_at(p, rows) + (rows[i].description@.len() % 65536) <= u16::MAX
        }
    }
}

impl Help<'_> {
    /// Whether drawing this help over `area` keeps every column it computes
    /// inside a `u16`: what `render` asks of its caller, tested.
    #[verifier::spinoff_prover]
    pub fn fits(&self, area: Area) -> (ok: bool)
        ensures
            ok == help_fits_u16(*self, area),
    {
        if area.x as u32 + area.width as u32 > 65535 || area.y as u32 + area.height as u32 > 65535 {
            return false;
        }
        let n = self.rows.len();
        if (n % 65536) as u32 + 4 > 65535 || (self.title.unicode_len() % 65536) as u32 + 6 > 65535 {
            return false;
        }
        let key = self.key_width();
        let mut widest: u128 = 0;
        let mut i: usize = 0;
        proof {
            lemma_widest_row_bounds(self.rows@, key as nat);
        }
        while i < n
            invariant
                n == self.rows@.len(),
                i <= n,
                key == widest_key(self.rows@),
                widest == widest_row(self.rows@.take(i as int), key as nat),
                forall|j: int| 0 <= j < i ==> row_width(#[trigger] self.rows@[j], key as nat) <= usize::MAX,
            decreases n - i,
        {
            let row = &self.rows[i];
            proof {
                lemma_widest_row_step(self.rows@, key as nat, i as int);
            }
            let description = row.description.unicode_len();
            let value: u128 = match &row.value {
                Some(value) => value.as_str().unicode_len() as u128 + 2,
                None => 0,
            };
            let width: u128 = key as u128 + description as u128 + value;
            if width > usize::MAX as u128 {
                return false;
            }
            if width > widest {
                widest = width;
            }
            i += 1;
        }
        proof {
            assert(self.rows@.take(n as int) =~= self.rows@);
        }
        if (widest % 65536) as u32 + 8 > 65535 {
            return false;
        }
        let p = self.panel(area);
        if p.width < 4 {
            return true;
        }
        let dx: u32 = p.x as u32 + 4 + (key % 65536) as u32;
        let mut i: usize = 0;
        while i < n
            invariant
                n == self.rows@.len(),
                i <= n,
                p == panel_in(self.rows@, self.title@, area),
                p.width >= 4,
                dx == description_at(p, self.rows@),
                forall|j: int| 0 <= j < i ==> row_fits_u16(p, self.rows@, j),
            decreases n - i,
        {
            if i < p.height as usize && i + 3 < p.height as usize {
                if dx > 65535 {
                    proof {
                        assert(!row_fits_u16(p, self.rows@, i as int));
                        assert(self.rows@[i as int] == self.rows@[i as int]);
                    }
                    return false;
                }
                match &self.rows[i].value {
                    Some(value) => {
                        if (value.as_str().unicode_len() % 65536) as u32 + 1 > 65535 || dx + (
                        self.rows[i].description.unicode_len() % 65536) as u32 > 65535 {
                            proof {
                                assert(!row_fits_u16(p, self.rows@, i as int));
                                assert(self.rows@[i as int] == self.rows@[i as int]);
                            }
                            return false;
                        }
                    },
                    None => {},
                }
            }
            i += 1;
        }
        proof {
            assert forall|j: int|
                0 <= j < self.rows@.len() && j + 3 < p.height && p.width >= 4 implies {
                &&& description_at(p, self.rows@) <= u16::MAX
                &&& (#[trigger] self.rows@[j]).value matches Some(value) ==> {
                    &&& (value@.len() % 65536) + 1 <= u16::MAX
                    &&& description_at(p, self.rows@) + (self.rows@[j].description@.len() % 65536) <= u16::MAX
                }
            } by {
                assert(row_fits_u16(p, self.rows@, j));
            }
        }
        true
    }
}

} // verus!
