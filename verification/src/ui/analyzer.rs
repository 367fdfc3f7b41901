//! The analyser view's choices: what a bar is drawn with, how finely a peak cap
//! is placed, and where each bar stands.

use vstd::prelude::*;
use crate::ui::grid::{Cell, Grid, cell_of, column_of, inside, position, row_of, well_formed, within};
use crate::ui::help::Area;
use crate::visual::colors::Color;

verus! {

/// An eighth-block glyph, `i` eighths of a cell tall: empty through full.
pub open spec fn block_glyph(i: int) -> Seq<char> {
    if i == 0 {
        " "@
    } else if i == 1 {
        "\u{2581}"@
    } else if i == 2 {
        "\u{2582}"@
    } else if i == 3 {
        "\u{2583}"@
    } else if i == 4 {
        "\u{2584}"@
    } else if i == 5 {
        "\u{2585}"@
    } else if i == 6 {
        "\u{2586}"@
    } else if i == 7 {
        "\u{2587}"@
    } else {
        "\u{2588}"@
    }
}

/// The eighth-block glyph for `i` eighths, empty through full.
pub fn block(i: usize) -> (glyph: &'static str)
    requires
        i <= 8,
    ensures
        glyph@ == block_glyph(i as int),
{
    match i {
        0 => " ",
        1 => "\u{2581}",
        2 => "\u{2582}",
        3 => "\u{2583}",
        4 => "\u{2584}",
        5 => "\u{2585}",
        6 => "\u{2586}",
        7 => "\u{2587}",
        _ => "\u{2588}",
    }
}

/// What a lit bar is drawn with.
///
/// `Blocks` climbs `▁▂▃▄▅▆▇` within the top cell; `Shade` fades the top cell
/// in through `░▒▓`; the rest light whole rows and differ in how much of a cell
/// they fill.
#[derive(Debug, Clone, Copy, PartialEq, Eq, Structural)]
pub enum BarStyle {
    /// `▓`, with `░▒` for a top cell that is partly there.
    Shade,
    /// `█` with `▁`..`▇` for the partial top cell. The smoothest.
    Blocks,
    /// `▇` - lower seven-eighths.
    Solid,
    /// `▆` - lower three-quarters.
    Thick,
    /// `▄` - lower half; visibly striped.
    Half,
    /// `━` - a thin rule, the airiest ladder.
    Line,
}

/// The order `b` cycles the styles in.
pub open spec fn next_style(style: BarStyle) -> BarStyle {
    match style {
        BarStyle::Shade => BarStyle::Blocks,
        BarStyle::Blocks => BarStyle::Solid,
        BarStyle::Solid => BarStyle::Thick,
        BarStyle::Thick => BarStyle::Half,
        BarStyle::Half => BarStyle::Line,
        BarStyle::Line => BarStyle::Shade,
    }
}

/// The name a style goes by on screen.
pub open spec fn style_name(style: BarStyle) -> Seq<char> {
    match style {
        BarStyle::Shade => "shade"@,
        BarStyle::Blocks => "blocks"@,
        BarStyle::Solid => "solid"@,
        BarStyle::Thick => "thick"@,
        BarStyle::Half => "half"@,
        BarStyle::Line => "line"@,
    }
}

/// The glyph a fully lit row of each style is drawn with.
pub open spec fn style_glyph(style: BarStyle) -> Seq<char> {
    match style {
        BarStyle::Shade => "\u{2593}"@,
        BarStyle::Blocks => block_glyph(8),
        BarStyle::Solid => "\u{2587}"@,
        BarStyle::Thick => "\u{2586}"@,
        BarStyle::Half => "\u{2584}"@,
        BarStyle::Line => "\u{2501}"@,
    }
}

/// Whether a style's lit row covers its whole cell.
pub open spec fn style_fills_cell(style: BarStyle) -> bool {
    style == BarStyle::Shade || style == BarStyle::Blocks
}

/// The glyph for a top cell `remainder` eighths of the way up.
pub open spec fn partial_glyph(style: BarStyle, remainder: int) -> Seq<char> {
    match style {
        BarStyle::Blocks => block_glyph(remainder),
        BarStyle::Shade => if remainder == 0 {
            " "@
        } else if remainder == 1 {
            "\u{2591}"@
        } else if remainder <= 4 {
            "\u{2592}"@
        } else {
            "\u{2593}"@
        },
        _ => style_glyph(style),
    }
}

impl BarStyle {
    pub fn next(self) -> (style: Self)
        ensures
            style == next_style(self),
    {
        match self {
            BarStyle::Shade => BarStyle::Blocks,
            BarStyle::Blocks => BarStyle::Solid,
            BarStyle::Solid => BarStyle::Thick,
            BarStyle::Thick => BarStyle::Half,
            BarStyle::Half => BarStyle::Line,
            BarStyle::Line => BarStyle::Shade,
        }
    }

    pub fn label(self) -> (label: &'static str)
        ensures
            label@ == style_name(self),
    {
        match self {
            BarStyle::Shade => "shade",
            BarStyle::Blocks => "blocks",
            BarStyle::Solid => "solid",
            BarStyle::Thick => "thick",
            BarStyle::Half => "half",
            BarStyle::Line => "line",
        }
    }

    /// Glyph for a fully lit row.
    pub fn glyph(self) -> (glyph: &'static str)
        ensures
            glyph@ == style_glyph(self),
    {
        match self {
            BarStyle::Shade => "\u{2593}",
            BarStyle::Blocks => block(8),
            BarStyle::Solid => "\u{2587}",
            BarStyle::Thick => "\u{2586}",
            BarStyle::Half => "\u{2584}",
            BarStyle::Line => "\u{2501}",
        }
    }

    /// Whether the style can show a row that is only partly filled.
    pub fn sub_cell(self) -> (b: bool)
        ensures
            b == (self == BarStyle::Blocks || self == BarStyle::Shade),
    {
        match self {
            BarStyle::Blocks | BarStyle::Shade => true,
            _ => false,
        }
    }

    /// Glyph for a top cell that is `remainder` eighths of the way up.
    ///
    /// Density rather than height for `Shade`: Unicode has no shaded
    /// eighth-blocks, so its top cell fades in through three densities.
    pub fn partial(self, remainder: usize) -> (glyph: &'static str)
        requires
            self == BarStyle::Blocks ==> remainder <= 8,
        ensures
            glyph@ == partial_glyph(self, remainder as int),
    {
        match self {
            BarStyle::Blocks => block(remainder),
            BarStyle::Shade => {
                if remainder == 0 {
                    " "
                } else if remainder == 1 {
                    "\u{2591}"
                } else if remainder <= 4 {
                    "\u{2592}"
                } else {
                    "\u{2593}"
                }
            },
            _ => self.glyph(),
        }
    }

    /// Whether a lit row covers its whole cell, which decides how the
    /// backdrop behind it is drawn. `Shade` counts: `▓` is a full cell.
    pub fn fills_cell(self) -> (b: bool)
        ensures
            b == style_fills_cell(self),
    {
        match self {
            BarStyle::Shade | BarStyle::Blocks => true,
            _ => false,
        }
    }

    /// Glyph the unlit grid behind the bars is drawn with: a plain full block
    /// behind the full-cell styles, and the style's own shape behind the rest.
    pub fn grid_glyph(self) -> (glyph: &'static str)
        ensures
            glyph@ == if style_fills_cell(self) { block_glyph(8) } else { style_glyph(self) },
    {
        if self.fills_cell() {
            block(8)
        } else {
            self.glyph()
        }
    }
}

/// Where cycling the bar style `k` times from `style` lands.
pub open spec fn style_after(style: BarStyle, k: nat) -> BarStyle
    decreases k,
{
    if k == 0 { style } else { next_style(style_after(style, (k - 1) as nat)) }
}

/// Cycling the bar style six times comes back to where it started, and no
/// fewer do: every one of the six styles is passed through on the way.
pub proof fn lemma_bar_styles_cycle(style: BarStyle)
    ensures
        style_after(style, 6) == style,
        forall|k: nat| 0 < k < 6 ==> #[trigger] style_after(style, k) != style,
{
    reveal_with_fuel(style_after, 7);
    assert forall|k: nat| 0 < k < 6 implies #[trigger] style_after(style, k) != style by {
        if k == 1 {} else if k == 2 {} else if k == 3 {} else if k == 4 {} else {}
    }
}

/// How finely the peak cap is placed within a row.
#[derive(Debug, Clone, Copy, PartialEq, Eq, Structural)]
pub enum Peaks {
    Off,
    /// One position per row: the mid-cell rule.
    Coarse,
    /// Two positions per row: the mid-cell rule, then the lower one-eighth block.
    Fine,
}

/// The order `p` cycles the cap settings in.
pub open spec fn next_peaks(peaks: Peaks) -> Peaks {
    match peaks {
        Peaks::Fine => Peaks::Coarse,
        Peaks::Coarse => Peaks::Off,
        Peaks::Off => Peaks::Fine,
    }
}

/// The name a cap setting goes by on screen.
pub open spec fn peaks_name(peaks: Peaks) -> Seq<char> {
    match peaks {
        Peaks::Off => "off"@,
        Peaks::Coarse => "coarse"@,
        Peaks::Fine => "fine"@,
    }
}

impl Peaks {
    pub fn next(self) -> (peaks: Self)
        ensures
            peaks == next_peaks(self),
    {
        match self {
            Peaks::Fine => Peaks::Coarse,
            Peaks::Coarse => Peaks::Off,
            Peaks::Off => Peaks::Fine,
        }
    }

    pub fn label(self) -> (label: &'static str)
        ensures
            label@ == peaks_name(self),
    {
        match self {
            Peaks::Off => "off",
            Peaks::Coarse => "coarse",
            Peaks::Fine => "fine",
        }
    }
}

/// Cycling the cap setting three times comes back to where it started.
pub proof fn lemma_peaks_cycle(peaks: Peaks)
    ensures
        next_peaks(next_peaks(next_peaks(peaks))) == peaks,
        next_peaks(peaks) != peaks,
        next_peaks(next_peaks(peaks)) != peaks,
{
}

/// Bar geometry: how wide a bar is and the gap after it, in whatever unit the
/// surface counts in.
#[derive(Debug, Clone, Copy, PartialEq, Eq, Structural)]
pub struct BarLayout {
    pub bar_width: u16,
    pub spacing: u16,
}

impl Default for BarStyle {
    /// The smoothest style, which rav opens with.
    fn default() -> (style: Self)
        ensures
            style == BarStyle::Blocks,
    {
        BarStyle::Blocks
    }
}

impl Default for Peaks {
    /// Caps placed at the finer of the two resolutions, which rav opens with.
    fn default() -> (peaks: Self)
        ensures
            peaks == Peaks::Fine,
    {
        Peaks::Fine
    }
}

impl Default for BarLayout {
    /// 3 wide with a 1 gap: the classic "wide" mode.
    fn default() -> (layout: Self)
        ensures
            layout.bar_width == 3,
            layout.spacing == 1,
    {
        BarLayout { bar_width: 3, spacing: 1 }
    }
}

/// How many bars fit in `width`: the final bar needs no trailing gap.
pub open spec fn bars_in(layout: BarLayout, width: int) -> int {
    let slot = layout.bar_width + layout.spacing;
    let slot = if slot == 0 { 1 } else { slot };
    (width + layout.spacing) / slot
}

impl BarLayout {
    /// How many bars fit in `width`. The final bar needs no trailing gap.
    pub fn bar_count(&self, width: u16) -> (count: usize)
        requires
            self.bar_width + self.spacing <= u16::MAX,
            width + self.spacing <= u16::MAX,
        ensures
            count == bars_in(*self, width as int),
    {
        let slot = self.bar_width + self.spacing;
        let slot = if slot == 0 { 1 } else { slot };
        ((width + self.spacing) / slot) as usize
    }

    /// Left edge of bar `i`, relative to the area.
    pub fn x_of(&self, i: usize) -> (x: u16)
        requires
            self.bar_width + self.spacing <= u16::MAX,
            (i as u16) * (self.bar_width + self.spacing) <= u16::MAX,
        ensures
            x == (i as u16) * (self.bar_width + self.spacing),
    {
        (i as u16) * (self.bar_width + self.spacing)
    }
}

/// Every bar the layout counts stands wholly inside the width, and one more
/// would not: the count leaves no trailing gap and wastes no room.
pub proof fn lemma_counted_bars_fit(layout: BarLayout, width: int, i: int)
    requires
        width >= 0,
        0 <= i < bars_in(layout, width),
    ensures
        i * (layout.bar_width + layout.spacing) + layout.bar_width <= width,
        layout.bar_width + layout.spacing > 0 ==> bars_in(layout, width) * (layout.bar_width
            + layout.spacing) + layout.bar_width > width,
{
    let b = layout.bar_width as int;
    let s = layout.spacing as int;
    let count = bars_in(layout, width);
    if b + s > 0 {
        assert(count * (b + s) <= width + s) by (nonlinear_arith)
            requires count == (width + s) / (b + s), b + s > 0, width + s >= 0;
        assert(i * (b + s) <= (count - 1) * (b + s)) by (nonlinear_arith)
            requires i <= count - 1, b + s > 0;
        assert((count - 1) * (b + s) == count * (b + s) - (b + s)) by (nonlinear_arith);
        assert((count + 1) * (b + s) > width + s) by (nonlinear_arith)
            requires count == (width + s) / (b + s), b + s > 0, width + s >= 0;
        assert((count + 1) * (b + s) == count * (b + s) + (b + s)) by (nonlinear_arith);
    } else {
        assert(i * (b + s) == 0) by (nonlinear_arith)
            requires b + s == 0;
    }
}

} // verus!

verus! {

/// One bar, measured: how many rows it fills, how many eighths of the row
/// above, and where its peak cap was placed and with which glyph.
#[derive(Debug, Clone, Copy, PartialEq, Eq)]
pub struct Column {
    pub full: u16,
    pub remainder: usize,
    pub cap: Option<(u16, &'static str)>,
}

/// One frame of the analyser, measured: a column per band, a colour per
/// screen row (bottom-up) for the lit bars and for the backdrop behind them.
pub struct Bars<'a> {
    pub columns: &'a [Column],
    /// Foreground colour per screen row, bottom-up.
    pub row_colors: &'a [Color],
    pub cap_color: Color,
    /// Backdrop colour per screen row, bottom-up, or `None` to hide it.
    pub grid: Option<&'a [Color]>,
    pub bar_style: BarStyle,
    pub layout: BarLayout,
}

/// Which bar column `offset` cells from the left edge of an area `width` wide
/// falls in, or -1 for a gap, a partly fitting bar, or no bar at all.
pub open spec fn bar_under(layout: BarLayout, width: int, offset: int) -> int {
    let slot = layout.bar_width + layout.spacing;
    if slot > 0 && offset % slot < layout.bar_width && offset / slot < bars_in(layout, width) {
        offset / slot
    } else {
        -1
    }
}

/// Entry `r` of a per-row list, or its last where the list is shorter.
pub open spec fn per_row<T>(list: Seq<T>, r: int) -> T {
    if r < list.len() { list[r] } else { list[list.len() - 1] }
}

/// The first row a bar leaves unlit.
pub open spec fn first_unlit(column: Column) -> int {
    if column.remainder > 0 { column.full + 1 } else { column.full as int }
}

/// Where a bar's cap is drawn: lifted to the first unlit row if it would
/// otherwise sit inside the bar, so it always reads as riding on it.
pub open spec fn lifted_cap(column: Column, height: int) -> Option<(int, Seq<char>)> {
    match column.cap {
        Some((row, glyph)) => if row < first_unlit(column) && first_unlit(column) < height {
            Some((first_unlit(column), glyph@))
        } else {
            Some((row as int, glyph@))
        },
        None => None,
    }
}

/// Whether row `r` of a bar is lit.
pub open spec fn lit_row(column: Column, r: int) -> bool {
    r < column.full || (r == column.full && column.remainder > 0)
}

/// What a cell of the analyser's area shows once a frame is drawn over `old`:
/// the backdrop behind the bar columns, then the bars and their caps, which
/// set a symbol and a foreground and keep whatever background is there.
pub open spec fn bar_cell(bars: Bars, area: Area, old: (Seq<char>, Color, Color), x: int, y: int) -> (
    Seq<char>,
    Color,
    Color,
) {
    let r = area.y + area.height - 1 - y;
    let i = bar_under(bars.layout, area.width as int, x - area.x);
    let behind = match bars.grid {
        Some(grid) => if i >= 0 {
            let c = per_row(grid@, r);
            if style_fills_cell(bars.bar_style) {
                (" "@, c, c)
            } else {
                (style_glyph(bars.bar_style), c, old.2)
            }
        } else {
            old
        },
        None => old,
    };
    if 0 <= i < bars.columns@.len() {
        let column = bars.columns@[i];
        match lifted_cap(column, area.height as int) {
            Some((row, glyph)) if row == r => (glyph, bars.cap_color, behind.2),
            _ => if lit_row(column, r) {
                (
                    if r < column.full { style_glyph(bars.bar_style) } else { partial_glyph(bars.bar_style, column.remainder as int) },
                    per_row(bars.row_colors@, r),
                    behind.2,
                )
            } else {
                behind
            },
        }
    } else {
        behind
    }
}

/// Whether a frame of `bars` over `area` has anything to draw in: room, and
/// at least one row colour.
pub open spec fn paints(bars: Bars, area: Area) -> bool {
    area.width > 0 && area.height > 0 && bars.row_colors@.len() > 0
}

/// Whether a frame of `bars` can be drawn over `area` of `grid` at all: the
/// area lies on the grid, and where there is anything to draw, the layout's
/// arithmetic fits a `u16`, a blocks bar is at most eight eighths into its top
/// cell, and a backdrop that some bar column stands on has a colour.
pub open spec fn drawable(bars: Bars, area: Area, grid: Grid) -> bool {
    &&& well_formed(grid)
    &&& within(area, grid.area)
    &&& grid.area.x + grid.area.width <= u16::MAX
    &&& grid.area.y + grid.area.height <= u16::MAX
    &&& paints(bars, area) ==> {
        &&& bars.layout.bar_width + bars.layout.spacing <= u16::MAX
        &&& area.width + bars.layout.spacing <= u16::MAX
        &&& bars.bar_style == BarStyle::Blocks ==> forall|i: int|
            0 <= i < bars.columns@.len() ==> #[trigger] bars.columns@[i].remainder <= 8
        &&& bars.grid matches Some(g) ==> (g@.len() > 0 || bars_in(bars.layout, area.width as int) == 0
            || bars.layout.bar_width == 0)
    }
}

impl Column {
    /// A bar measured in the style's own terms: a sub-cell style fills whole
    /// rows and then eighths of the next, a whole-row style lights `rows` rows
    /// and no part of another. The cap is kept as it was placed.
    pub fn measure(style: BarStyle, eighths: usize, rows: usize, cap: Option<(u16, &'static str)>) -> (column: Column)
        requires
            eighths / 8 <= u16::MAX,
            rows <= u16::MAX,
        ensures
            column.full == if style == BarStyle::Blocks || style == BarStyle::Shade { eighths / 8 } else { rows },
            column.remainder == if style == BarStyle::Blocks || style == BarStyle::Shade { eighths % 8 } else { 0 },
            column.remainder < 8,
            column.cap == cap,
    {
        if style.sub_cell() {
            Column { full: (eighths / 8) as u16, remainder: eighths % 8, cap }
        } else {
            Column { full: rows as u16, remainder: 0, cap }
        }
    }
}

impl Bars<'_> {
    /// What cell `(x, y)` of `area` shows once this frame is drawn over `old`.
    #[verifier::spinoff_prover]
    fn cell_at(&self, area: Area, old: &Cell, x: u16, y: u16) -> (cell: Cell)
        requires
            inside(area, x as int, y as int),
            area.x + area.width <= u16::MAX,
            area.y + area.height <= u16::MAX,
            self.layout.bar_width + self.layout.spacing <= u16::MAX,
            area.width + self.layout.spacing <= u16::MAX,
            self.row_colors@.len() > 0,
            self.bar_style == BarStyle::Blocks ==> forall|i: int|
                0 <= i < self.columns@.len() ==> #[trigger] self.columns@[i].remainder <= 8,
            self.grid matches Some(g) ==> (g@.len() > 0 || bars_in(self.layout, area.width as int) == 0
                || self.layout.bar_width == 0),
        ensures
            cell@ == bar_cell(*self, area, old@, x as int, y as int),
    {
        let r = (area.y + area.height - 1 - y) as usize;
        let offset = x - area.x;
        let slot = self.layout.bar_width + self.layout.spacing;
        let count = self.layout.bar_count(area.width);
        let under: Option<usize> = if slot > 0 && offset % slot < self.layout.bar_width && ((offset / slot)
            as usize) < count {
            Some((offset / slot) as usize)
        } else {
            None
        };
        let behind = match (self.grid, under) {
            (Some(grid), Some(_)) => {
                let c = if r < grid.len() { grid[r] } else { grid[grid.len() - 1] };
                if self.bar_style.fills_cell() {
                    cell_of(" ", c, c)
                } else {
                    cell_of(self.bar_style.glyph(), c, old.bg)
                }
            },
            _ => Cell { symbol: old.symbol.clone(), fg: old.fg, bg: old.bg },
        };
        match under {
            Some(i) => {
                if i < self.columns.len() {
                    let column = self.columns[i];
                    let unlit: usize = if column.remainder > 0 { column.full as usize + 1 } else { column.full as usize };
                    let cap: Option<(usize, &'static str)> = match column.cap {
                        Some((row, glyph)) => {
                            if (row as usize) < unlit && unlit < area.height as usize {
                                Some((unlit, glyph))
                            } else {
                                Some((row as usize, glyph))
                            }
                        },
                        None => None,
                    };
                    match cap {
                        Some((row, glyph)) => {
                            if row == r {
                                return cell_of(glyph, self.cap_color, behind.bg);
                            }
                        },
                        None => {},
                    }
                    let lit = r < column.full as usize || (r == column.full as usize && column.remainder > 0);
                    if lit {
                        let glyph = if r < column.full as usize {
                            self.bar_style.glyph()
                        } else {
                            self.bar_style.partial(column.remainder)
                        };
                        let fg = if r < self.row_colors.len() {
                            self.row_colors[r]
                        } else {
                            self.row_colors[self.row_colors.len() - 1]
                        };
                        return cell_of(glyph, fg, behind.bg);
                    }
                }
                behind
            },
            None => behind,
        }
    }

    /// Draw one frame of the analyser over `area` of `grid`.
    ///
    /// Colour is a function of the row, never of the bar's own value, so a tall
    /// bar and a short one agree on colour where they overlap. An empty area,
    /// or no colours to draw in, draws nothing.
    #[verifier::spinoff_prover]
    pub fn render(&self, area: Area, grid: &mut Grid)
        requires
            drawable(*self, area, *old(grid)),
        ensures
            final(grid).area == old(grid).area,
            final(grid).cells@.len() == old(grid).cells@.len(),
            forall|k: int|
                0 <= k < old(grid).cells@.len() ==> #[trigger] final(grid).cells@[k]@ == if area.width > 0
                    && area.height > 0 && self.row_colors@.len() > 0 && inside(
                    area,
                    column_of(old(grid).area, k),
                    row_of(old(grid).area, k),
                ) {
                    bar_cell(*self, area, old(grid).cells@[k]@, column_of(old(grid).area, k), row_of(old(grid).area, k))
                } else {
                    old(grid).cells@[k]@
                },
    {
        if area.width == 0 || area.height == 0 || self.row_colors.len() == 0 {
            return;
        }
        let n = grid.cells.len();
        let ghost before = grid.cells@;
        let mut k: usize = 0;
        while k < n
            invariant
                drawable(*self, area, *old(grid)),
                grid.area == old(grid).area,
                before == old(grid).cells@,
                n == before.len(),
                grid.cells@.len() == n,
                area.width > 0 && area.height > 0 && self.row_colors@.len() > 0,
                k <= n,
                forall|j: int| k <= j < n ==> #[trigger] grid.cells@[j] == before[j],
                forall|j: int|
                    0 <= j < k ==> #[trigger] grid.cells@[j]@ == if inside(
                        area,
                        column_of(grid.area, j),
                        row_of(grid.area, j),
                    ) {
                        bar_cell(*self, area, before[j]@, column_of(grid.area, j), row_of(grid.area, j))
                    } else {
                        before[j]@
                    },
            decreases n - k,
        {
            proof {
                assert(grid.area.width > 0) by (nonlinear_arith)
                    requires k < n, n == grid.area.width as int * grid.area.height as int;
            }
            let (x, y) = position(grid.area, k);
            if x >= area.x && x - area.x < area.width && y >= area.y && y - area.y < area.height {
                let cell = self.cell_at(area, &grid.cells[k], x, y);
                grid.cells[k] = cell;
            }
            k += 1;
        }
    }
}

} // verus!

verus! {

/// A cap never sits level with its own bar: wherever it is drawn inside the
/// display, the row it is drawn on is not one the bar lights.
pub proof fn lemma_a_cap_rides_on_its_bar(column: Column, height: int)
    requires
        first_unlit(column) < height,
        column.cap is Some,
    ensures
        lifted_cap(column, height) matches Some((row, _)) ==> row >= first_unlit(column) && !lit_row(
            column,
            row,
        ),
{
}

/// Behind the bar columns, every cell a bar leaves dark shows the backdrop in
/// the colour the backdrop gives its own row, counted from the bottom: as the
/// foreground of the style's glyph, and as the background too for the styles
/// that fill their cell.
pub proof fn lemma_the_backdrop_follows_its_rows(bars: Bars, area: Area, old: (Seq<char>, Color, Color), x: int, y: int)
    requires
        bars.grid is Some,
        bars.grid->0@.len() > 0,
        0 <= bar_under(bars.layout, area.width as int, x - area.x),
        bar_under(bars.layout, area.width as int, x - area.x) < bars.columns@.len() ==> {
            let column = bars.columns@[bar_under(bars.layout, area.width as int, x - area.x)];
            let r = area.y + area.height - 1 - y;
            &&& !lit_row(column, r)
            &&& !(lifted_cap(column, area.height as int) matches Some((row, _)) && row == r)
        },
    ensures
        ({
            let r = area.y + area.height - 1 - y;
            let grid = bars.grid->0@;
            let ink = if r < grid.len() { grid[r] } else { grid[grid.len() - 1] };
            &&& bar_cell(bars, area, old, x, y).1 == ink
            &&& style_fills_cell(bars.bar_style) ==> bar_cell(bars, area, old, x, y).2 == ink
            &&& !style_fills_cell(bars.bar_style) ==> bar_cell(bars, area, old, x, y).0 == style_glyph(bars.bar_style)
        }),
{
}

/// Colour is a function of the row, never of the bar: any two bars lit at the
/// same row are drawn in the same colour there.
pub proof fn lemma_a_row_is_one_colour(bars: Bars, area: Area, a: (Seq<char>, Color, Color), b: (Seq<char>, Color, Color), xa: int, xb: int, y: int)
    requires
        0 <= bar_under(bars.layout, area.width as int, xa - area.x) < bars.columns@.len(),
        0 <= bar_under(bars.layout, area.width as int, xb - area.x) < bars.columns@.len(),
        lit_row(bars.columns@[bar_under(bars.layout, area.width as int, xa - area.x)], area.y + area.height - 1 - y),
        lit_row(bars.columns@[bar_under(bars.layout, area.width as int, xb - area.x)], area.y + area.height - 1 - y),
        !(lifted_cap(bars.columns@[bar_under(bars.layout, area.width as int, xa - area.x)], area.height as int) matches Some((row, _)) && row == area.y + area.height - 1 - y),
        !(lifted_cap(bars.columns@[bar_under(bars.layout, area.width as int, xb - area.x)], area.height as int) matches Some((row, _)) && row == area.y + area.height - 1 - y),
    ensures
        bar_cell(bars, area, a, xa, y).1 == bar_cell(bars, area, b, xb, y).1,
{
}

} // verus!
