//! The oscilloscope view's colour ladder: brightest along the centre line,
//! fading as the trace swings away from it.

use vstd::prelude::*;
use crate::ui::grid::{Grid, cell_of, column_of, inside, position, row_of, well_formed, within};
use crate::ui::help::Area;
use crate::visual::colors::Color;

verus! {

/// The scope grid is 16 rows; the colour ladder is defined against it.
pub const VIRTUAL_ROWS: usize = 16;

/// How the waveform is drawn between consecutive samples.
#[derive(Debug, Clone, Copy, PartialEq, Eq, Structural, Default)]
pub enum ScopeStyle {
    /// One cell per column.
    Dots,
    /// Fill between consecutive samples so the trace is continuous.
    #[default]
    Lines,
}

/// The colour level for a row of the 16-row grid: a V in index terms, and index
/// 0 is the brightest colour.
pub open spec fn scope_level(y: int) -> int {
    if y >= 14 {
        4
    } else if y >= 12 {
        3
    } else if y >= 10 {
        2
    } else if y >= 8 {
        1
    } else if y >= 6 {
        0
    } else if y >= 4 {
        1
    } else if y >= 2 {
        2
    } else {
        3
    }
}

/// Oscilloscope colour level for a row within the 16-row grid.
pub fn oscilloscope_level(y: usize) -> (level: usize)
    ensures
        level == scope_level(y as int),
        level <= 4,
{
    if y >= 14 {
        4
    } else if y >= 12 {
        3
    } else if y >= 10 {
        2
    } else if y >= 8 {
        1
    } else if y >= 6 {
        0
    } else if y >= 4 {
        1
    } else if y >= 2 {
        2
    } else {
        3
    }
}

/// The trace is brightest at the centre of the grid and never brightens as it
/// moves away from the centre, in either direction.
pub proof fn lemma_the_centre_is_brightest(a: int, b: int)
    requires
        0 <= a <= b < 16,
    ensures
        scope_level(6) == 0 && scope_level(7) == 0,
        a >= 6 ==> scope_level(a) <= scope_level(b),
        b <= 7 ==> scope_level(a) >= scope_level(b),
{
}

} // verus!

verus! {

/// One frame of the oscilloscope, measured: the row, from the bottom, that
/// each sample of the window lands on, oldest first, and the theme's scope
/// colours, brightest first.
pub struct Trace<'a> {
    pub rows: &'a [u16],
    pub colours: &'a [Color],
    pub style: ScopeStyle,
}

/// The sample column `col` of an area `width` wide shows: the window spread
/// evenly across the columns.
pub open spec fn sample_for(len: int, width: int, col: int) -> int {
    let i = col * len / width;
    if i < len - 1 { i } else { len - 1 }
}

/// The rows column `col` lights, lowest and highest: its own sample's row,
/// stretched in the lines style to meet the column before it.
pub open spec fn trace_span(trace: Trace, width: int, col: int) -> (int, int) {
    let len = trace.rows@.len() as int;
    let row = trace.rows@[sample_for(len, width, col)] as int;
    if trace.style == ScopeStyle::Lines && col > 0 {
        let before = trace.rows@[sample_for(len, width, col - 1)] as int;
        (if before <= row { before } else { row }, if before <= row { row } else { before })
    } else {
        (row, row)
    }
}

/// The colour of row `r` of a display `height` rows tall: its level on the
/// 16-row grid, brightest at the centre.
pub open spec fn trace_ink(trace: Trace, height: int, r: int) -> Color {
    let v = r * (VIRTUAL_ROWS as int) / height;
    let level = scope_level(if v < 15 { v } else { 15 });
    let last = trace.colours@.len() - 1;
    trace.colours@[if level < last { level } else { last }]
}

/// Where row `r` of a display `height` rows tall falls on the 16-row grid:
/// the whole number of sixteenths of the height below it.
proof fn lemma_grid_row(r: int, height: int) -> (v: int)
    requires
        height > 0,
        r >= 0,
    ensures
        v == r * (VIRTUAL_ROWS as int) / height,
        v * height <= 16 * r < (v + 1) * height,
{
    let q = r * 16 / height;
    let m = r * 16 % height;
    assert(r * 16 == q * height + m && 0 <= m < height) by (nonlinear_arith)
        requires height > 0, q == r * 16 / height, m == r * 16 % height;
    assert((q + 1) * height == q * height + height) by (nonlinear_arith);
    q
}

/// The centre of the display is drawn in the brightest colour, whatever its
/// height: every row from three eighths to half way up, counted from the
/// bottom.
pub proof fn lemma_the_centre_rows_are_brightest(trace: Trace, height: int, r: int)
    requires
        height > 0,
        trace.colours@.len() > 0,
        6 * height <= 16 * r < 8 * height,
    ensures
        trace_ink(trace, height, r) == trace.colours@[0],
{
    let v = lemma_grid_row(r, height);
    if v < 6 {
        assert((v + 1) * height <= 6 * height) by (nonlinear_arith)
            requires v + 1 <= 6, height > 0;
    }
    if v >= 8 {
        assert(v * height >= 8 * height) by (nonlinear_arith)
            requires v >= 8, height > 0;
    }
}

/// Silence, which lands half way up rounded down, is drawn in the brightest
/// colour on any display at least eight rows tall.
pub proof fn lemma_silence_is_drawn_brightest(trace: Trace, height: int)
    requires
        height >= 8,
        trace.colours@.len() > 0,
    ensures
        trace_ink(trace, height, (height - 1) / 2) == trace.colours@[0],
{
    lemma_the_centre_rows_are_brightest(trace, height, (height - 1) / 2);
}

/// The ladder is spread over the whole height: a display `k` times as tall
/// colours row `k * r` as the shorter one colours row `r`.
pub proof fn lemma_the_ladder_scales_with_the_display(trace: Trace, height: int, r: int, k: int)
    requires
        height > 0,
        r >= 0,
        k > 0,
    ensures
        trace_ink(trace, k * height, k * r) == trace_ink(trace, height, r),
{
    let v = r * 16 / height;
    let m = r * 16 % height;
    assert(r * 16 == v * height + m && 0 <= m < height) by (nonlinear_arith)
        requires height > 0, v == r * 16 / height, m == r * 16 % height;
    assert((k * r) * 16 == v * (k * height) + k * m && 0 <= k * m < k * height) by (nonlinear_arith)
        requires r * 16 == v * height + m, 0 <= m < height, k > 0;
    assert(k * height != 0) by (nonlinear_arith)
        requires k > 0, height > 0;
    vstd::arithmetic::div_mod::lemma_fundamental_div_mod_converse((k * r) * 16, k * height, v, k * m);
}

/// What cell `(x, y)` of `area` shows once the trace is drawn over `old`.
pub open spec fn trace_cell(trace: Trace, area: Area, old: (Seq<char>, Color, Color), x: int, y: int) -> (
    Seq<char>,
    Color,
    Color,
) {
    let r = area.y + area.height - 1 - y;
    let (lo, hi) = trace_span(trace, area.width as int, x - area.x);
    if inside(area, x, y) && lo <= r <= hi {
        ("\u{2588}"@, trace_ink(trace, area.height as int, r), old.2)
    } else {
        old
    }
}

impl Trace<'_> {
    /// The sample column `col` shows.
    fn sample_at(&self, width: u16, col: u16) -> (i: usize)
        requires
            self.rows@.len() > 0,
            col < width,
        ensures
            i == sample_for(self.rows@.len() as int, width as int, col as int),
            i < self.rows@.len(),
    {
        let len = self.rows.len();
        proof {
            assert(col as int * len as int <= u16::MAX as int * usize::MAX as int) by (nonlinear_arith)
                requires col <= u16::MAX, len <= usize::MAX, len >= 0, col >= 0;
        }
        let i: u128 = (col as u128 * len as u128) / width as u128;
        proof {
            assert(i <= len) by (nonlinear_arith)
                requires i == (col as int * len as int) / (width as int), col < width, len >= 0;
        }
        if i < (len - 1) as u128 {
            i as usize
        } else {
            len - 1
        }
    }

    /// Draw the trace over `area` of `grid`, one column per column of the area.
    /// An empty area, or no samples, draws nothing.
    #[verifier::spinoff_prover]
    pub fn render(&self, area: Area, grid: &mut Grid)
        requires
            well_formed(*old(grid)),
            within(area, old(grid).area),
            old(grid).area.x + old(grid).area.width <= u16::MAX,
            old(grid).area.y + old(grid).area.height <= u16::MAX,
            self.colours@.len() > 0,
            forall|i: int| 0 <= i < self.rows@.len() ==> #[trigger] self.rows@[i] < area.height,
        ensures
            final(grid).area == old(grid).area,
            final(grid).cells@.len() == old(grid).cells@.len(),
            forall|k: int|
                0 <= k < old(grid).cells@.len() ==> #[trigger] final(grid).cells@[k]@ == if area.width > 0
                    && area.height > 0 && self.rows@.len() > 0 {
                    trace_cell(*self, area, old(grid).cells@[k]@, column_of(old(grid).area, k), row_of(old(grid).area, k))
                } else {
                    old(grid).cells@[k]@
                },
    {
        if area.width == 0 || area.height == 0 || self.rows.len() == 0 {
            return;
        }
        let n = grid.cells.len();
        let ghost before = grid.cells@;
        let mut k: usize = 0;
        while k < n
            invariant
                well_formed(*old(grid)),
                within(area, old(grid).area),
                old(grid).area.x + old(grid).area.width <= u16::MAX,
                old(grid).area.y + old(grid).area.height <= u16::MAX,
                self.colours@.len() > 0,
                self.rows@.len() > 0,
                area.width > 0 && area.height > 0,
                grid.area == old(grid).area,
                before == old(grid).cells@,
                n == before.len(),
                grid.cells@.len() == n,
                k <= n,
                forall|j: int| k <= j < n ==> #[trigger] grid.cells@[j] == before[j],
                forall|j: int|
                    0 <= j < k ==> #[trigger] grid.cells@[j]@ == trace_cell(
                        *self,
                        area,
                        before[j]@,
                        column_of(grid.area, j),
                        row_of(grid.area, j),
                    ),
            decreases n - k,
        {
            proof {
                assert(grid.area.width > 0) by (nonlinear_arith)
                    requires k < n, n == grid.area.width as int * grid.area.height as int;
            }
            let (x, y) = position(grid.area, k);
            if x >= area.x && x - area.x < area.width && y >= area.y && y - area.y < area.height {
                let col = x - area.x;
                let r: u16 = area.y + area.height - 1 - y;
                let row = self.rows[self.sample_at(area.width, col)];
                let (lo, hi) = match self.style {
                    ScopeStyle::Lines => {
                        if col > 0 {
                            let before = self.rows[self.sample_at(area.width, col - 1)];
                            if before <= row { (before, row) } else { (row, before) }
                        } else {
                            (row, row)
                        }
                    },
                    ScopeStyle::Dots => (row, row),
                };
                if lo <= r && r <= hi {
                    let v: usize = (r as usize * VIRTUAL_ROWS) / area.height as usize;
                    let level = oscilloscope_level(if v < 15 { v } else { 15 });
                    let last = self.colours.len() - 1;
                    let ink = self.colours[if level < last { level } else { last }];
                    let old_bg = grid.cells[k].bg;
                    grid.cells[k] = cell_of("\u{2588}", ink, old_bg);
                }
            }
            k += 1;
        }
    }
}

/// In the lines style the trace never breaks: every column after the first
/// lights the row the column before it landed on, as well as its own.
pub proof fn lemma_a_line_stays_joined(trace: Trace, width: int, col: int)
    requires
        trace.style == ScopeStyle::Lines,
        trace.rows@.len() > 0,
        0 < col < width,
    ensures
        ({
            let len = trace.rows@.len() as int;
            let (lo, hi) = trace_span(trace, width, col);
            &&& lo <= trace.rows@[sample_for(len, width, col - 1)] <= hi
            &&& lo <= trace.rows@[sample_for(len, width, col)] <= hi
        }),
{
}

/// In the dots style each column lights exactly the one row its sample
/// landed on.
pub proof fn lemma_a_dot_is_one_cell(trace: Trace, width: int, col: int)
    requires
        trace.style == ScopeStyle::Dots,
        trace.rows@.len() > 0,
        0 <= col < width,
    ensures
        trace_span(trace, width, col).0 == trace_span(trace, width, col).1,
        trace_span(trace, width, col).0 == trace.rows@[sample_for(trace.rows@.len() as int, width, col)],
{
}

} // verus!
