//! The short note shown after a settings key.
//!
//! Overlaid on the top row rather than given a row of its own: a permanent
//! status bar would cost a row of bars for a message that is empty most of the
//! time.

use vstd::prelude::*;
use vstd::string::StrSliceExecFns;
use vstd::string::StringExecFns;
use crate::ui::grid::{Cell, Grid, column_of, inside, position, row_of, well_formed, within};
use crate::ui::help::Area;
use crate::visual::colors::Color;

verus! {

/// A brief message in the top-left corner, in the given colours.
pub struct Status<'a> {
    pub text: &'a str,
    pub foreground: Color,
    /// The active theme's floor colour, so the note sits on the backdrop rather
    /// than punching a hole in it.
    pub background: Color,
}

/// The note as drawn: padded by a space each side, so it reads as a plate.
pub open spec fn plate(text: Seq<char>) -> Seq<char> {
    seq![' '] + text + seq![' ']
}

/// What cell `(x, y)` of `area` shows once the note is drawn over `old`: the
/// plate along the top row from the left edge, cut where the area ends, and
/// everything else as it was.
pub open spec fn status_cell(status: Status, area: Area, old: (Seq<char>, Color, Color), x: int, y: int) -> (
    Seq<char>,
    Color,
    Color,
) {
    let i = x - area.x;
    if y == area.y && 0 <= i < plate(status.text@).len() {
        (seq![plate(status.text@)[i]], status.foreground, status.background)
    } else {
        old
    }
}

/// Character `i` of `text` padded into a plate, if it has one.
pub fn plate_char(text: &str, i: usize) -> (c: Option<char>)
    ensures
        c == if i < plate(text@).len() { Some(plate(text@)[i as int]) } else { None::<char> },
{
    let n = text.unicode_len();
    if i == 0 {
        Some(' ')
    } else if i - 1 < n {
        Some(text.get_char(i - 1))
    } else if i - 1 == n {
        Some(' ')
    } else {
        None
    }
}

impl Status<'_> {
    /// Draw the note over `area` of `grid`. An empty area draws nothing.
    #[verifier::spinoff_prover]
    pub fn render(&self, area: Area, grid: &mut Grid)
        requires
            well_formed(*old(grid)),
            within(area, old(grid).area),
            old(grid).area.x + old(grid).area.width <= u16::MAX,
            old(grid).area.y + old(grid).area.height <= u16::MAX,
        ensures
            final(grid).area == old(grid).area,
            final(grid).cells@.len() == old(grid).cells@.len(),
            forall|k: int|
                0 <= k < old(grid).cells@.len() ==> #[trigger] final(grid).cells@[k]@ == if area.width > 0
                    && area.height > 0 && inside(area, column_of(old(grid).area, k), row_of(old(grid).area, k)) {
                    status_cell(*self, area, old(grid).cells@[k]@, column_of(old(grid).area, k), row_of(old(grid).area, k))
                } else {
                    old(grid).cells@[k]@
                },
    {
        if area.width == 0 || area.height == 0 {
            return;
        }
        let n = grid.cells.len();
        let ghost before = grid.cells@;
        let mut k: usize = 0;
        while k < n
            invariant
                well_formed(*old(grid)),
                within(area, old(grid).area),
                old(grid).area.x + old(grid).area.width <= u16::MAX,
                old(grid).area.y + old(grid).area.height <= u16::MAX,
                grid.area == old(grid).area,
                before == old(grid).cells@,
                n == before.len(),
                grid.cells@.len() == n,
                area.width > 0 && area.height > 0,
                k <= n,
                forall|j: int| k <= j < n ==> #[trigger] grid.cells@[j] == before[j],
                forall|j: int|
                    0 <= j < k ==> #[trigger] grid.cells@[j]@ == if inside(
                        area,
                        column_of(grid.area, j),
                        row_of(grid.area, j),
                    ) {
                        status_cell(*self, area, before[j]@, column_of(grid.area, j), row_of(grid.area, j))
                    } else {
                        before[j]@
                    },
            decreases n - k,
        {
            proof {
                assert(grid.area.width > 0) by (nonlinear_arith)
                    requires k < n, n == grid.area.width as int * grid.area.height as int;
            }
            let (x, y) = position(grid.area, k);
            if y == area.y && x >= area.x && x - area.x < area.width {
                match plate_char(self.text, (x - area.x) as usize) {
                    Some(c) => {
                        let mut symbol = String::new();
                        symbol.push(c);
                        proof {
                            assert(symbol@ =~= seq![c]);
                        }
                        grid.cells[k] = Cell { symbol, fg: self.foreground, bg: self.background };
                    },
                    None => {},
                }
            }
            k += 1;
        }
    }
}

} // verus!

verus! {

/// The note is one row tall and cut rather than wrapped: drawing it changes no
/// cell off the area's top row, and none past the plate's last character.
pub proof fn lemma_a_note_stays_on_its_row(status: Status, area: Area, old: (Seq<char>, Color, Color), x: int, y: int)
    requires
        y != area.y || x < area.x || x >= area.x + plate(status.text@).len(),
    ensures
        status_cell(status, area, old, x, y) == old,
{
}

/// Every cell the note does draw carries the note's own colours, whatever
/// was there before.
pub proof fn lemma_a_note_wears_its_colours(status: Status, area: Area, old: (Seq<char>, Color, Color), x: int)
    requires
        area.x <= x < area.x + plate(status.text@).len(),
    ensures
        status_cell(status, area, old, x, area.y as int).1 == status.foreground,
        status_cell(status, area, old, x, area.y as int).2 == status.background,
{
}

} // verus!
