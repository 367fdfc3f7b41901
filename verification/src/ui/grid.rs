//! A grid of terminal cells, as a widget renders into one.

use vstd::prelude::*;
use crate::ui::help::Area;
use crate::visual::colors::Color;
use vstd::string::StringExecFns;

verus! {

/// One cell of a rendered grid: what is written in it and in which colours.
#[derive(Debug, Clone, PartialEq, Eq)]
pub struct Cell {
    pub symbol: String,
    pub fg: Color,
    pub bg: Color,
}

/// A rendered grid: `area`, and its cells row by row from the top left.
#[derive(Debug, Clone, PartialEq, Eq)]
pub struct Grid {
    pub area: Area,
    pub cells: Vec<Cell>,
}

/// The grid holds one cell for every position of its area.
pub open spec fn well_formed(grid: Grid) -> bool {
    grid.cells@.len() == grid.area.width as int * grid.area.height as int
}

impl View for Cell {
    type V = (Seq<char>, Color, Color);

    /// What a cell shows: its symbol and its two colours.
    open spec fn view(&self) -> (Seq<char>, Color, Color) {
        (self.symbol@, self.fg, self.bg)
    }
}

/// The column of cell `k` of a grid over `area`.
pub open spec fn column_of(area: Area, k: int) -> int {
    area.x + k % (area.width as int)
}

/// The row of cell `k` of a grid over `area`.
pub open spec fn row_of(area: Area, k: int) -> int {
    area.y + k / (area.width as int)
}

/// Whether `(x, y)` lies in `area`.
pub open spec fn inside(area: Area, x: int, y: int) -> bool {
    area.x <= x < area.x + area.width && area.y <= y < area.y + area.height
}

/// Whether `inner` lies wholly within `outer`.
pub open spec fn within(inner: Area, outer: Area) -> bool {
    outer.x <= inner.x && inner.x + inner.width <= outer.x + outer.width && outer.y <= inner.y && inner.y
        + inner.height <= outer.y + outer.height
}

/// A cell showing `symbol`.
pub fn cell_of(symbol: &str, fg: Color, bg: Color) -> (cell: Cell)
    ensures
        cell@ == (symbol@, fg, bg),
{
    Cell { symbol: String::from_str(symbol), fg, bg }
}

impl Grid {
    /// A grid over `area` with every cell blank: a space in the terminal's own
    /// colours.
    pub fn empty(area: Area) -> (grid: Grid)
        requires
            area.width as int * area.height as int <= usize::MAX,
        ensures
            grid.area == area,
            well_formed(grid),
            forall|k: int| 0 <= k < grid.cells@.len() ==> #[trigger] grid.cells@[k]@ == (" "@, Color::Reset, Color::Reset),
    {
        let n: usize = area.width as usize * area.height as usize;
        let mut cells: Vec<Cell> = Vec::new();
        let mut k: usize = 0;
        while k < n
            invariant
                k <= n,
                cells@.len() == k,
                forall|j: int| 0 <= j < k ==> #[trigger] cells@[j]@ == (" "@, Color::Reset, Color::Reset),
            decreases n - k,
        {
            cells.push(cell_of(" ", Color::Reset, Color::Reset));
            k += 1;
        }
        Grid { area, cells }
    }
}

/// The column and row of cell `k`.
pub fn position(area: Area, k: usize) -> (at: (u16, u16))
    requires
        area.width > 0,
        k < area.width as int * area.height as int,
        area.x + area.width <= u16::MAX,
        area.y + area.height <= u16::MAX,
    ensures
        at.0 == column_of(area, k as int),
        at.1 == row_of(area, k as int),
        inside(area, at.0 as int, at.1 as int),
{
    proof {
        assert((k as int) / (area.width as int) < area.height as int) by (nonlinear_arith)
            requires area.width > 0, 0 <= k < area.width as int * area.height as int;
    }
    let x = area.x + (k % area.width as usize) as u16;
    let y = area.y + (k / area.width as usize) as u16;
    (x, y)
}

} // verus!
