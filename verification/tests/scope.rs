use rav::ui::grid::Grid;
use rav::ui::help::Area;
use rav::ui::scope::{oscilloscope_level, ScopeStyle, Trace};
use rav::visual::colors::Color;

const LINE: &str = "█";

fn ladder() -> Vec<Color> {
    (0..5).map(|i| Color::Rgb(250 - 40 * i, 250 - 40 * i, 250 - 40 * i)).collect()
}

/// `rows` is where each sample landed, counted from the bottom: silence on
/// a 16-row display lands on row 7, full scale on rows 0 and 15.
fn render(rows: &[u16], w: u16, h: u16, style: ScopeStyle) -> Grid {
    let area = Area {
        x: 0,
        y: 0,
        width: w,
        height: h,
    };
    let mut grid = Grid::empty(area);
    let colours = ladder();
    Trace {
        rows,
        colours: &colours,
        style,
    }
    .render(area, &mut grid);
    grid
}

fn at(grid: &Grid, x: u16, y: u16) -> &rav::ui::grid::Cell {
    &grid.cells[(y * grid.area.width + x) as usize]
}

#[test]
fn silence_draws_a_line_through_the_centre() {
    let grid = render(&[7; 16], 16, 16, ScopeStyle::Lines);
    assert_eq!(at(&grid, 0, 8).symbol, LINE);
    assert_eq!(at(&grid, 0, 0).symbol, " ", "top stays clear");
    assert_eq!(at(&grid, 0, 15).symbol, " ", "bottom stays clear");
}

#[test]
fn the_centre_of_the_trace_is_brighter_than_its_extremes() {
    let flat = render(&[7; 8], 8, 16, ScopeStyle::Lines);
    let loud = render(&[15; 8], 8, 16, ScopeStyle::Lines);
    let centre = at(&flat, 0, 8).fg;
    let extreme = at(&loud, 0, 0).fg;
    assert_ne!(centre, extreme, "extremes must not match the centre colour");
    assert_eq!(centre, ladder()[0], "centre uses the brightest level");
    assert_eq!(extreme, ladder()[4]);
}

#[test]
fn lines_style_joins_a_steep_slope() {
    let rows = [0u16, 15, 0, 15];
    let dots = render(&rows, 4, 16, ScopeStyle::Dots);
    let lines = render(&rows, 4, 16, ScopeStyle::Lines);
    let filled = |g: &Grid, x: u16| (0..16).filter(|&y| at(g, x, y).symbol == LINE).count();
    assert_eq!(filled(&dots, 1), 1, "dots draw one cell per column");
    assert_eq!(filled(&lines, 1), 16, "lines bridge the jump");
    assert_eq!(filled(&lines, 0), 1, "the first column has nothing to meet");
}

#[test]
fn degenerate_areas_and_inputs_do_not_panic() {
    for (w, h) in [(0u16, 0u16), (1, 1), (80, 1), (1, 40)] {
        let grid = render(&[0, 0], w, h, ScopeStyle::Lines);
        assert_eq!(grid.cells.len(), w as usize * h as usize);
    }
    let grid = render(&[], 10, 10, ScopeStyle::Lines);
    assert!(grid.cells.iter().all(|c| c.symbol == " "), "no samples, nothing drawn");
}

#[test]
fn more_samples_than_columns_are_subsampled_not_dropped() {
    // A rising ramp over 1024 samples, across 40 columns.
    let rows: Vec<u16> = (0..1024).map(|i| (i * 16 / 1024) as u16).collect();
    let grid = render(&rows, 40, 16, ScopeStyle::Dots);
    let first = (0..16).find(|&y| at(&grid, 0, y).symbol == LINE).unwrap();
    let last = (0..16).find(|&y| at(&grid, 39, y).symbol == LINE).unwrap();
    assert_eq!(first, 15, "the first column shows the first sample");
    // Column 39 shows sample 39 * 1024 / 40 = 998, on row 15 from the bottom.
    assert_eq!(last, 0);
}

#[test]
fn the_trace_keeps_the_background_it_is_drawn_over() {
    let area = Area {
        x: 1,
        y: 1,
        width: 2,
        height: 2,
    };
    let mut grid = Grid::empty(Area {
        x: 0,
        y: 0,
        width: 4,
        height: 4,
    });
    for cell in grid.cells.iter_mut() {
        cell.bg = Color::Blue;
    }
    let colours = ladder();
    Trace {
        rows: &[1, 0],
        colours: &colours,
        style: ScopeStyle::Dots,
    }
    .render(area, &mut grid);
    assert_eq!(at(&grid, 1, 1).symbol, LINE, "row 1 from the bottom of the area");
    assert_eq!(at(&grid, 2, 2).symbol, LINE, "row 0 from the bottom of the area");
    assert_eq!(at(&grid, 1, 1).bg, Color::Blue);
    assert_eq!(at(&grid, 0, 0).symbol, " ", "outside the area is left alone");
    assert_eq!(at(&grid, 3, 1).symbol, " ");
}

#[test]
fn the_colour_ladder_is_a_v_about_the_centre() {
    let levels: Vec<usize> = (0..16).map(oscilloscope_level).collect();
    assert_eq!(levels, vec![3, 3, 2, 2, 1, 1, 0, 0, 1, 1, 2, 2, 3, 3, 4, 4]);
}
