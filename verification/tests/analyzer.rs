use rav::ui::analyzer::{block, BarLayout, BarStyle, Peaks};

#[test]
fn peaks_cycle_through_every_level() {
    let mut p = Peaks::default();
    assert_eq!(p, Peaks::Fine, "finest is the default");
    let mut seen = vec![p.label()];
    for _ in 0..2 {
        p = p.next();
        seen.push(p.label());
    }
    assert_eq!(seen, vec!["fine", "coarse", "off"]);
    assert_eq!(p.next(), Peaks::Fine, "cycles back round");
}

#[test]
fn the_default_bar_style_climbs_by_eighths() {
    assert_eq!(BarStyle::default(), BarStyle::Blocks);
    assert_eq!(BarStyle::Blocks.glyph(), block(8));
}

#[test]
fn every_bar_style_labels_itself_and_cycles() {
    let mut style = BarStyle::default();
    let mut seen = vec![style.label()];
    for _ in 0..5 {
        style = style.next();
        seen.push(style.label());
    }
    assert_eq!(
        seen,
        vec!["blocks", "solid", "thick", "half", "line", "shade"]
    );
    assert_eq!(style.next(), BarStyle::Blocks, "cycles back round");
}

#[test]
fn layout_counts_bars_without_a_trailing_gap() {
    let l = BarLayout {
        bar_width: 3,
        spacing: 1,
    };
    // 3 + 1 + 3 = 7 columns holds two bars.
    assert_eq!(l.bar_count(7), 2);
    assert_eq!(l.bar_count(3), 1);
    assert_eq!(l.x_of(2), 8);
}

#[test]
fn partial_glyphs_only_come_from_the_sub_cell_styles() {
    for style in [
        BarStyle::Solid,
        BarStyle::Thick,
        BarStyle::Half,
        BarStyle::Line,
    ] {
        assert!(!style.sub_cell(), "{} claims sub-cell", style.label());
        for remainder in 0..8 {
            assert_eq!(style.partial(remainder), style.glyph());
        }
    }
    assert!(BarStyle::Blocks.sub_cell() && BarStyle::Shade.sub_cell());
}

#[test]
fn a_shaded_top_cell_darkens_in_three_steps() {
    let seen: Vec<&str> = (0..8).map(|r| BarStyle::Shade.partial(r)).collect();
    assert_eq!(seen, vec![" ", "░", "▒", "▒", "▒", "▓", "▓", "▓"]);
    assert_eq!(BarStyle::Blocks.partial(3), "▃");
}

#[test]
fn the_grid_behind_a_full_cell_style_is_a_full_block() {
    assert_eq!(BarStyle::Shade.grid_glyph(), "█");
    assert_eq!(BarStyle::Blocks.grid_glyph(), "█");
    assert_eq!(BarStyle::Line.grid_glyph(), "━");
    assert!(BarStyle::Shade.fills_cell() && !BarStyle::Half.fills_cell());
}

#[test]
fn a_layout_with_no_width_counts_one_bar_per_column() {
    let l = BarLayout {
        bar_width: 0,
        spacing: 0,
    };
    assert_eq!(l.bar_count(5), 5);
    assert_eq!(l.x_of(4), 0);
    let default = BarLayout::default();
    assert_eq!((default.bar_width, default.spacing), (3, 1));
    assert_eq!(default.bar_count(80), 20);
}

#[test]
fn every_counted_bar_fits_and_one_more_would_not() {
    let l = BarLayout {
        bar_width: 3,
        spacing: 2,
    };
    for width in 0..60u16 {
        let count = l.bar_count(width);
        for i in 0..count {
            assert!(l.x_of(i) + 3 <= width, "bar {i} of {count} overhangs {width}");
        }
        assert!(l.x_of(count) + 3 > width, "room for another at {width}");
    }
}

use rav::ui::analyzer::{Bars, Column};
use rav::ui::grid::{Cell, Grid};
use rav::ui::help::Area;
use rav::visual::colors::Color;

const CAP_LOW: &str = "\u{2581}";
const CAP_MID: &str = "\u{2501}";
const CAP_HIGH: &str = "\u{2594}";
const CAP: Color = Color::Rgb(160, 160, 160);

/// Lit colour per row, bottom-up: green at the floor, red at the top.
fn ramp(h: u16) -> Vec<Color> {
    (0..h)
        .map(|r| Color::Rgb((r * 255 / h.max(1)) as u8, 255 - (r * 255 / h.max(1)) as u8, 0))
        .collect()
}

/// Backdrop colour per row, bottom-up.
fn backdrop(h: u16) -> Vec<Color> {
    (0..h).map(|r| Color::Indexed(16 + r as u8)).collect()
}

/// A bar measured as the analyser measures it: `eighths` of a cell for the
/// sub-cell styles, `rows` whole rows for the rest, and a cap if one is drawn.
fn bar(style: BarStyle, eighths: usize, rows: usize, cap: Option<(u16, &'static str)>) -> Column {
    Column::measure(style, eighths, rows, cap)
}

fn draw(columns: &[Column], w: u16, h: u16, grid: bool, style: BarStyle) -> Grid {
    let area = Area {
        x: 0,
        y: 0,
        width: w,
        height: h,
    };
    let mut out = Grid::empty(area);
    let colors = ramp(h);
    let fill = backdrop(h);
    Bars {
        columns,
        row_colors: &colors,
        cap_color: CAP,
        grid: if grid { Some(&fill) } else { None },
        bar_style: style,
        layout: BarLayout {
            bar_width: 1,
            spacing: 0,
        },
    }
    .render(area, &mut out);
    out
}

fn at(grid: &Grid, x: u16, y: u16) -> &Cell {
    &grid.cells[(y * grid.area.width + x) as usize]
}

const EVERY_STYLE: [BarStyle; 6] = [
    BarStyle::Shade,
    BarStyle::Blocks,
    BarStyle::Solid,
    BarStyle::Thick,
    BarStyle::Half,
    BarStyle::Line,
];

#[test]
fn a_full_bar_fills_its_column() {
    // A full bar on 8 rows is 64 eighths; its peak sits on the top row.
    let g = draw(&[bar(BarStyle::Blocks, 64, 8, Some((7, CAP_MID)))], 1, 8, false, BarStyle::Blocks);
    for y in 1..8 {
        assert_eq!(at(&g, 0, y).symbol, "█", "row {y}");
    }
}

#[test]
fn partial_bars_use_eighth_blocks() {
    // 0.55 of 8 rows is 35 eighths: four full cells and a 3/8 top.
    let g = draw(&[bar(BarStyle::Blocks, 35, 4, None)], 1, 8, false, BarStyle::Blocks);
    assert_eq!(at(&g, 0, 7).symbol, "█", "bottom row full");
    assert_eq!(at(&g, 0, 4).symbol, "█", "fourth row full");
    assert_eq!(at(&g, 0, 3).symbol, "▃", "top of the bar is a 3/8 block");
    assert_eq!(at(&g, 0, 2).symbol, " ", "nothing above it");
}

#[test]
fn colour_depends_on_the_row_not_the_bar_height() {
    // Full scale and 0.3 of it on 16 rows: 128 and 38 eighths.
    let columns = [
        bar(BarStyle::Blocks, 128, 16, None),
        bar(BarStyle::Blocks, 38, 5, None),
    ];
    let g = draw(&columns, 2, 16, false, BarStyle::Blocks);
    for y in 12..16 {
        assert_eq!(at(&g, 0, y).fg, at(&g, 1, y).fg, "colour differed at row {y}");
    }
}

#[test]
fn the_ramp_runs_green_at_the_bottom_to_red_at_the_top() {
    let g = draw(&[bar(BarStyle::Blocks, 128, 16, None)], 1, 16, false, BarStyle::Blocks);
    assert_eq!(at(&g, 0, 15).fg, ramp(16)[0], "bottom is the first stop");
    assert_eq!(at(&g, 0, 0).fg, ramp(16)[15], "top is the last stop");
}

#[test]
fn a_cap_never_sits_level_with_the_bar_it_belongs_to() {
    // 0.53 of 16 rows: 67 eighths, so eight rows and 3/8 of the ninth; the
    // peak at 8.48 rows sits low in row 8, inside the bar's partial top.
    let h = 16;
    let g = draw(&[bar(BarStyle::Blocks, 67, 8, Some((8, CAP_LOW)))], 1, h, false, BarStyle::Blocks);
    let cap_row = (0..h).find(|&y| at(&g, 0, y).fg == CAP).expect("a cap should be drawn");
    let top_lit = (0..h)
        .find(|&y| at(&g, 0, y).symbol != " " && at(&g, 0, y).fg != CAP)
        .expect("a bar should be drawn");
    assert!(cap_row < top_lit, "cap at row {cap_row}, bar top at {top_lit}");
}

#[test]
fn every_bar_style_keeps_its_cap_clear_of_the_bar() {
    // Levels 0.44, 0.5, 0.62 and 0.77 of 8 rows: in eighths, in rounded rows,
    // and where their peaks fall.
    let levels: [(usize, usize, (u16, &'static str)); 4] = [
        (28, 4, (3, CAP_MID)),
        (32, 4, (4, CAP_LOW)),
        (39, 5, (4, CAP_MID)),
        (49, 6, (6, CAP_LOW)),
    ];
    for style in EVERY_STYLE {
        for (eighths, rows, cap) in levels {
            let g = draw(&[bar(style, eighths, rows, Some(cap))], 1, 8, false, style);
            let cap_at = (0..8)
                .find(|&y| at(&g, 0, y).fg == CAP)
                .unwrap_or_else(|| panic!("{} {eighths}: no cap drawn", style.label()));
            let bar_top = (0..8)
                .find(|&y| at(&g, 0, y).symbol != " " && at(&g, 0, y).fg != CAP)
                .unwrap_or_else(|| panic!("{} {eighths}: no bar drawn", style.label()));
            assert!(
                cap_at < bar_top,
                "{} at {eighths}: cap at row {cap_at}, bar top at {bar_top}",
                style.label()
            );
        }
    }
}

#[test]
fn a_short_row_colors_slice_does_not_panic() {
    let area = Area {
        x: 0,
        y: 0,
        width: 1,
        height: 40,
    };
    let mut g = Grid::empty(area);
    let colors = ramp(24);
    Bars {
        columns: &[bar(BarStyle::Blocks, 320, 40, Some((39, CAP_MID)))],
        row_colors: &colors,
        cap_color: CAP,
        grid: None,
        bar_style: BarStyle::Blocks,
        layout: BarLayout {
            bar_width: 1,
            spacing: 0,
        },
    }
    .render(area, &mut g);
    assert_eq!(at(&g, 0, 1).fg, colors[23], "rows past the list take its last colour");
}

#[test]
fn a_full_height_bar_keeps_its_cap_on_the_top_row() {
    let g = draw(&[bar(BarStyle::Blocks, 64, 8, Some((7, CAP_MID)))], 1, 8, false, BarStyle::Blocks);
    assert_eq!(at(&g, 0, 0).fg, CAP);
}

#[test]
fn a_cap_above_the_bar_does_not_invent_a_bar_colour() {
    // 0.1 of 8 rows is 6 eighths; the peak is at full scale.
    let g = draw(&[bar(BarStyle::Blocks, 6, 1, Some((7, CAP_MID)))], 1, 8, false, BarStyle::Blocks);
    assert_eq!(at(&g, 0, 0).bg, Color::Reset);
}

#[test]
fn a_cap_draws_over_the_bar_beneath_it() {
    let g = draw(&[bar(BarStyle::Blocks, 64, 8, Some((7, CAP_MID)))], 1, 8, false, BarStyle::Blocks);
    assert!(
        [CAP_LOW, CAP_MID, CAP_HIGH].contains(&at(&g, 0, 0).symbol.as_str()),
        "cap wins over a full bar"
    );
    assert_eq!(at(&g, 0, 0).fg, CAP, "cap is grey");
}

#[test]
fn a_cap_rests_on_the_floor_rather_than_vanishing() {
    let g = draw(&[bar(BarStyle::Blocks, 0, 0, Some((0, CAP_LOW)))], 1, 16, false, BarStyle::Blocks);
    assert_eq!(at(&g, 0, 15).symbol, CAP_LOW, "the bottom row should carry the cap");
    assert_eq!(at(&g, 0, 15).fg, CAP);
}

#[test]
fn partial_blocks_and_caps_sit_on_the_grid_colour() {
    // 0.3 of 8 rows is 19 eighths, a partial third row; the peak at 0.9 sits
    // low in the top row.
    let g = draw(&[bar(BarStyle::Blocks, 19, 2, Some((7, CAP_LOW)))], 1, 8, true, BarStyle::Blocks);
    let partial = (0..8).find(|&y| {
        let sym = at(&g, 0, y).symbol.as_str();
        sym != "█" && sym != " " && ![CAP_LOW, CAP_MID, CAP_HIGH].contains(&sym)
    });
    let partial = partial.expect("expected a partial block somewhere");
    assert_eq!(at(&g, 0, partial).bg, backdrop(8)[(7 - partial) as usize], "partial block bg");
    let cap = (0..8)
        .find(|&y| [CAP_LOW, CAP_MID, CAP_HIGH].contains(&at(&g, 0, y).symbol.as_str()))
        .unwrap();
    assert_eq!(at(&g, 0, cap).bg, backdrop(8)[(7 - cap) as usize], "cap bg");
}

#[test]
fn every_cell_takes_the_backdrop_colour_of_its_own_row() {
    for style in [BarStyle::Blocks, BarStyle::Shade] {
        let g = draw(&[bar(style, 35, 4, Some((7, CAP_LOW)))], 1, 8, true, style);
        for y in 0..8u16 {
            assert_eq!(
                at(&g, 0, y).bg,
                backdrop(8)[(7 - y) as usize],
                "{} row {y} does not match its backdrop",
                style.label()
            );
        }
    }
}

#[test]
fn with_the_grid_off_the_terminal_background_is_left_alone() {
    let g = draw(&[bar(BarStyle::Blocks, 19, 2, Some((7, CAP_LOW)))], 1, 8, false, BarStyle::Blocks);
    for y in 0..8 {
        assert_eq!(at(&g, 0, y).bg, Color::Reset, "row {y} must stay untouched");
    }
}

#[test]
fn a_lit_bar_paints_over_its_unlit_segments() {
    let g = draw(&[bar(BarStyle::Blocks, 64, 8, Some((0, CAP_LOW)))], 1, 8, true, BarStyle::Blocks);
    for y in 1..8u16 {
        assert_ne!(at(&g, 0, y).fg, backdrop(8)[(7 - y) as usize], "row {y} should be lit, not grid");
    }
}

#[test]
fn bars_paint_over_the_grid() {
    let g = draw(&[bar(BarStyle::Blocks, 64, 8, Some((0, CAP_LOW)))], 1, 8, true, BarStyle::Blocks);
    assert_ne!(
        at(&g, 0, 6).fg,
        backdrop(8)[1],
        "row is still the unlit colour - the bar did not paint over it"
    );
}

#[test]
fn degenerate_areas_do_not_panic() {
    for (w, h) in [(0u16, 0u16), (1, 1), (1, 80), (200, 1), (3, 2)] {
        // Half scale and 0.9 of it, with peaks at 0.7 and full scale.
        let top = h.saturating_sub(1);
        let columns = [
            bar(BarStyle::Blocks, 4 * h as usize, 0, Some(((h * 7 / 10).min(top), CAP_LOW))),
            bar(BarStyle::Blocks, (72 * h as usize) / 10, 0, Some((top, CAP_MID))),
        ];
        let g = draw(&columns, w, h, true, BarStyle::Blocks);
        assert_eq!(g.cells.len(), w as usize * h as usize);
    }
}

#[test]
fn the_shade_style_resolves_below_a_row_by_density() {
    // 0.30, 0.36 and 0.42 of 8 rows: 19, 23 and 26 eighths.
    let seen: Vec<&str> = [19usize, 23, 26]
        .iter()
        .map(|&eighths| {
            let g = draw(&[bar(BarStyle::Shade, eighths, 0, None)], 1, 8, false, BarStyle::Shade);
            (0..8)
                .find(|&y| at(&g, 0, y).symbol != " ")
                .map(|y| match at(&g, 0, y).symbol.as_str() {
                    "░" => "light",
                    "▒" => "medium",
                    "▓" => "dark",
                    other => panic!("unexpected glyph {other:?}"),
                })
                .expect("something should be drawn")
        })
        .collect();
    assert!(seen.windows(2).any(|w| w[0] != w[1]), "the top cell never changed density: {seen:?}");
}

#[test]
fn the_whole_row_styles_never_show_a_partial_cell() {
    for style in [BarStyle::Solid, BarStyle::Thick, BarStyle::Half, BarStyle::Line] {
        assert!(!style.sub_cell(), "{} claims sub-cell", style.label());
        // 0.55 of 8 rows: 35 eighths, or 4 rows rounded.
        let g = draw(&[bar(style, 35, 4, None)], 1, 8, false, style);
        let drawn: Vec<String> = (0..8).map(|y| at(&g, 0, y).symbol.clone()).collect();
        assert!(
            drawn.iter().all(|g| g == " " || g == style.glyph()),
            "{} drew a partial cell: {drawn:?}",
            style.label()
        );
    }
}

#[test]
fn the_grid_is_a_background_fill_for_the_full_cell_styles() {
    for style in [BarStyle::Blocks, BarStyle::Shade] {
        let area = Area {
            x: 0,
            y: 0,
            width: 1,
            height: 4,
        };
        let mut g = Grid::empty(area);
        let colors = ramp(4);
        Bars {
            columns: &[bar(style, 0, 0, None)],
            row_colors: &colors,
            cap_color: CAP,
            grid: Some(&[Color::Rgb(24, 33, 41); 4]),
            bar_style: style,
            layout: BarLayout {
                bar_width: 1,
                spacing: 0,
            },
        }
        .render(area, &mut g);
        for y in 0..4u16 {
            assert_eq!(at(&g, 0, y).symbol, " ", "{} drew a glyph instead of filling row {y}", style.label());
            assert_eq!(at(&g, 0, y).bg, Color::Rgb(24, 33, 41), "{} left row {y} unfilled", style.label());
        }
    }
}

#[test]
fn a_partial_style_keeps_its_own_shape_in_the_grid_and_takes_no_background() {
    for style in [BarStyle::Solid, BarStyle::Thick, BarStyle::Half, BarStyle::Line] {
        // 0.3 of 8 rows rounds to 2 lit rows; the peak at 0.9 sits in the top row.
        let g = draw(&[bar(style, 19, 2, Some((7, CAP_LOW)))], 1, 8, true, style);
        assert_eq!(at(&g, 0, 3).symbol, style.glyph(), "{} grid should keep its own shape", style.label());
        let cap = (0..8)
            .find(|&y| [CAP_LOW, CAP_MID].contains(&at(&g, 0, y).symbol.as_str()))
            .unwrap_or_else(|| panic!("{}: no cap drawn", style.label()));
        assert_eq!(at(&g, 0, cap).bg, Color::Reset, "{} cap should not be filled", style.label());
    }
}

#[test]
fn more_bars_than_fit_are_truncated_not_wrapped() {
    let columns = vec![bar(BarStyle::Blocks, 32, 4, Some((0, CAP_LOW))); 50];
    let g = draw(&columns, 4, 4, false, BarStyle::Blocks);
    for x in 0..4u16 {
        assert_eq!(at(&g, x, 0).symbol, "█", "column {x} should be filled");
    }
}

#[test]
fn a_gap_between_bars_is_left_alone() {
    let area = Area {
        x: 0,
        y: 0,
        width: 7,
        height: 2,
    };
    let mut g = Grid::empty(area);
    let colors = ramp(2);
    let fill = backdrop(2);
    Bars {
        columns: &[bar(BarStyle::Blocks, 16, 2, None), bar(BarStyle::Blocks, 8, 1, None)],
        row_colors: &colors,
        cap_color: CAP,
        grid: Some(&fill),
        bar_style: BarStyle::Blocks,
        layout: BarLayout::default(),
    }
    .render(area, &mut g);
    let top: String = (0..7).map(|x| at(&g, x, 0).symbol.clone()).collect();
    let bottom: String = (0..7).map(|x| at(&g, x, 1).symbol.clone()).collect();
    assert_eq!(top, "███    ", "the second bar is one row tall");
    assert_eq!(bottom, "███ ███");
    assert_eq!(at(&g, 3, 1).bg, Color::Reset, "the gap takes no backdrop");
    assert_eq!(at(&g, 5, 0).bg, fill[1], "an unlit cell shows the backdrop");
}
