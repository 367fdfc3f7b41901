use rav::surface::overlay::{colours, written};
use rav::ui::grid::{Cell, Grid};
use rav::ui::help::{Area, Help, HelpRow};
use rav::visual::colors::Color;

fn grid(cells: Vec<Cell>, width: u16, height: u16) -> Grid {
    Grid {
        area: Area {
            x: 0,
            y: 0,
            width,
            height,
        },
        cells,
    }
}

fn blank() -> Cell {
    Cell {
        symbol: " ".to_string(),
        fg: Color::Reset,
        bg: Color::Reset,
    }
}

#[test]
fn an_untouched_grid_writes_nothing() {
    assert_eq!(written(&grid(vec![blank(); 6], 3, 2)), "");
}

#[test]
fn a_touched_cell_is_addressed_and_reset() {
    let mut cells = vec![blank(); 6];
    cells[4] = Cell {
        symbol: "x".to_string(),
        fg: Color::Rgb(1, 2, 3),
        bg: Color::Reset,
    };
    assert_eq!(
        written(&grid(cells, 3, 2)),
        "\x1b[2;2H\x1b[38;2;1;2;3;49mx\x1b[0m"
    );
}

#[test]
fn a_filled_space_is_written_so_the_panel_is_solid() {
    let mut cells = vec![blank(); 2];
    cells[1].bg = Color::Indexed(17);
    assert_eq!(
        written(&grid(cells, 2, 1)),
        "\x1b[1;2H\x1b[39;48;5;17m \x1b[0m"
    );
}

#[test]
fn named_colours_keep_their_palette_slots() {
    assert_eq!(colours(Color::Black, Color::White), "\x1b[30;107m");
    assert_eq!(colours(Color::Gray, Color::DarkGray), "\x1b[37;100m");
    assert_eq!(colours(Color::LightCyan, Color::Red), "\x1b[96;41m");
}

#[test]
fn an_offset_area_is_addressed_where_it_sits() {
    let cell = Cell {
        symbol: "#".to_string(),
        fg: Color::Green,
        bg: Color::Blue,
    };
    let at = Grid {
        area: Area {
            x: 10,
            y: 4,
            width: 1,
            height: 1,
        },
        cells: vec![cell],
    };
    assert_eq!(written(&at), "\x1b[5;11H\x1b[32;44m#\x1b[0m");
}

/// A 20 by 5 grid with exactly the given cells painted: symbol and background.
fn spots(painted: &[(u16, u16, &str, Color)]) -> Grid {
    let mut out = Grid::empty(Area {
        x: 0,
        y: 0,
        width: 20,
        height: 5,
    });
    for &(x, y, symbol, bg) in painted {
        let cell = &mut out.cells[(y * 20 + x) as usize];
        cell.symbol = symbol.to_string();
        cell.bg = bg;
    }
    out
}

#[test]
fn a_widget_that_draws_nothing_writes_nothing() {
    let quiet = written(&spots(&[]));
    assert!(quiet.is_empty(), "wrote {quiet:?} over the frame");
}

#[test]
fn only_the_cells_a_widget_touched_are_written() {
    let escape = written(&spots(&[(3, 1, "x", Color::Reset), (4, 1, "y", Color::Reset)]));
    assert_eq!(escape.matches('H').count(), 2, "moved more than twice");
    assert!(escape.contains("\x1b[2;4H"), "x is not at row 2, column 4");
    assert!(escape.contains("\x1b[2;5H"), "y is not at row 2, column 5");
}

#[test]
fn a_space_with_a_background_is_a_cell_the_widget_meant() {
    let filled = written(&spots(&[(1, 1, " ", Color::Rgb(16, 20, 26))]));
    assert!(!filled.is_empty(), "the panel's own background was dropped");
    assert!(filled.contains("48;2;16;20;26"), "not that background");
}

#[test]
fn a_named_colour_goes_out_as_a_palette_slot() {
    let named = written(&spots(&[(0, 0, "g", Color::Green)]));
    assert!(named.contains("42"), "green is not the palette's green: {named}");
    assert!(!named.contains("48;2;"), "it was resolved to an exact colour");
}

#[test]
fn the_real_help_panel_costs_its_own_cells_and_no_more() {
    let rows = [
        HelpRow {
            key: "q",
            description: "quit",
            value: None,
        },
        HelpRow {
            key: "t",
            description: "theme",
            value: Some("rav".into()),
        },
    ];
    let area = Area {
        x: 0,
        y: 0,
        width: 120,
        height: 40,
    };
    let mut out = Grid::empty(area);
    Help {
        rows: &rows,
        title: "rav",
    }
    .render(area, &mut out);
    let escape = written(&out);

    let touched = escape.matches("\x1b[").count() / 3;
    let whole_grid = usize::from(area.width) * usize::from(area.height);
    assert!(touched > 0, "the panel drew nothing");
    assert!(touched < whole_grid / 4, "{touched} of {whole_grid} cells written - the frame is gone");
    assert!(
        escape.contains("48;2;16;20;26"),
        "the panel lost its own background, so the bars show through it",
    );
}

#[test]
fn every_cell_puts_the_style_back() {
    let escape = written(&spots(&[(0, 0, "a", Color::Red)]));
    assert!(escape.ends_with("\x1b[0m"), "the style was left on");
}
