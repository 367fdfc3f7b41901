use rav::ui::grid::Grid;
use rav::ui::help::Area;
use rav::ui::status::Status;
use rav::visual::colors::Color;

fn area(width: u16, height: u16) -> Area {
    Area {
        x: 0,
        y: 0,
        width,
        height,
    }
}

fn rendered(text: &str, width: u16) -> Grid {
    let area = area(width, 3);
    let mut grid = Grid::empty(area);
    Status {
        text,
        foreground: Color::Rgb(222, 222, 222),
        background: Color::Rgb(0, 32, 0),
    }
    .render(area, &mut grid);
    grid
}

fn row(grid: &Grid, y: u16, width: u16) -> String {
    (0..width)
        .map(|x| grid.cells[(y * grid.area.width + x) as usize].symbol.clone())
        .collect()
}

#[test]
fn the_note_is_padded_so_it_reads_as_a_plate() {
    let grid = rendered("gain +3 dB", 20);
    assert_eq!(row(&grid, 0, 12), " gain +3 dB ");
}

#[test]
fn it_occupies_one_row_and_leaves_the_rest_alone() {
    let grid = rendered("peaks off", 20);
    assert_eq!(row(&grid, 1, 20).trim(), "", "the second row is untouched");
    assert_eq!(row(&grid, 2, 20).trim(), "");
}

#[test]
fn a_note_wider_than_the_screen_is_cut_rather_than_wrapped() {
    let grid = rendered("a very long message indeed", 8);
    assert_eq!(row(&grid, 0, 8), " a very ");
    assert_eq!(row(&grid, 1, 8).trim(), "", "nothing spilled onto row two");
}

#[test]
fn it_paints_the_background_it_was_given() {
    let grid = rendered("x", 8);
    assert_eq!(grid.cells[0].bg, Color::Rgb(0, 32, 0));
    assert_eq!(grid.cells[0].fg, Color::Rgb(222, 222, 222));
}

#[test]
fn an_empty_area_draws_nothing_rather_than_panicking() {
    let area = area(0, 0);
    let mut grid = Grid::empty(area);
    Status {
        text: "ignored",
        foreground: Color::White,
        background: Color::Black,
    }
    .render(area, &mut grid);
    assert!(grid.cells.is_empty());
}

#[test]
fn the_note_leaves_the_cells_after_it_as_they_were() {
    let area = area(6, 1);
    let mut grid = Grid::empty(area);
    grid.cells[5].symbol = "z".to_string();
    Status {
        text: "ab",
        foreground: Color::White,
        background: Color::Black,
    }
    .render(area, &mut grid);
    assert_eq!(row(&grid, 0, 6), " ab  z");
    assert_eq!(grid.cells[4].bg, Color::Reset);
    assert_eq!(grid.cells[3].bg, Color::Black);
}
