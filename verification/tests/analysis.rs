use rav::testing::notes::Note;
use rav::testing::visual_analyzer::VisualAnalyzer;
use rav::ui::grid::Grid;
use rav::ui::help::Area;
use rav::visual::colors::Color;

#[test]
fn repeating_segments_are_found_sorted_and_once() {
    assert_eq!(
        VisualAnalyzer::find_repeating_segments("abababab", 2),
        vec!["ab".to_string(), "ba".to_string()]
    );
    assert_eq!(
        VisualAnalyzer::find_repeating_segments("abcd", 1),
        Vec::<String>::new()
    );
    assert!(VisualAnalyzer::find_repeating_segments("xxxx", 2).is_empty(), "under half only");
    assert_eq!(VisualAnalyzer::find_repeating_segments("xxxxx", 2), Vec::<String>::new());
    assert_eq!(
        VisualAnalyzer::find_repeating_segments("abcabcabcx", 2),
        vec!["abc".to_string(), "bca".to_string(), "cab".to_string()]
    );
}

#[test]
fn dominant_colours_come_most_frequent_first() {
    let counts = vec![
        ("red".to_string(), 3),
        ("green".to_string(), 9),
        ("blue".to_string(), 3),
        ("grey".to_string(), 5),
    ];
    assert_eq!(
        VisualAnalyzer::find_dominant_colors(&counts, 3),
        vec![
            ("green".to_string(), 9),
            ("grey".to_string(), 5),
            ("red".to_string(), 3),
        ]
    );
    // Equal counts keep the order they were tallied in.
    assert_eq!(
        VisualAnalyzer::find_dominant_colors(&counts, 10)[3],
        ("blue".to_string(), 3)
    );
    assert!(VisualAnalyzer::find_dominant_colors(&counts, 0).is_empty());
}

#[test]
fn an_octave_is_twelve_semitones() {
    assert_eq!(Note(60).octave_up(1), Note(72));
    assert_eq!(Note(21).octave_up(3), Note(57));
    assert_eq!(Note(60).octave_up(0), Note(60));
}


/// A 3 by 2 grid: `#` at (0, 0) and (2, 0) in red, `x` at (2, 1) in an exact
/// colour, and blanks (one of them a non-breaking space) elsewhere.
fn sample_grid() -> Grid {
    let mut grid = Grid::empty(Area {
        x: 0,
        y: 0,
        width: 3,
        height: 2,
    });
    grid.cells[0].symbol = "#".to_string();
    grid.cells[0].fg = Color::Red;
    grid.cells[2].symbol = "#".to_string();
    grid.cells[2].fg = Color::Red;
    grid.cells[4].symbol = "\u{a0}".to_string();
    grid.cells[5].symbol = "x".to_string();
    grid.cells[5].fg = Color::Rgb(1, 2, 3);
    grid
}

#[test]
fn density_counts_what_shows_and_where() {
    let density = VisualAnalyzer::density(&sample_grid());
    assert_eq!(density.total_cells, 6);
    assert_eq!(density.filled_cells, 3, "white space of any kind is empty");
    assert_eq!(density.vertical, vec![2, 1]);
    assert_eq!(density.horizontal, vec![1, 0, 2]);
}

#[test]
fn a_tally_lists_each_colour_once_in_the_order_met() {
    let tally = VisualAnalyzer::colour_tally(&sample_grid());
    assert_eq!(
        tally,
        vec![(Color::Red, 2), (Color::Reset, 3), (Color::Rgb(1, 2, 3), 1)]
    );
    assert_eq!(VisualAnalyzer::rgb_variety(&tally), 1);
}

#[test]
fn a_tally_lists_no_colour_the_grid_is_not_drawn_in() {
    let mut grid = sample_grid();
    for cell in grid.cells.iter_mut() {
        cell.fg = Color::Blue;
    }
    assert_eq!(VisualAnalyzer::colour_tally(&grid), vec![(Color::Blue, 6)]);
}

#[test]
fn exact_colours_are_collected_cell_by_cell() {
    let mut grid = sample_grid();
    grid.cells[1].fg = Color::Rgb(9, 9, 9);
    grid.cells[3].fg = Color::Rgb(1, 2, 3);
    assert_eq!(
        VisualAnalyzer::rgb_cells(&grid),
        vec![(9, 9, 9), (1, 2, 3), (1, 2, 3)]
    );
    let tally = VisualAnalyzer::colour_tally(&grid);
    assert_eq!(VisualAnalyzer::rgb_variety(&tally), 2, "two distinct exact colours");
}

#[test]
fn a_row_reads_as_its_symbols_in_order() {
    let grid = sample_grid();
    assert_eq!(VisualAnalyzer::row_text(&grid, 0), "# #");
    assert_eq!(VisualAnalyzer::row_text(&grid, 1), " \u{a0}x");
}

#[test]
fn named_colours_are_judged_by_their_textbook_values() {
    assert_eq!(VisualAnalyzer::color_to_rgb(Color::Black), (0, 0, 0));
    assert_eq!(VisualAnalyzer::color_to_rgb(Color::White), (255, 255, 255));
    assert_eq!(VisualAnalyzer::color_to_rgb(Color::DarkGray), (64, 64, 64));
    assert_eq!(VisualAnalyzer::color_to_rgb(Color::LightBlue), (128, 128, 255));
    assert_eq!(VisualAnalyzer::color_to_rgb(Color::Rgb(7, 8, 9)), (7, 8, 9));
    assert_eq!(VisualAnalyzer::color_to_rgb(Color::Indexed(3)), (128, 128, 128));
    assert_eq!(VisualAnalyzer::color_to_rgb(Color::Reset), (128, 128, 128));
}

#[test]
fn an_empty_grid_has_nothing_drawn() {
    let grid = Grid::empty(Area {
        x: 0,
        y: 0,
        width: 0,
        height: 0,
    });
    let density = VisualAnalyzer::density(&grid);
    assert_eq!((density.total_cells, density.filled_cells), (0, 0));
    assert!(density.vertical.is_empty() && density.horizontal.is_empty());
    assert!(VisualAnalyzer::colour_tally(&grid).is_empty());
}
