use rav::surface::text::{help_area, help_area_in, width, width_in, Bitmap, Font8x8, Leftmost};
use rav::ui::grid::Grid;
use rav::ui::help::{Area, Help, HelpRow};
use rav::visual::colors::Color;

/// A font of two glyphs, so the geometry can be checked without deciding
/// which real one rav ships. `#` is solid, `|` is a single left column.
struct Probe;

/// The rows of each glyph the font carries.
fn two_glyphs(ch: char) -> Option<&'static [u8]> {
    match ch {
        '#' => Some(&[0xff, 0xff, 0xff, 0xff]),
        '|' => Some(&[0x80, 0x80, 0x80, 0x80]),
        _ => None,
    }
}

impl Bitmap for Probe {
    fn leftmost(&self) -> Leftmost {
        Leftmost::HighBit
    }
    fn cell(&self) -> (u32, u32) {
        (8, 4)
    }
    fn rows(&self, ch: char, into: &mut [u8]) -> bool {
        let Some(glyph) = two_glyphs(ch) else {
            return false;
        };
        let n = into.len().min(glyph.len());
        into[..n].copy_from_slice(&glyph[..n]);
        true
    }
    fn spec_cell(&self) -> (u32, u32) {
        self.cell()
    }
    fn spec_carries(&self, ch: char) -> bool {
        two_glyphs(ch).is_some()
    }
    fn spec_row(&self, ch: char, _len: usize, k: usize, before: u8) -> u8 {
        two_glyphs(ch).and_then(|g| g.get(k).copied()).unwrap_or(before)
    }
    fn spec_leftmost(&self) -> Leftmost {
        self.leftmost()
    }
}

fn rows() -> Vec<HelpRow<'static>> {
    vec![
        HelpRow {
            key: "#",
            description: "##",
            value: Some("#".to_string()),
        },
        HelpRow {
            key: "|",
            description: "##",
            value: None,
        },
    ]
}

fn terminal_rows() -> Vec<HelpRow<'static>> {
    vec![
        HelpRow {
            key: "q",
            description: "quit",
            value: None,
        },
        HelpRow {
            key: "r",
            description: "frequency range",
            value: Some("up to 16 kHz".into()),
        },
    ]
}

#[test]
fn the_panel_sits_on_whole_cells_and_inside_the_screen() {
    let (x, y, wide, tall) = help_area(&Probe, &rows(), "##", (240, 120)).unwrap();
    assert_eq!((x % 8, y % 4), (0, 0), "not on a cell boundary");
    assert!(x + wide <= 240 && y + tall <= 120, "it hangs off the screen");
    assert!(wide > 0 && tall > 0);
}

#[test]
fn a_window_too_small_has_nowhere_to_put_one() {
    assert_eq!(help_area(&Probe, &rows(), "##", (4, 2)), None);
}

#[test]
fn a_font_with_no_size_is_declined() {
    struct Nothing;
    impl Bitmap for Nothing {
        fn leftmost(&self) -> Leftmost {
            Leftmost::HighBit
        }
        fn cell(&self) -> (u32, u32) {
            (0, 0)
        }
        fn rows(&self, _: char, _: &mut [u8]) -> bool {
            false
        }
        fn spec_cell(&self) -> (u32, u32) {
            self.cell()
        }
        fn spec_carries(&self, _: char) -> bool {
            false
        }
        fn spec_row(&self, _: char, _len: usize, _k: usize, before: u8) -> u8 {
            before
        }
        fn spec_leftmost(&self) -> Leftmost {
            self.leftmost()
        }
    }
    assert_eq!(help_area(&Nothing, &rows(), "x", (64, 64)), None);
}

#[test]
fn the_panel_is_placed_exactly() {
    // Rows are 1 + 2 + 3 = 6 wide against a one-character key column, so the
    // panel wants 14; the title wants 8. 30 cells across, 30 down.
    assert_eq!(
        help_area_in((8, 4), &rows(), "##", (240, 120)),
        Some((64, 48, 112, 24))
    );
}

#[test]
fn the_key_column_is_the_widest_key() {
    let rows = vec![
        HelpRow {
            key: "space",
            description: "switch visualisation",
            value: Some("analyser".into()),
        },
        HelpRow {
            key: "up/down",
            description: "gain",
            value: None,
        },
    ];
    let help = Help {
        rows: &rows,
        title: "rav",
    };
    assert_eq!(help.key_width(), 7);
    // 7 + 20 + 8 + 2 = 37, plus the border.
    assert_eq!(help.desired_width(), 45);
}

#[test]
fn a_long_title_widens_the_panel() {
    let rows = terminal_rows();
    let help = Help {
        rows: &rows,
        title: "a title far wider than every row in the panel",
    };
    assert_eq!(help.desired_width(), 45 + 6);
}

#[test]
fn the_panel_is_centred_and_shrinks_to_fit() {
    let rows = terminal_rows();
    let help = Help {
        rows: &rows,
        title: "rav",
    };
    assert_eq!(help.desired_width(), 1 + 15 + 14 + 8);
    let big = help.panel(Area {
        x: 0,
        y: 0,
        width: 60,
        height: 12,
    });
    assert_eq!(
        big,
        Area {
            x: 11,
            y: 3,
            width: 38,
            height: 6
        }
    );
    let small = help.panel(Area {
        x: 2,
        y: 1,
        width: 10,
        height: 3,
    });
    assert_eq!(
        small,
        Area {
            x: 2,
            y: 1,
            width: 10,
            height: 3
        }
    );
}

#[test]
fn width_is_one_cell_per_character() {
    assert_eq!(width(&Probe, "###"), 24);
    assert_eq!(width_in(8, "héllo"), 40, "characters, not bytes");
    assert_eq!(width(&Font8x8, ""), 0);
}

#[test]
fn every_character_the_panel_writes_is_carried() {
    let mut glyph = [0u8; 8];
    for ch in " abcdefghijklmnopqrstuvwxyzABCDEFGHIJKLMNOPQRSTUVWXYZ0123456789-+/:.,()".chars() {
        assert!(Font8x8.rows(ch, &mut glyph), "no glyph for {ch:?}");
    }
}

#[test]
fn the_shipped_font_is_ascii_in_eight_by_eight_cells() {
    let mut glyph = [0u8; 8];
    assert!(!Font8x8.rows('é', &mut glyph), "the basic table stops at ASCII");
    assert_eq!(Font8x8.cell(), (8, 8));
    assert_eq!(Font8x8.leftmost(), Leftmost::LowBit);
}

#[test]
fn an_l_glyph_has_its_stem_in_the_left_columns() {
    let mut glyph = [0u8; 8];
    assert!(Font8x8.rows('L', &mut glyph));
    let leftmost = Font8x8.leftmost();
    let lit = |column: u32| glyph.iter().filter(|&&row| row & leftmost.mask(column) != 0).count();
    assert!(lit(1) > lit(6), "the stem is on the right, so the font is mirrored");
}

#[test]
fn a_short_buffer_takes_only_the_rows_it_has_room_for() {
    let mut short = [0xaau8; 3];
    assert!(Font8x8.rows('#', &mut short));
    let mut full = [0u8; 8];
    Font8x8.rows('#', &mut full);
    assert_eq!(short, full[..3]);
    let mut long = [0xaau8; 10];
    Font8x8.rows('#', &mut long);
    assert_eq!(&long[..8], &full[..]);
    assert_eq!(&long[8..], &[0xaa, 0xaa], "rows past the glyph are left alone");
}

#[test]
fn the_panel_fits_the_window_rav_opens_at() {
    // Twenty rows against the fourteen the panel has, at the size a window
    // opens at, in the font rav ships.
    let rows: Vec<HelpRow<'static>> = (0..20)
        .map(|_| HelpRow {
            key: "up/down",
            description: "grid behind the bars",
            value: Some("up to 16 kHz".to_string()),
        })
        .collect();
    let opens_at = (960, 320);
    let (_, _, wide, tall) = help_area(&Font8x8, &rows, "rav", opens_at)
        .expect("no room for a panel at the size a window opens at");
    let (_, down) = Bitmap::cell(&Font8x8);
    assert!(
        tall >= (rows.len() as u32 + 4) * down,
        "rows are being cut: {tall}px for {} rows of {down}px",
        rows.len()
    );
    assert!(wide <= opens_at.0 && tall <= opens_at.1);
}

fn render_help(rows: &[HelpRow], w: u16, h: u16) -> Grid {
    let area = Area {
        x: 0,
        y: 0,
        width: w,
        height: h,
    };
    let mut grid = Grid::empty(area);
    Help { rows, title: "rav" }.render(area, &mut grid);
    grid
}

fn render(w: u16, h: u16) -> Grid {
    render_help(&terminal_rows(), w, h)
}

fn text_of(grid: &Grid) -> String {
    let a = grid.area;
    (0..a.height)
        .map(|y| {
            (0..a.width)
                .map(|x| grid.cells[(y * a.width + x) as usize].symbol.clone())
                .collect::<String>()
        })
        .collect::<Vec<_>>()
        .join("\n")
}

#[test]
fn shows_keys_descriptions_and_current_values() {
    let out = text_of(&render(60, 12));
    assert!(out.contains("quit"), "missing a description:\n{out}");
    assert!(out.contains("frequency range"));
    assert!(out.contains("up to 16 kHz"), "missing the value:\n{out}");
}

#[test]
fn the_panel_is_centred_and_framed() {
    let grid = render(60, 12);
    let out = text_of(&grid);
    assert!(out.contains('╭') && out.contains('╯'), "no frame:\n{out}");
    assert_eq!(grid.cells[0].symbol, " ");
}

#[test]
fn it_shrinks_rather_than_overflowing_a_small_terminal() {
    for (w, h) in [(0u16, 0u16), (1, 1), (10, 3), (20, 5), (200, 60)] {
        let grid = render(w, h);
        assert_eq!(grid.area.width, w, "must not resize the area");
    }
}

#[test]
fn every_row_shows_its_value_at_a_normal_terminal_size() {
    let rows = vec![
        HelpRow {
            key: "space",
            description: "switch visualisation",
            value: Some("analyser".into()),
        },
        HelpRow {
            key: "r",
            description: "frequency range",
            value: Some("up to 16 kHz".into()),
        },
        HelpRow {
            key: "up/down",
            description: "gain (0 resets)",
            value: Some("+0 dB".into()),
        },
    ];
    let out = text_of(&render_help(&rows, 80, 24));
    for want in ["up to 16 kHz", "analyser", "+0 dB"] {
        assert!(out.contains(want), "missing {want:?} in:\n{out}");
    }
}

#[test]
fn a_value_is_dropped_rather_than_overlapping_its_description() {
    let out = text_of(&render(24, 10));
    assert!(!out.contains("up to 16 kHz"));
}

#[test]
fn the_panel_is_drawn_exactly() {
    // The panel of `terminal_rows` is 38 by 6, centred in 60 by 12 at (11, 3).
    let grid = render(60, 12);
    let lines: Vec<String> = text_of(&grid).lines().map(|l| l.to_string()).collect();
    let panel = |y: usize| lines[y].chars().skip(11).take(38).collect::<String>();
    assert_eq!(panel(3), format!("╭{} rav {}╮", "─".repeat(15), "─".repeat(16)));
    assert_eq!(panel(4), format!("│{}│", " ".repeat(36)));
    assert_eq!(panel(5), format!("│ q  quit{}│", " ".repeat(28)));
    assert_eq!(panel(6), format!("│ r  frequency range{}up to 16 kHz │", " ".repeat(4)));
    assert_eq!(panel(8), format!("╰{}╯", "─".repeat(36)));
    let at = |x: u16, y: u16| &grid.cells[(y * 60 + x) as usize];
    assert_eq!(at(11, 3).fg, Color::Rgb(90, 100, 110), "the frame");
    assert_eq!(at(29, 3).fg, Color::Rgb(239, 187, 49), "the title");
    assert_eq!(at(13, 5).fg, Color::Rgb(239, 187, 49), "a key");
    assert_eq!(at(16, 5).fg, Color::Rgb(222, 222, 222), "a description");
    assert_eq!(at(40, 6).fg, Color::Rgb(41, 206, 16), "a value");
    assert_eq!(at(20, 7).bg, Color::Rgb(16, 20, 26), "the fill");
    assert_eq!(at(10, 3).bg, Color::Reset, "outside the panel");
}
