use rav::surface::text::{lay_out, width, Bitmap, Font8x8, Leftmost};

/// A font of two glyphs, so the geometry can be checked without deciding
/// which real one rav ships. `#` is solid, `|` is a single left column.
struct TwoGlyphs;

/// The rows of each glyph the font carries.
fn two_glyphs(ch: char) -> Option<&'static [u8]> {
    match ch {
        '#' => Some(&[0xff, 0xff, 0xff, 0xff]),
        '|' => Some(&[0x80, 0x80, 0x80, 0x80]),
        _ => None,
    }
}

impl Bitmap for TwoGlyphs {
    fn leftmost(&self) -> Leftmost {
        Leftmost::HighBit
    }
    fn cell(&self) -> (u32, u32) {
        (8, 4)
    }
    fn rows(&self, ch: char, into: &mut [u8]) -> bool {
        let Some(glyph) = two_glyphs(ch) else {
            return false;
        };
        let n = into.len().min(glyph.len());
        into[..n].copy_from_slice(&glyph[..n]);
        true
    }
    fn spec_cell(&self) -> (u32, u32) {
        self.cell()
    }
    fn spec_carries(&self, ch: char) -> bool {
        two_glyphs(ch).is_some()
    }
    fn spec_row(&self, ch: char, _len: usize, k: usize, before: u8) -> u8 {
        two_glyphs(ch).and_then(|g| g.get(k).copied()).unwrap_or(before)
    }
    fn spec_leftmost(&self) -> Leftmost {
        self.leftmost()
    }
}

type Placed = (Vec<(u32, u32, u32, u32)>, u32);

fn placed(font: &dyn Bitmap, text: &str, at: (u32, u32)) -> Placed {
    lay_out(font, text, at).expect("inside a u32 frame")
}

/// Whether the laid-out line lights pixel `(x, y)`.
fn inks(line: &Placed, x: u32, y: u32) -> bool {
    line.0
        .iter()
        .any(|&(left, top, wide, tall)| left <= x && x < left + wide && top <= y && y < top + tall)
}

#[test]
fn a_glyph_lands_in_its_own_cell_and_nowhere_else() {
    let line = placed(&TwoGlyphs, "#", (0, 0));
    assert!(inks(&line, 0, 0) && inks(&line, 7, 3), "the cell is not filled");
    assert!(!inks(&line, 8, 0), "it bled into the next cell across");
    assert!(!inks(&line, 0, 4), "it bled into the row below");
}

#[test]
fn the_second_character_starts_one_cell_along() {
    let line = placed(&TwoGlyphs, "||", (0, 0));
    assert!(inks(&line, 0, 0), "the first stroke");
    assert!(inks(&line, 8, 0), "the second, one cell along");
    assert!(!inks(&line, 1, 0), "a single-column glyph filled more than one");
    assert_eq!(line.1, 16, "the caller is told where to carry on");
}

#[test]
fn an_unknown_character_draws_nothing_and_still_takes_its_place() {
    let line = placed(&TwoGlyphs, "?#", (0, 0));
    assert!(!inks(&line, 0, 0), "the unknown one drew something");
    assert!(inks(&line, 8, 0), "the known one moved out of its way");
    assert_eq!(line.1, 16);
}

#[test]
fn an_offset_is_whole_pixels_and_exact() {
    let line = placed(&TwoGlyphs, "#", (3, 2));
    assert!(inks(&line, 3, 2) && inks(&line, 10, 5), "the corners");
    assert!(!inks(&line, 2, 2), "one column left of where it was put");
    assert!(!inks(&line, 3, 1), "one row above");
}

#[test]
fn width_is_what_draw_uses() {
    let line = placed(&TwoGlyphs, "###", (0, 0));
    assert_eq!(line.1, width(&TwoGlyphs, "###"));
}

#[test]
fn the_bit_order_is_asked_for_and_not_assumed() {
    struct OneEdge(Leftmost);
    impl Bitmap for OneEdge {
        fn cell(&self) -> (u32, u32) {
            (8, 1)
        }
        fn rows(&self, _: char, into: &mut [u8]) -> bool {
            if let Some(first) = into.first_mut() {
                *first = 0x01;
            }
            true
        }
        fn spec_cell(&self) -> (u32, u32) {
            self.cell()
        }
        fn spec_carries(&self, _: char) -> bool {
            true
        }
        fn spec_row(&self, _: char, _len: usize, k: usize, before: u8) -> u8 {
            if k == 0 { 0x01 } else { before }
        }
        fn spec_leftmost(&self) -> Leftmost {
            self.leftmost()
        }
        fn leftmost(&self) -> Leftmost {
            self.0
        }
    }

    let high = placed(&OneEdge(Leftmost::HighBit), "x", (0, 0));
    assert!(inks(&high, 7, 0) && !inks(&high, 0, 0), "bit 0 is the right edge");

    let low = placed(&OneEdge(Leftmost::LowBit), "x", (0, 0));
    assert!(inks(&low, 0, 0) && !inks(&low, 7, 0), "bit 0 is the left edge");
}

#[test]
fn a_glyph_taller_than_the_cell_is_cut_to_it() {
    struct TooTall;
    impl Bitmap for TooTall {
        fn leftmost(&self) -> Leftmost {
            Leftmost::HighBit
        }
        fn cell(&self) -> (u32, u32) {
            (8, 2)
        }
        fn rows(&self, _: char, into: &mut [u8]) -> bool {
            into.fill(0xff);
            true
        }
        fn spec_cell(&self) -> (u32, u32) {
            self.cell()
        }
        fn spec_carries(&self, _: char) -> bool {
            true
        }
        fn spec_row(&self, _: char, _len: usize, _k: usize, _before: u8) -> u8 {
            0xff
        }
        fn spec_leftmost(&self) -> Leftmost {
            self.leftmost()
        }
    }
    let line = placed(&TooTall, "x", (0, 0));
    assert!(inks(&line, 0, 1), "inside the cell");
    assert!(!inks(&line, 0, 2), "past the declared height");
}

#[test]
fn a_cell_wider_than_a_row_byte_still_advances_by_the_cell() {
    struct Wide;
    impl Bitmap for Wide {
        fn leftmost(&self) -> Leftmost {
            Leftmost::HighBit
        }
        fn cell(&self) -> (u32, u32) {
            (10, 1)
        }
        fn rows(&self, _: char, into: &mut [u8]) -> bool {
            into.fill(0xff);
            true
        }
        fn spec_cell(&self) -> (u32, u32) {
            self.cell()
        }
        fn spec_carries(&self, _: char) -> bool {
            true
        }
        fn spec_row(&self, _: char, _len: usize, _k: usize, _before: u8) -> u8 {
            0xff
        }
        fn spec_leftmost(&self) -> Leftmost {
            self.leftmost()
        }
    }
    let line = placed(&Wide, "xx", (0, 0));
    assert_eq!(line.1, 20, "the advance followed the clamp instead of the cell");
    assert!(inks(&line, 7, 0), "the eighth column of the first glyph");
    assert!(!inks(&line, 8, 0), "a ninth column a row byte cannot describe");
    assert!(inks(&line, 10, 0), "the second glyph started a whole cell along");
}

#[test]
fn an_l_has_its_stroke_on_the_left() {
    let line = placed(&Font8x8, "L", (0, 0));
    let left = (0..8).filter(|&y| inks(&line, 1, y)).count();
    let right = (0..8).filter(|&y| inks(&line, 6, y)).count();
    assert!(left > right, "the stem is on the right, so the font is mirrored: left {left}, right {right}");
}

#[test]
fn a_line_past_the_edge_of_a_u32_frame_is_declined() {
    assert_eq!(lay_out(&TwoGlyphs, "##", (u32::MAX - 8, 0)), None);
    assert_eq!(lay_out(&TwoGlyphs, "#", (0, u32::MAX - 2)), None);
    assert!(lay_out(&TwoGlyphs, "#", (u32::MAX - 8, 0)).is_some(), "exactly to the edge is fine");
}

#[test]
fn every_run_is_one_pixel_tall_and_a_whole_run_at_once() {
    let line = placed(&TwoGlyphs, "#|", (0, 0));
    assert!(line.0.iter().all(|&(_, _, wide, tall)| tall == 1 && wide > 0));
    assert_eq!(line.0.len(), 8, "four rows of one run in each glyph");
    assert!(line.0.contains(&(0, 0, 8, 1)), "a solid row is one rectangle");
    assert!(line.0.contains(&(8, 3, 1, 1)));
}
