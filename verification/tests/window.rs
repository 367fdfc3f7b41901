use rav::surface::window::{onto_black, sized, titled, CELL_ACROSS, CELL_DOWN};

fn one(rgba: [u8; 4]) -> u32 {
    let mut out = Vec::new();
    onto_black(&rgba, &mut out);
    out[0]
}

#[test]
fn an_opaque_pixel_keeps_its_colour() {
    assert_eq!(one([0xff, 0xff, 0xff, 0xff]), 0x00ff_ffff, "white");
    assert_eq!(one([0xff, 0x00, 0x00, 0xff]), 0x00ff_0000, "red");
    assert_eq!(one([0x00, 0xff, 0x00, 0xff]), 0x0000_ff00, "green");
    assert_eq!(one([0x00, 0x00, 0xff, 0xff]), 0x0000_00ff, "blue");
}

#[test]
fn full_scale_survives_the_divide() {
    assert_eq!(one([0xff, 0xff, 0xff, 0xff]) & 0xff, 0xff);
}

#[test]
fn a_soft_edge_reads_as_dark_rather_than_as_bright() {
    let half = one([0xff, 0xff, 0xff, 0x80]);
    assert_eq!(half, 0x0080_8080, "got {half:#08x}");
    assert_eq!(one([0xff, 0xff, 0xff, 0x00]), 0, "nothing there is black");
}

#[test]
fn every_pixel_arrives_and_none_is_invented() {
    let frame: Vec<u8> = (0..64u8).collect();
    let mut out = Vec::new();
    onto_black(&frame, &mut out);
    assert_eq!(out.len(), 16, "16 pixels of 4 bytes");

    onto_black(&frame, &mut out);
    assert_eq!(out.len(), 16, "the buffer was not cleared");
}

#[test]
fn the_top_byte_is_left_alone() {
    for alpha in [0x00, 0x7f, 0xff] {
        assert_eq!(one([0xff, 0xff, 0xff, alpha]) >> 24, 0, "alpha {alpha:#x}");
    }
}

#[test]
fn the_title_carries_what_rav_has_to_say() {
    assert_eq!(titled(None), "rav");
    assert_eq!(titled(Some("theme winamp")), "rav - theme winamp");
}

#[test]
fn a_window_says_how_many_cells_it_is_counting() {
    // The bar width is in cells and a window has none, so it declares one.
    let (across, down) = (CELL_ACROSS, CELL_DOWN);
    let size = sized(u32::from(across) * 8, u32::from(down) * 3);
    assert_eq!((size.columns, size.rows), (8, 3));
    assert_eq!((size.width, size.height), (across * 8, down * 3));

    let tiny = sized(1, 1);
    assert_eq!((tiny.columns, tiny.rows), (1, 1), "never zero cells");
}

#[test]
fn a_window_wider_than_a_u16_is_saturated_rather_than_wrapped() {
    let huge = sized(u32::MAX, 100_000);
    assert_eq!((huge.width, huge.height), (u16::MAX, u16::MAX));
    assert_eq!((huge.columns, huge.rows), (6553, 3276));
}

#[test]
fn a_trailing_partial_pixel_is_dropped() {
    let mut out = vec![7, 7, 7];
    onto_black(&[10, 20, 30, 255, 1, 2], &mut out);
    assert_eq!(out, vec![0x000a_141e]);
}

#[test]
fn each_channel_is_scaled_by_the_same_alpha() {
    assert_eq!(one([200, 100, 50, 51]), (40 << 16) | (20 << 8) | 10);
}
