//! The arithmetic of rav's own window: repacking a frame for it, what its title
//! says, and how many cells it counts.

use vstd::prelude::*;
use vstd::string::StringExecFns;

verus! {

/// One character box, in device pixels: what a window declares, having no
/// terminal to ask.
pub const CELL_ACROSS: u16 = 10;
pub const CELL_DOWN: u16 = 20;

/// A channel multiplied onto black by `alpha`, dividing by 255 so that full
/// scale stays full scale.
pub open spec fn over_black(channel: int, alpha: int) -> int {
    channel * alpha / 255
}

/// Pixel `i` of a straight RGBA frame as softbuffer's `0x00RRGGBB`, resolved
/// against black.
pub open spec fn packed_pixel(rgba: Seq<u8>, i: int) -> u32 {
    let alpha = rgba[4 * i + 3] as int;
    (over_black(rgba[4 * i] as int, alpha) * 65536 + over_black(rgba[4 * i + 1] as int, alpha) * 256
        + over_black(rgba[4 * i + 2] as int, alpha)) as u32
}

fn resolve(channel: u8, alpha: u8) -> (out: u32)
    ensures
        out == over_black(channel as int, alpha as int),
        out <= 255,
        alpha == 255 ==> out == channel,
        alpha == 0 ==> out == 0,
{
    proof {
        assert(channel as int * alpha as int <= 255 * 255) by (nonlinear_arith)
            requires channel <= 255, alpha <= 255;
        assert(channel as int * alpha as int / 255 <= 255) by (nonlinear_arith)
            requires channel as int * alpha as int <= 255 * 255, channel as int * alpha as int >= 0;
    }
    let product: u16 = (channel as u16) * (alpha as u16);
    (product / 255) as u32
}

/// Repack a frame for softbuffer, resolving what is behind it.
///
/// softbuffer wants one `u32` per pixel as `0x00RRGGBB`. A window has nothing
/// behind it at all, so partial alpha is resolved against black, which keeps an
/// antialiased edge reading as a soft edge rather than a bright one. Writes into
/// `into`, replacing what it held, so one buffer serves every frame.
pub fn onto_black(rgba: &[u8], into: &mut Vec<u32>)
    ensures
        final(into)@.len() == rgba@.len() / 4,
        forall|i: int| 0 <= i < rgba@.len() / 4 ==> #[trigger] final(into)@[i] == packed_pixel(rgba@, i),
        forall|i: int| 0 <= i < rgba@.len() / 4 ==> #[trigger] final(into)@[i] < 0x0100_0000,
        forall|i: int|
            0 <= i < rgba@.len() / 4 && rgba@[4 * i + 3] == 255 ==> #[trigger] final(into)@[i] == (rgba@[4
                * i] as int * 65536 + rgba@[4 * i + 1] as int * 256 + rgba@[4 * i + 2] as int) as u32,
        forall|i: int| 0 <= i < rgba@.len() / 4 && rgba@[4 * i + 3] == 0 ==> #[trigger] final(into)@[i] == 0,
{
    into.clear();
    into.reserve(rgba.len() / 4);
    let n = rgba.len();
    let pixels = n / 4;
    let mut i: usize = 0;
    while i < pixels
        invariant
            n == rgba@.len(),
            pixels == n / 4,
            i <= pixels,
            into@.len() == i,
            forall|j: int| 0 <= j < i ==> #[trigger] into@[j] == packed_pixel(rgba@, j),
            forall|j: int| 0 <= j < i ==> #[trigger] into@[j] < 0x0100_0000,
            forall|j: int|
                0 <= j < i && rgba@[4 * j + 3] == 255 ==> #[trigger] into@[j] == (rgba@[4 * j] as int
                    * 65536 + rgba@[4 * j + 1] as int * 256 + rgba@[4 * j + 2] as int) as u32,
            forall|j: int| 0 <= j < i && rgba@[4 * j + 3] == 0 ==> #[trigger] into@[j] == 0,
        decreases pixels - i,
    {
        let at = 4 * i;
        let alpha = rgba[at + 3];
        let red = resolve(rgba[at], alpha);
        let green = resolve(rgba[at + 1], alpha);
        let blue = resolve(rgba[at + 2], alpha);
        let pixel: u32 = red * 65536 + green * 256 + blue;
        into.push(pixel);
        i += 1;
    }
}

/// What the title bar says: rav, and whatever rav has to say.
///
/// With nothing to say it is just the name - not `rav - ` with an empty tail,
/// which reads as a window that lost something.
pub fn titled(status: Option<&str>) -> (title: String)
    ensures
        title@ == match status {
            Some(saying) => "rav - "@ + saying@,
            None => "rav"@,
        },
{
    match status {
        Some(saying) => {
            let mut title = String::from_str("rav - ");
            title.append(saying);
            title
        },
        None => String::from_str("rav"),
    }
}

/// A window's size in pixels and the cells it counts in it.
#[derive(Debug, Clone, Copy, PartialEq, Eq)]
pub struct WindowCells {
    pub width: u16,
    pub height: u16,
    pub columns: u16,
    pub rows: u16,
}

/// The pixels, saturated at what a `u16` holds.
pub open spec fn saturated(pixels: u32) -> int {
    if pixels > 65535 { 65535 } else { pixels as int }
}

/// The size a window reports, built from its pixels.
///
/// A window knows the pixels and decides the cells, by [`CELL_ACROSS`] and
/// [`CELL_DOWN`]. Never zero cells, so a layout never divides by none.
pub fn sized(width: u32, height: u32) -> (size: WindowCells)
    ensures
        size.width == saturated(width),
        size.height == saturated(height),
        size.columns == if saturated(width) / 10 == 0 { 1 } else { saturated(width) / 10 },
        size.rows == if saturated(height) / 20 == 0 { 1 } else { saturated(height) / 20 },
        size.columns >= 1,
        size.rows >= 1,
{
    let wide: u16 = if width > 65535 { 65535 } else { width as u16 };
    let tall: u16 = if height > 65535 { 65535 } else { height as u16 };
    let columns = wide / CELL_ACROSS;
    let rows = tall / CELL_DOWN;
    WindowCells {
        width: wide,
        height: tall,
        columns: if columns == 0 { 1 } else { columns },
        rows: if rows == 0 { 1 } else { rows },
    }
}

} // verus!
