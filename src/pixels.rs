//! RGB8 pixel buffers: their size limits, their layout, and filling a region
//! of one with a colour through plotters' bitmap backend.
use crate::region::Region;
use plotters::prelude::{BitMapBackend, DrawingBackend, RGBColor};
use vstd::prelude::*;

verus! {

/// An opaque RGB colour, one byte per channel.
#[derive(Clone, Copy, Debug, PartialEq, Eq, Structural)]
pub struct Rgb {
    pub r: u8,
    pub g: u8,
    pub b: u8,
}

impl Rgb {
    /// The light grey that a fresh canvas is filled with.
    pub fn background() -> (c: Rgb)
        ensures
            c == (Rgb { r: 238, g: 238, b: 238 }),
    {
        Rgb { r: 238, g: 238, b: 238 }
    }
}

/// Bytes per pixel in an RGB8 buffer.
pub const BYTES_PER_PIXEL: usize = 3;

/// Most pixels a buffer may hold: the bitmap backend addresses pixels with
/// `i32` arithmetic.
pub const MAX_PIXELS: u64 = 0x7fff_ffff;

/// A grid of `w` by `h` pixels is non-empty and small enough to allocate and
/// to address.
pub open spec fn dims_ok(w: int, h: int) -> bool {
    &&& 1 <= w
    &&& 1 <= h
    &&& w * h <= MAX_PIXELS
    &&& w * h * 3 <= usize::MAX
}

/// Byte `k` (0, 1 or 2) of a pixel of colour `c`.
pub open spec fn channel(c: Rgb, k: int) -> u8 {
    if k == 0 {
        c.r
    } else if k == 1 {
        c.g
    } else {
        c.b
    }
}

/// Column of the pixel that byte `i` belongs to, in a row-major buffer
/// `width` pixels wide.
pub open spec fn column_of(i: int, width: int) -> int {
    (i / 3) % width
}

/// Row of the pixel that byte `i` belongs to.
pub open spec fn row_of(i: int, width: int) -> int {
    (i / 3) / width
}

/// Byte `i` of a row-major RGB8 buffer `width` pixels wide lies in the
/// rectangle of columns `[x0, x1)` and rows `[y0, y1)`.
pub open spec fn byte_in_rect(i: int, width: int, x0: int, y0: int, x1: int, y1: int) -> bool {
    x0 <= column_of(i, width) < x1 && y0 <= row_of(i, width) < y1
}

/// `old` with the pixels of columns `[x0, x1)` and rows `[y0, y1)` set to `c`.
pub open spec fn spec_fill_rect(
    old: Seq<u8>,
    width: int,
    x0: int,
    y0: int,
    x1: int,
    y1: int,
    c: Rgb,
) -> Seq<u8> {
    Seq::new(
        old.len(),
        |i: int|
            if byte_in_rect(i, width, x0, y0, x1, y1) {
                channel(c, i % 3)
            } else {
                old[i]
            },
    )
}

/// `old` with the pixels of `area` set to `c`.
pub open spec fn spec_fill_region(old: Seq<u8>, width: int, area: Region, c: Rgb) -> Seq<u8> {
    spec_fill_rect(old, width, area.x as int, area.y as int, area.x + area.width,
        area.y + area.height, c)
}

/// Relies on plotters' `BitMapBackend::with_buffer` over the buffer and its
/// `DrawingBackend::draw_rect` with `fill` set and an opaque colour: that
/// writes the colour into every pixel of columns `[x0, x1)` and rows
/// `[y0, y1)`, leaves all other bytes as they were, and returns `Ok`. The
/// backend panics unless the buffer holds `width * height * 3` bytes.
#[verifier::external_body]
fn plotters_fill_rect(
    buf: &mut Vec<u8>,
    width: u32,
    height: u32,
    x0: i32,
    y0: i32,
    x1: i32,
    y1: i32,
    c: Rgb,
)
    requires
        dims_ok(width as int, height as int),
        old(buf)@.len() == width * height * 3,
        0 <= x0 <= x1 <= width,
        0 <= y0 <= y1 <= height,
    ensures
        final(buf)@ == spec_fill_rect(old(buf)@, width as int, x0 as int, y0 as int,
            x1 as int, y1 as int, c),
{
    let mut backend = BitMapBackend::with_buffer(buf.as_mut_slice(), (width, height));
    let _ = backend.draw_rect((x0, y0), (x1, y1), &RGBColor(c.r, c.g, c.b), true);
}

proof fn lemma_dims_bound(w: int, h: int)
    requires
        dims_ok(w, h),
    ensures
        w <= w * h,
        h <= w * h,
{
    assert(w <= w * h) by (nonlinear_arith)
        requires
            1 <= h,
            1 <= w,
    ;
    assert(h <= w * h) by (nonlinear_arith)
        requires
            1 <= h,
            1 <= w,
    ;
}

/// Every byte of a buffer of `width * height` pixels lies in some pixel of
/// the grid.
pub proof fn lemma_byte_in_grid(i: int, width: int, height: int)
    requires
        1 <= width,
        1 <= height,
        0 <= i < width * height * 3,
    ensures
        0 <= column_of(i, width) < width,
        0 <= row_of(i, width) < height,
{
    let p = i / 3;
    assert(p < width * height);
    assert(p / width < height) by (nonlinear_arith)
        requires
            0 <= p < width * height,
            1 <= width,
    {
        if p / width >= height {
            assert(p / width * width >= height * width);
            assert(p >= p / width * width);
        }
    }
}

/// Sets every pixel of `area` in the row-major RGB8 buffer `pixels`, which is
/// `width` by `height` pixels, to `color`; all other bytes are kept.
pub fn fill_region(pixels: &mut Vec<u8>, width: u32, height: u32, area: Region, color: Rgb)
    requires
        dims_ok(width as int, height as int),
        old(pixels)@.len() == width * height * 3,
        area.within(width as int, height as int),
    ensures
        final(pixels)@ == spec_fill_region(old(pixels)@, width as int, area, color),
{
    proof {
        lemma_dims_bound(width as int, height as int);
    }
    let x0 = area.x as i32;
    let y0 = area.y as i32;
    let x1 = (area.x + area.width) as i32;
    let y1 = (area.y + area.height) as i32;
    plotters_fill_rect(pixels, width, height, x0, y0, x1, y1, color);
}

/// A buffer of `width` by `height` pixels, every one of them `color`.
pub fn solid_pixels(width: u32, height: u32, color: Rgb) -> (r: Vec<u8>)
    requires
        dims_ok(width as int, height as int),
    ensures
        r@.len() == width * height * 3,
        forall|i: int| 0 <= i < r@.len() ==> #[trigger] r@[i] == channel(color, i % 3),
{
    let n: usize = (width as usize) * (height as usize) * BYTES_PER_PIXEL;
    let mut buf: Vec<u8> = vec![0u8; n];
    let full = Region::full(width, height);
    fill_region(&mut buf, width, height, full, color);
    assert forall|i: int| 0 <= i < buf@.len() implies #[trigger] buf@[i] == channel(color, i % 3) by {
        lemma_byte_in_grid(i, width as int, height as int);
    }
    buf
}

} // verus!
