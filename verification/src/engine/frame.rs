//! The frame buffer: rows of pixels from the top left, four bytes each in
//! the order red, green, blue, alpha.

use vstd::prelude::*;
use crate::fixed::SCALE;

verus! {

/// One pixel of the frame.
#[derive(Clone, Copy, Debug, PartialEq, Eq, Structural)]
pub struct Rgba {
    pub r: u8,
    pub g: u8,
    pub b: u8,
    pub a: u8,
}

/// Whether `frame` holds `width` by `height` pixels.
pub open spec fn frame_fits(frame: Seq<u8>, width: int, height: int) -> bool {
    frame.len() == width * height * 4
}

/// Where the bytes of pixel (`x`, `y`) start.
pub open spec fn pixel_offset(width: int, x: int, y: int) -> int {
    (y * width + x) * 4
}

/// The pixel at column `x` of row `y`.
pub open spec fn frame_pixel(frame: Seq<u8>, width: int, x: int, y: int) -> Rgba {
    let i = pixel_offset(width, x, y);
    Rgba { r: frame[i], g: frame[i + 1], b: frame[i + 2], a: frame[i + 3] }
}

/// One byte of a packed pixel: `shift` is 24 for red, 16 for green, 8 for
/// blue and 0 for alpha.
pub open spec fn channel(color: u32, shift: u32) -> u8 {
    ((color >> shift) & 0xff) as u8
}

/// A colour value dimmed by the fixed-point factor `shade`.
pub open spec fn dimmed(v: u8, shade: int) -> u8 {
    ((v * shade) / (SCALE as int)) as u8
}

/// A packed pixel with its colours dimmed by `shade` and its alpha kept.
pub open spec fn shade_color(color: u32, shade: int) -> Rgba {
    Rgba {
        r: dimmed(channel(color, 24), shade),
        g: dimmed(channel(color, 16), shade),
        b: dimmed(channel(color, 8), shade),
        a: channel(color, 0),
    }
}

/// How much light is left at `depth`: one at depth zero, falling towards
/// zero, as `1 / (1 + depth / divisor)`.
pub open spec fn falloff(depth: int, divisor: int) -> int {
    (SCALE * SCALE) / (SCALE + depth / divisor)
}

/// The start of a pixel's bytes lies inside the frame, and so do the three
/// bytes after it.
pub proof fn lemma_pixel_offset(width: int, height: int, x: int, y: int)
    requires
        0 <= x < width,
        0 <= y < height,
    ensures
        0 <= y * width,
        0 <= y * width + x < width * height,
        0 <= pixel_offset(width, x, y),
        pixel_offset(width, x, y) + 4 <= width * height * 4,
{
    assert(0 <= y * width && y * width + x < width * height) by (nonlinear_arith)
        requires
            0 <= x < width,
            0 <= y < height,
    ;
}

/// Different pixels of a row-major frame start at least four bytes apart.
pub proof fn lemma_pixels_apart(width: int, x1: int, y1: int, x2: int, y2: int)
    requires
        0 <= x1 < width,
        0 <= x2 < width,
        x1 != x2 || y1 != y2,
    ensures
        pixel_offset(width, x1, y1) + 4 <= pixel_offset(width, x2, y2) || pixel_offset(width, x2, y2)
            + 4 <= pixel_offset(width, x1, y1),
{
    assert(y1 * width + x1 != y2 * width + x2) by (nonlinear_arith)
        requires
            0 <= x1 < width,
            0 <= x2 < width,
            x1 != x2 || y1 != y2,
    ;
}

/// Splits a packed pixel into its four bytes.
pub fn unpack(color: u32) -> (c: Rgba)
    ensures
        c.r == channel(color, 24),
        c.g == channel(color, 16),
        c.b == channel(color, 8),
        c.a == channel(color, 0),
{
    assert(((color >> 24u32) & 0xff) <= 0xff) by (bit_vector);
    assert(((color >> 16u32) & 0xff) <= 0xff) by (bit_vector);
    assert(((color >> 8u32) & 0xff) <= 0xff) by (bit_vector);
    assert(((color >> 0u32) & 0xff) <= 0xff) by (bit_vector);
    assert((color >> 0u32) == color) by (bit_vector);
    Rgba {
        r: ((color >> 24) & 0xff) as u8,
        g: ((color >> 16) & 0xff) as u8,
        b: ((color >> 8) & 0xff) as u8,
        a: (color & 0xff) as u8,
    }
}

/// Dims a colour value by a factor between zero and one.
pub fn dim(v: u8, shade: i64) -> (d: u8)
    requires
        0 <= shade <= SCALE,
    ensures
        d == dimmed(v, shade as int),
        d <= v,
{
    assert(0 <= v * shade <= 255_000_000) by (nonlinear_arith)
        requires
            0 <= shade <= 1_000_000,
            0 <= v <= 255,
    ;
    let p: i64 = (v as i64) * shade;
    let q: i64 = p / SCALE;
    assert(q <= v) by (nonlinear_arith)
        requires
            0 <= shade <= 1_000_000,
            0 <= v,
            q == (v * shade) / 1_000_000,
    ;
    q as u8
}

/// Dims the colours of a packed pixel and keeps its alpha.
pub fn shade(color: u32, factor: i64) -> (c: Rgba)
    requires
        0 <= factor <= SCALE,
    ensures
        c == shade_color(color, factor as int),
{
    let u: Rgba = unpack(color);
    Rgba { r: dim(u.r, factor), g: dim(u.g, factor), b: dim(u.b, factor), a: u.a }
}

/// Computes [`falloff`] for a depth that is not negative.
pub fn light_at(depth: i128, divisor: i64) -> (f: i64)
    requires
        depth >= 0,
        depth <= 0x4000_0000_0000_0000_0000_0000_0000_0000,
        divisor > 0,
    ensures
        f == falloff(depth as int, divisor as int),
        0 <= f <= SCALE,
{
    let s: i128 = SCALE as i128;
    let den: i128 = s + depth / (divisor as i128);
    let q: i128 = (s * s) / den;
    assert(0 <= q <= s) by (nonlinear_arith)
        requires
            s == 1_000_000,
            den >= s,
            q as int == (s as int * s as int) / (den as int),
    ;
    q as i64
}

/// Light does not grow with depth.
pub proof fn lemma_falloff_monotone(near: int, far: int, divisor: int)
    requires
        0 <= near <= far,
        divisor > 0,
    ensures
        0 <= falloff(far, divisor) <= falloff(near, divisor) <= SCALE,
{
    let s: int = SCALE as int;
    let a: int = s + near / divisor;
    let b: int = s + far / divisor;
    assert(near / divisor <= far / divisor && 0 <= near / divisor) by (nonlinear_arith)
        requires
            0 <= near <= far,
            divisor > 0,
    ;
    assert(0 <= (s * s) / b <= (s * s) / a <= s) by (nonlinear_arith)
        requires
            s == 1_000_000,
            s <= a <= b,
    ;
}

/// Stores one pixel.
pub fn put_pixel(frame: &mut [u8], width: u32, height: u32, x: u32, y: u32, c: Rgba)
    requires
        frame_fits(old(frame)@, width as int, height as int),
        x < width,
        y < height,
    ensures
        final(frame)@.len() == old(frame)@.len(),
        forall|x2: int, y2: int|
            0 <= x2 < width && 0 <= y2 < height ==> #[trigger] frame_pixel(
                final(frame)@,
                width as int,
                x2,
                y2,
            ) == if x2 == x && y2 == y {
                c
            } else {
                frame_pixel(old(frame)@, width as int, x2, y2)
            },
{
    let len: usize = frame.len();
    proof {
        lemma_pixel_offset(width as int, height as int, x as int, y as int);
        assert(pixel_offset(width as int, x as int, y as int) + 4 <= len);
    }
    let idx: usize = ((y as usize) * (width as usize) + (x as usize)) * 4;
    frame[idx] = c.r;
    frame[idx + 1] = c.g;
    frame[idx + 2] = c.b;
    frame[idx + 3] = c.a;
    proof {
        assert forall|x2: int, y2: int| 0 <= x2 < width && 0 <= y2 < height implies #[trigger] frame_pixel(
            frame@,
            width as int,
            x2,
            y2,
        ) == if x2 == x && y2 == y {
            c
        } else {
            frame_pixel(old(frame)@, width as int, x2, y2)
        } by {
            lemma_pixel_offset(width as int, height as int, x2, y2);
            if x2 != x || y2 != y {
                lemma_pixels_apart(width as int, x as int, y as int, x2, y2);
            }
        }
    }
}

/// Reads one pixel.
pub fn read_pixel(frame: &[u8], width: u32, height: u32, x: u32, y: u32) -> (c: Rgba)
    requires
        frame_fits(frame@, width as int, height as int),
        x < width,
        y < height,
    ensures
        c == frame_pixel(frame@, width as int, x as int, y as int),
{
    let len: usize = frame.len();
    proof {
        lemma_pixel_offset(width as int, height as int, x as int, y as int);
        assert(pixel_offset(width as int, x as int, y as int) + 4 <= len);
    }
    let idx: usize = ((y as usize) * (width as usize) + (x as usize)) * 4;
    Rgba { r: frame[idx], g: frame[idx + 1], b: frame[idx + 2], a: frame[idx + 3] }
}

} // verus!
