use vstd::prelude::*;

use crate::pixel::{Pixel, PixelGrid};

verus! {

/// Unweighted-average gray level: `floor((r + g + b) / 3)`.
pub open spec fn avg_gray(p: Pixel) -> int {
    (p.r + p.g + p.b) / 3
}

/// Luminance-weighted gray level:
/// `floor(0.299 r + 0.587 g + 0.114 b)`, the weights taken exactly as
/// thousandths.
pub open spec fn lum_gray(p: Pixel) -> int {
    (299 * p.r + 587 * p.g + 114 * p.b) / 1000
}

/// The output pixel of the unweighted-average policy: gray in all three
/// color channels, alpha forced opaque.
pub open spec fn avg_gray_pixel(p: Pixel) -> Pixel {
    Pixel { r: avg_gray(p) as u8, g: avg_gray(p) as u8, b: avg_gray(p) as u8, a: 255 }
}

/// The output pixel of the luminance policy: gray in all three color
/// channels, alpha forced opaque.
pub open spec fn lum_gray_pixel(p: Pixel) -> Pixel {
    Pixel { r: lum_gray(p) as u8, g: lum_gray(p) as u8, b: lum_gray(p) as u8, a: 255 }
}

/// Whichever policy produced it, a reduced pixel has one gray level in all
/// three color channels and is fully opaque.
pub proof fn lemma_gray_output_shape(p: Pixel)
    ensures
        avg_gray_pixel(p).r == avg_gray_pixel(p).g,
        avg_gray_pixel(p).g == avg_gray_pixel(p).b,
        avg_gray_pixel(p).a == 255,
        lum_gray_pixel(p).r == lum_gray_pixel(p).g,
        lum_gray_pixel(p).g == lum_gray_pixel(p).b,
        lum_gray_pixel(p).a == 255,
{
}

/// Reduces one pixel under the unweighted-average policy.
pub fn gray_scale_pixel_naive(p: Pixel) -> (q: Pixel)
    ensures
        q == avg_gray_pixel(p),
{
    let sum: u32 = p.r as u32 + p.g as u32 + p.b as u32;
    let v: u8 = (sum / 3) as u8;
    Pixel { r: v, g: v, b: v, a: 255 }
}

/// Reduces one pixel under the luminance policy.
pub fn gray_scale_pixel_luminance(p: Pixel) -> (q: Pixel)
    ensures
        q == lum_gray_pixel(p),
{
    let sum: u32 = 299 * p.r as u32 + 587 * p.g as u32 + 114 * p.b as u32;
    let v: u8 = (sum / 1000) as u8;
    Pixel { r: v, g: v, b: v, a: 255 }
}

/// Grayscale reduction, unweighted-average policy: every pixel's color
/// channels are replaced by the truncated mean of its red, green and blue
/// values, and its alpha is forced opaque.
pub fn naive_gray_scale(buffer: &PixelGrid) -> (out: PixelGrid)
    requires
        buffer.wf(),
    ensures
        out.wf(),
        out.width == buffer.width,
        out.height == buffer.height,
        forall|x: int, y: int|
            0 <= x < buffer.width && 0 <= y < buffer.height
                ==> out.at(x, y) == avg_gray_pixel(buffer.at(x, y)),
{
    proof {
        buffer.lemma_area_bounded();
    }
    let w = buffer.get_width();
    let h = buffer.get_height();
    let mut out = PixelGrid::new(w, h, Pixel { r: 0, g: 0, b: 0, a: 255 });
    let mut y: usize = 0;
    while y < h
        invariant
            buffer.wf(),
            w == buffer.width,
            h == buffer.height,
            y <= h,
            out.wf(),
            out.width == w,
            out.height == h,
            forall|i: int, j: int|
                0 <= i < w && 0 <= j < y
                    ==> out.at(i, j) == avg_gray_pixel(buffer.at(i, j)),
        decreases h - y,
    {
        let mut x: usize = 0;
        while x < w
            invariant
                buffer.wf(),
                w == buffer.width,
                h == buffer.height,
                y < h,
                x <= w,
                out.wf(),
                out.width == w,
                out.height == h,
                forall|i: int, j: int|
                    0 <= i < w && 0 <= j < y
                        ==> out.at(i, j) == avg_gray_pixel(buffer.at(i, j)),
                forall|i: int| 0 <= i < x
                    ==> out.at(i, y as int) == avg_gray_pixel(buffer.at(i, y as int)),
            decreases w - x,
        {
            let p = buffer.get(x, y);
            out.set(x, y, gray_scale_pixel_naive(p));
            x = x + 1;
        }
        y = y + 1;
    }
    out
}

/// Grayscale reduction, luminance policy: every pixel's color channels are
/// replaced by the truncated luminance-weighted mean of its red, green and
/// blue values, and its alpha is forced opaque.
pub fn luminance_gray_scale(buffer: &PixelGrid) -> (out: PixelGrid)
    requires
        buffer.wf(),
    ensures
        out.wf(),
        out.width == buffer.width,
        out.height == buffer.height,
        forall|x: int, y: int|
            0 <= x < buffer.width && 0 <= y < buffer.height
                ==> out.at(x, y) == lum_gray_pixel(buffer.at(x, y)),
{
    proof {
        buffer.lemma_area_bounded();
    }
    let w = buffer.get_width();
    let h = buffer.get_height();
    let mut out = PixelGrid::new(w, h, Pixel { r: 0, g: 0, b: 0, a: 255 });
    let mut y: usize = 0;
    while y < h
        invariant
            buffer.wf(),
            w == buffer.width,
            h == buffer.height,
            y <= h,
            out.wf(),
            out.width == w,
            out.height == h,
            forall|i: int, j: int|
                0 <= i < w && 0 <= j < y
                    ==> out.at(i, j) == lum_gray_pixel(buffer.at(i, j)),
        decreases h - y,
    {
        let mut x: usize = 0;
        while x < w
            invariant
                buffer.wf(),
                w == buffer.width,
                h == buffer.height,
                y < h,
                x <= w,
                out.wf(),
                out.width == w,
                out.height == h,
                forall|i: int, j: int|
                    0 <= i < w && 0 <= j < y
                        ==> out.at(i, j) == lum_gray_pixel(buffer.at(i, j)),
                forall|i: int| 0 <= i < x
                    ==> out.at(i, y as int) == lum_gray_pixel(buffer.at(i, y as int)),
            decreases w - x,
        {
            let p = buffer.get(x, y);
            out.set(x, y, gray_scale_pixel_luminance(p));
            x = x + 1;
        }
        y = y + 1;
    }
    out
}

} // verus!
