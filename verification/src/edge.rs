use vstd::prelude::*;

use crate::pixel::{Pixel, PixelGrid};

verus! {

/// The red channel as a value; the detector reads red only, counting on a
/// grayscale input whose channels are equal.
pub open spec fn red(g: PixelGrid, x: int, y: int) -> int {
    g.at(x, y).r as int
}

/// Horizontal gradient at `(x, y)`: the fixed 3 by 3 mask
/// `[[1, 2, 1], [0, 0, 0], [-1, -2, -1]]` applied raw to the red channel,
/// with no normalization.
pub open spec fn sobel_gx(g: PixelGrid, x: int, y: int) -> int {
    red(g, x - 1, y - 1) + 2 * red(g, x, y - 1) + red(g, x + 1, y - 1)
        - red(g, x - 1, y + 1) - 2 * red(g, x, y + 1) - red(g, x + 1, y + 1)
}

/// Vertical gradient at `(x, y)`: the fixed 3 by 3 mask
/// `[[1, 0, -1], [2, 0, -2], [1, 0, -1]]` applied raw to the red channel,
/// with no normalization.
pub open spec fn sobel_gy(g: PixelGrid, x: int, y: int) -> int {
    red(g, x - 1, y - 1) - red(g, x + 1, y - 1) + 2 * red(g, x - 1, y)
        - 2 * red(g, x + 1, y) + red(g, x - 1, y + 1) - red(g, x + 1, y + 1)
}

/// The reserved margin: any pixel within 3 of an edge of the grid is
/// treated as unreliable and forced black.
pub open spec fn in_border(g: PixelGrid, x: int, y: int) -> bool {
    x < 3 || x >= g.width - 3 || y < 3 || y >= g.height - 3
}

/// Whether the gradient magnitude crosses the fixed threshold of 90.
/// Stated on the squared magnitude — `gx^2 + gy^2 > 8100` — which is exact
/// for integer gradients and needs no square root.
pub open spec fn is_edge(g: PixelGrid, x: int, y: int) -> bool {
    sobel_gx(g, x, y) * sobel_gx(g, x, y) + sobel_gy(g, x, y) * sobel_gy(g, x, y) > 8100
}

/// The detector's output pixel: black in the border margin, light gray
/// (234) where the gradient magnitude crosses the threshold, black
/// elsewhere; alpha passes through.
pub open spec fn edge_pixel(g: PixelGrid, x: int, y: int) -> Pixel {
    if in_border(g, x, y) {
        Pixel { r: 0, g: 0, b: 0, a: g.at(x, y).a }
    } else if is_edge(g, x, y) {
        Pixel { r: 234, g: 234, b: 234, a: g.at(x, y).a }
    } else {
        Pixel { r: 0, g: 0, b: 0, a: g.at(x, y).a }
    }
}

/// Reads the 3 by 3 red-channel window around an interior pixel and
/// accumulates both raw gradients. The 3-pixel margin is wider than the
/// masks' reach, so every window sample is in bounds.
fn sobel_gradients_at(g: &PixelGrid, x: usize, y: usize) -> (r: (i64, i64))
    requires
        g.wf(),
        3 <= x,
        x + 3 < g.width,
        3 <= y,
        y + 3 < g.height,
    ensures
        r.0 == sobel_gx(*g, x as int, y as int),
        r.1 == sobel_gy(*g, x as int, y as int),
        -1020 <= r.0 <= 1020,
        -1020 <= r.1 <= 1020,
{
    let p00 = g.get(x - 1, y - 1);
    let p10 = g.get(x, y - 1);
    let p20 = g.get(x + 1, y - 1);
    let p01 = g.get(x - 1, y);
    let p21 = g.get(x + 1, y);
    let p02 = g.get(x - 1, y + 1);
    let p12 = g.get(x, y + 1);
    let p22 = g.get(x + 1, y + 1);
    let gx: i64 = p00.r as i64 + 2 * (p10.r as i64) + p20.r as i64 - p02.r as i64
        - 2 * (p12.r as i64) - p22.r as i64;
    let gy: i64 = p00.r as i64 - p20.r as i64 + 2 * (p01.r as i64) - 2 * (p21.r as i64)
        + p02.r as i64 - p22.r as i64;
    (gx, gy)
}

/// The gradient edge detector: the outer 3-pixel border is forced to exact
/// black; each interior pixel is light gray (234) where the Euclidean norm
/// of the two raw 3 by 3 gradients of the red channel exceeds 90, and
/// black otherwise. Alpha passes through unchanged.
pub fn naive_edge_detection_sobel(buffer: &PixelGrid) -> (out: PixelGrid)
    requires
        buffer.wf(),
    ensures
        out.wf(),
        out.width == buffer.width,
        out.height == buffer.height,
        forall|x: int, y: int|
            0 <= x < buffer.width && 0 <= y < buffer.height
                ==> out.at(x, y) == edge_pixel(*buffer, x, y),
{
    proof {
        buffer.lemma_area_bounded();
    }
    let w = buffer.get_width();
    let h = buffer.get_height();
    let mut out = PixelGrid::new(w, h, Pixel { r: 0, g: 0, b: 0, a: 255 });
    let mut y: usize = 0;
    while y < h
        invariant
            buffer.wf(),
            w == buffer.width,
            h == buffer.height,
            y <= h,
            out.wf(),
            out.width == w,
            out.height == h,
            forall|i: int, j: int|
                0 <= i < w && 0 <= j < y ==> out.at(i, j) == edge_pixel(*buffer, i, j),
        decreases h - y,
    {
        let mut x: usize = 0;
        while x < w
            invariant
                buffer.wf(),
                w == buffer.width,
                h == buffer.height,
                y < h,
                x <= w,
                out.wf(),
                out.width == w,
                out.height == h,
                forall|i: int, j: int|
                    0 <= i < w && 0 <= j < y ==> out.at(i, j) == edge_pixel(*buffer, i, j),
                forall|i: int| 0 <= i < x
                    ==> out.at(i, y as int) == edge_pixel(*buffer, i, y as int),
            decreases w - x,
        {
            let a = buffer.get(x, y).a;
            let bordered = x < 3 || w - x <= 3 || y < 3 || h - y <= 3;
            let p: Pixel = if bordered {
                Pixel { r: 0, g: 0, b: 0, a }
            } else {
                let (gx, gy) = sobel_gradients_at(buffer, x, y);
                proof {
                    assert(0 <= gx * gx <= 1_040_400) by (nonlinear_arith)
                        requires
                            -1020 <= gx <= 1020,
                    ;
                    assert(0 <= gy * gy <= 1_040_400) by (nonlinear_arith)
                        requires
                            -1020 <= gy <= 1020,
                    ;
                }
                let mag2: i64 = gx * gx + gy * gy;
                if mag2 > 8100 {
                    Pixel { r: 234, g: 234, b: 234, a }
                } else {
                    Pixel { r: 0, g: 0, b: 0, a }
                }
            };
            out.set(x, y, p);
            x = x + 1;
        }
        y = y + 1;
    }
    out
}

/// Canny-style multi-stage edge detection is outside this library's scope:
/// this entry point performs no work and returns nothing, and no other
/// component may depend on it.
pub fn edge_detection_canny_naive() {
}

} // verus!
