use vstd::prelude::*;

use crate::kernel::Kernel;
use crate::pixel::{Pixel, PixelGrid};

verus! {

/// Clamps a value to the engine's output range `[0, 254]`. The 254 ceiling
/// is deliberate: blurred output stays distinguishable from pure white.
pub open spec fn clamp254(v: int) -> int {
    if v < 0 {
        0
    } else if v > 254 {
        254
    } else {
        v
    }
}

/// Channel selector: 0 is red, 1 is green, everything else blue.
pub open spec fn chan(p: Pixel, c: int) -> int {
    if c == 0 {
        p.r as int
    } else if c == 1 {
        p.g as int
    } else {
        p.b as int
    }
}

/// Whether window cell `(ky, kx)` of the kernel placed at `(x, y)` takes a
/// sample. The engine's own offset arithmetic keeps the shifted position
/// `pos + kpos` within `[half, limit)` in both axes and skips the term
/// otherwise, so border windows silently lose weight.
pub open spec fn takes_sample(g: PixelGrid, k: Kernel, x: int, y: int, ky: int, kx: int) -> bool {
    &&& y + ky >= k.half()
    &&& y + ky < g.height
    &&& x + kx >= k.half()
    &&& x + kx < g.width
}

/// The window term for kernel cell `(ky, kx)`: the weight times the sampled
/// channel value, or zero where the sample is skipped.
pub open spec fn conv_term(
    g: PixelGrid, k: Kernel, x: int, y: int, c: int, ky: int, kx: int,
) -> int {
    if takes_sample(g, k, x, y, ky, kx) {
        k.weight(ky, kx) * chan(g.at(x + kx - k.half(), y + ky - k.half()), c)
    } else {
        0
    }
}

/// The sum of the first `n` terms of kernel row `ky`.
pub open spec fn conv_row_sum(
    g: PixelGrid, k: Kernel, x: int, y: int, c: int, ky: int, n: int,
) -> int
    decreases n,
{
    if n <= 0 {
        0
    } else {
        conv_row_sum(g, k, x, y, c, ky, n - 1) + conv_term(g, k, x, y, c, ky, n - 1)
    }
}

/// The sum of the first `m` complete kernel rows.
pub open spec fn conv_rows_sum(g: PixelGrid, k: Kernel, x: int, y: int, c: int, m: int) -> int
    decreases m,
{
    if m <= 0 {
        0
    } else {
        conv_rows_sum(g, k, x, y, c, m - 1)
            + conv_row_sum(g, k, x, y, c, m - 1, k.side as int)
    }
}

/// The whole accumulated window sum for channel `c` at `(x, y)`.
pub open spec fn conv_sum(g: PixelGrid, k: Kernel, x: int, y: int, c: int) -> int {
    conv_rows_sum(g, k, x, y, c, k.side as int)
}

/// The engine's output channel: the window sum normalized by the raw
/// element count — not by the count of samples actually taken — and
/// clamped to `[0, 254]`.
pub open spec fn conv_channel(g: PixelGrid, k: Kernel, x: int, y: int, c: int) -> int {
    clamp254(conv_sum(g, k, x, y, c) / (k.side * k.side))
}

/// The engine's output pixel: each color channel convolved, alpha kept.
pub open spec fn conv_pixel(g: PixelGrid, k: Kernel, x: int, y: int) -> Pixel {
    Pixel {
        r: conv_channel(g, k, x, y, 0) as u8,
        g: conv_channel(g, k, x, y, 1) as u8,
        b: conv_channel(g, k, x, y, 2) as u8,
        a: g.at(x, y).a,
    }
}

/// One window term never exceeds the largest weight times the largest
/// channel value.
pub proof fn lemma_term_bound(
    g: PixelGrid, k: Kernel, x: int, y: int, c: int, ky: int, kx: int,
)
    requires
        k.wf(),
        0 <= ky < k.side,
        0 <= kx < k.side,
    ensures
        -255_000_000 <= conv_term(g, k, x, y, c, ky, kx) <= 255_000_000,
{
    if takes_sample(g, k, x, y, ky, kx) {
        let w = k.weight(ky, kx);
        let v = chan(g.at(x + kx - k.half(), y + ky - k.half()), c);
        assert(-1_000_000 <= w <= 1_000_000);
        assert(0 <= v <= 255);
        assert(-255_000_000 <= w * v <= 255_000_000) by (nonlinear_arith)
            requires
                -1_000_000 <= w <= 1_000_000,
                0 <= v <= 255,
        ;
    }
}

/// A partial row sum of `n` terms is at most `n` times the term bound.
pub proof fn lemma_row_sum_bound(
    g: PixelGrid, k: Kernel, x: int, y: int, c: int, ky: int, n: int,
)
    requires
        k.wf(),
        0 <= ky < k.side,
        0 <= n <= k.side,
    ensures
        -n * 255_000_000 <= conv_row_sum(g, k, x, y, c, ky, n) <= n * 255_000_000,
    decreases n,
{
    if n > 0 {
        lemma_row_sum_bound(g, k, x, y, c, ky, n - 1);
        lemma_term_bound(g, k, x, y, c, ky, n - 1);
    }
}

/// A partial sum of `m` complete rows is at most `m` times the row bound.
pub proof fn lemma_rows_sum_bound(g: PixelGrid, k: Kernel, x: int, y: int, c: int, m: int)
    requires
        k.wf(),
        0 <= m <= k.side,
    ensures
        -m * 65_025_000_000 <= conv_rows_sum(g, k, x, y, c, m) <= m * 65_025_000_000,
    decreases m,
{
    if m > 0 {
        lemma_rows_sum_bound(g, k, x, y, c, m - 1);
        lemma_row_sum_bound(g, k, x, y, c, m - 1, k.side as int);
        assert(k.side * 255_000_000 <= 65_025_000_000);
    }
}

/// Whether the shifted position `pos + kpos` stays within `[half, limit)`:
/// the per-axis half of the engine's skip test.
fn in_window(pos: usize, kpos: usize, half: usize, limit: usize) -> (r: bool)
    requires
        kpos < 256,
        half < 256,
        pos < limit,
    ensures
        r == (pos + kpos >= half && pos + kpos < limit),
{
    let ge_half = pos >= half || pos + kpos >= half;
    let lt_limit = kpos < limit - pos;
    ge_half && lt_limit
}

/// The source coordinate of a taken sample: `pos + kpos - half`.
fn sample_coord(pos: usize, kpos: usize, half: usize) -> (r: usize)
    requires
        kpos < 256,
        half < 256,
        pos < crate::pixel::MAX_DIM,
        pos + kpos >= half,
    ensures
        r == pos + kpos - half,
{
    if pos >= half {
        pos - half + kpos
    } else {
        pos + kpos - half
    }
}

/// Turns a nonnegative window sum, normalized by the raw element count
/// `kk`, into the clamped output channel value.
fn normalize_channel(acc: i64, kk: u64) -> (v: u8)
    requires
        kk > 0,
        acc <= 16_646_400_000_000,
    ensures
        v == clamp254(acc as int / kk as int),
{
    if acc < 0 {
        proof {
            assert((acc as int) / (kk as int) < 0) by (nonlinear_arith)
                requires
                    acc < 0,
                    kk > 0,
            ;
        }
        0
    } else {
        let q: u64 = (acc as u64) / kk;
        if q > 254 {
            254
        } else {
            q as u8
        }
    }
}

/// Convolves the window centered by the engine's offset arithmetic near
/// `(x, y)` and produces the output pixel there.
fn conv_pixel_at(g: &PixelGrid, k: &Kernel, x: usize, y: usize) -> (p: Pixel)
    requires
        g.wf(),
        k.wf(),
        x < g.width,
        y < g.height,
    ensures
        p == conv_pixel(*g, *k, x as int, y as int),
{
    let side = k.side;
    let half = side / 2;
    let mut acc_r: i64 = 0;
    let mut acc_g: i64 = 0;
    let mut acc_b: i64 = 0;
    let mut ky: usize = 0;
    while ky < side
        invariant
            g.wf(),
            k.wf(),
            x < g.width,
            y < g.height,
            side == k.side,
            half == k.half(),
            ky <= side,
            acc_r == conv_rows_sum(*g, *k, x as int, y as int, 0, ky as int),
            acc_g == conv_rows_sum(*g, *k, x as int, y as int, 1, ky as int),
            acc_b == conv_rows_sum(*g, *k, x as int, y as int, 2, ky as int),
        decreases side - ky,
    {
        let mut kx: usize = 0;
        while kx < side
            invariant
                g.wf(),
                k.wf(),
                x < g.width,
                y < g.height,
                side == k.side,
                half == k.half(),
                ky < side,
                kx <= side,
                acc_r == conv_rows_sum(*g, *k, x as int, y as int, 0, ky as int)
                    + conv_row_sum(*g, *k, x as int, y as int, 0, ky as int, kx as int),
                acc_g == conv_rows_sum(*g, *k, x as int, y as int, 1, ky as int)
                    + conv_row_sum(*g, *k, x as int, y as int, 1, ky as int, kx as int),
                acc_b == conv_rows_sum(*g, *k, x as int, y as int, 2, ky as int)
                    + conv_row_sum(*g, *k, x as int, y as int, 2, ky as int, kx as int),
            decreases side - kx,
        {
            proof {
                lemma_rows_sum_bound(*g, *k, x as int, y as int, 0, ky as int);
                lemma_rows_sum_bound(*g, *k, x as int, y as int, 1, ky as int);
                lemma_rows_sum_bound(*g, *k, x as int, y as int, 2, ky as int);
                lemma_row_sum_bound(*g, *k, x as int, y as int, 0, ky as int, kx as int);
                lemma_row_sum_bound(*g, *k, x as int, y as int, 1, ky as int, kx as int);
                lemma_row_sum_bound(*g, *k, x as int, y as int, 2, ky as int, kx as int);
                lemma_term_bound(*g, *k, x as int, y as int, 0, ky as int, kx as int);
                lemma_term_bound(*g, *k, x as int, y as int, 1, ky as int, kx as int);
                lemma_term_bound(*g, *k, x as int, y as int, 2, ky as int, kx as int);
            }
            let take_y = in_window(y, ky, half, g.get_height());
            let take_x = in_window(x, kx, half, g.get_width());
            if take_y && take_x {
                let sy = sample_coord(y, ky, half);
                let sx = sample_coord(x, kx, half);
                let p = g.get(sx, sy);
                let w = k.weights[ky][kx];
                proof {
                    assert(-1_000_000 <= w <= 1_000_000);
                    assert(-255_000_000 <= w * (p.r as i64) <= 255_000_000)
                        by (nonlinear_arith)
                        requires
                            -1_000_000 <= w <= 1_000_000,
                    ;
                    assert(-255_000_000 <= w * (p.g as i64) <= 255_000_000)
                        by (nonlinear_arith)
                        requires
                            -1_000_000 <= w <= 1_000_000,
                    ;
                    assert(-255_000_000 <= w * (p.b as i64) <= 255_000_000)
                        by (nonlinear_arith)
                        requires
                            -1_000_000 <= w <= 1_000_000,
                    ;
                }
                acc_r = acc_r + w * (p.r as i64);
                acc_g = acc_g + w * (p.g as i64);
                acc_b = acc_b + w * (p.b as i64);
            }
            kx = kx + 1;
        }
        ky = ky + 1;
    }
    proof {
        lemma_rows_sum_bound(*g, *k, x as int, y as int, 0, side as int);
        lemma_rows_sum_bound(*g, *k, x as int, y as int, 1, side as int);
        lemma_rows_sum_bound(*g, *k, x as int, y as int, 2, side as int);
        assert(1 <= side * side <= 65_025) by (nonlinear_arith)
            requires
                1 <= side <= 255,
        ;
    }
    let kk: u64 = (side * side) as u64;
    let out_r = normalize_channel(acc_r, kk);
    let out_g = normalize_channel(acc_g, kk);
    let out_b = normalize_channel(acc_b, kk);
    let a = g.get(x, y).a;
    Pixel { r: out_r, g: out_g, b: out_b, a }
}

/// The naive convolution engine: every output pixel's color channels are
/// the kernel-weighted window sum of the input's channels, normalized by
/// the kernel's raw element count and clamped to `[0, 254]`; window samples
/// that the engine's offset arithmetic puts out of bounds are skipped, so
/// border pixels are systematically under-weighted. Alpha passes through.
pub fn naive_convolution(buffer: &PixelGrid, kernel: &Kernel) -> (out: PixelGrid)
    requires
        buffer.wf(),
        kernel.wf(),
    ensures
        out.wf(),
        out.width == buffer.width,
        out.height == buffer.height,
        forall|x: int, y: int|
            0 <= x < buffer.width && 0 <= y < buffer.height
                ==> out.at(x, y) == conv_pixel(*buffer, *kernel, x, y),
{
    proof {
        buffer.lemma_area_bounded();
    }
    let w = buffer.get_width();
    let h = buffer.get_height();
    let mut out = PixelGrid::new(w, h, Pixel { r: 0, g: 0, b: 0, a: 255 });
    let mut y: usize = 0;
    while y < h
        invariant
            buffer.wf(),
            kernel.wf(),
            w == buffer.width,
            h == buffer.height,
            y <= h,
            out.wf(),
            out.width == w,
            out.height == h,
            forall|i: int, j: int|
                0 <= i < w && 0 <= j < y
                    ==> out.at(i, j) == conv_pixel(*buffer, *kernel, i, j),
        decreases h - y,
    {
        let mut x: usize = 0;
        while x < w
            invariant
                buffer.wf(),
                kernel.wf(),
                w == buffer.width,
                h == buffer.height,
                y < h,
                x <= w,
                out.wf(),
                out.width == w,
                out.height == h,
                forall|i: int, j: int|
                    0 <= i < w && 0 <= j < y
                        ==> out.at(i, j) == conv_pixel(*buffer, *kernel, i, j),
                forall|i: int| 0 <= i < x
                    ==> out.at(i, y as int) == conv_pixel(*buffer, *kernel, i, y as int),
            decreases w - x,
        {
            let p = conv_pixel_at(buffer, kernel, x, y);
            out.set(x, y, p);
            x = x + 1;
        }
        y = y + 1;
    }
    out
}

} // verus!
