use vstd::prelude::*;

use vstd::arithmetic::div_mod::lemma_div_multiples_vanish;

use crate::convolution::{
    clamp254, chan, conv_channel, conv_pixel, conv_row_sum, conv_rows_sum, conv_sum,
    conv_term, takes_sample,
};
use crate::edge::{edge_pixel, in_border, is_edge, red, sobel_gx, sobel_gy};
use crate::kernel::Kernel;
use crate::pixel::{Pixel, PixelGrid};

verus! {

/// Every pixel of the grid has all three color channels equal to `v`.
pub open spec fn uniform_channels(g: PixelGrid, v: int) -> bool {
    forall|x: int, y: int|
        0 <= x < g.width && 0 <= y < g.height
            ==> (#[trigger] g.at(x, y)).r == v && g.at(x, y).g == v && g.at(x, y).b == v
}

/// Every weight of the kernel equals `cval`.
pub open spec fn uniform_kernel(k: Kernel, cval: int) -> bool {
    forall|ky: int, kx: int|
        0 <= ky < k.side && 0 <= kx < k.side ==> #[trigger] k.weight(ky, kx) == cval
}

/// A convolution with the 1 by 1 kernel of weight 1 is the identity
/// transform on every color channel — up to the engine's 254 ceiling — at
/// every pixel, border and interior alike; alpha passes through.
pub proof fn lemma_identity_kernel(g: PixelGrid, k: Kernel, x: int, y: int)
    requires
        g.wf(),
        k.wf(),
        k.side == 1,
        k.weight(0, 0) == 1,
        0 <= x < g.width,
        0 <= y < g.height,
    ensures
        conv_pixel(g, k, x, y) == (Pixel {
            r: clamp254(g.at(x, y).r as int) as u8,
            g: clamp254(g.at(x, y).g as int) as u8,
            b: clamp254(g.at(x, y).b as int) as u8,
            a: g.at(x, y).a,
        }),
{
    assert(k.half() == 0);
    assert forall|c: int| 0 <= c < 3 implies conv_channel(g, k, x, y, c) == clamp254(
        chan(g.at(x, y), c),
    ) by {
        assert(takes_sample(g, k, x, y, 0, 0));
        assert(conv_row_sum(g, k, x, y, c, 0, 1)
            == conv_row_sum(g, k, x, y, c, 0, 0) + conv_term(g, k, x, y, c, 0, 0));
        assert(conv_term(g, k, x, y, c, 0, 0) == 1 * chan(g.at(x, y), c));
        assert(conv_rows_sum(g, k, x, y, c, 1)
            == conv_rows_sum(g, k, x, y, c, 0) + conv_row_sum(g, k, x, y, c, 0, 1));
        assert(conv_sum(g, k, x, y, c) == chan(g.at(x, y), c));
        assert(conv_sum(g, k, x, y, c) / 1 == chan(g.at(x, y), c));
    }
    assert(conv_channel(g, k, x, y, 0) == clamp254(g.at(x, y).r as int));
    assert(conv_channel(g, k, x, y, 1) == clamp254(g.at(x, y).g as int));
    assert(conv_channel(g, k, x, y, 2) == clamp254(g.at(x, y).b as int));
}

/// On a uniform image with a uniform kernel, a kernel row whose first `n`
/// window samples are all taken sums to `cval * v * n`.
proof fn lemma_uniform_row_sum(
    g: PixelGrid, k: Kernel, cval: int, v: int, x: int, y: int, c: int, ky: int, n: int,
)
    requires
        g.wf(),
        k.wf(),
        uniform_channels(g, v),
        uniform_kernel(k, cval),
        k.half() <= x,
        x + k.side <= g.width,
        k.half() <= y,
        y + k.side <= g.height,
        0 <= ky < k.side,
        0 <= n <= k.side,
    ensures
        conv_row_sum(g, k, x, y, c, ky, n) == cval * v * n,
    decreases n,
{
    if n <= 0 {
        assert(cval * v * 0 == 0) by (nonlinear_arith);
    } else {
        lemma_uniform_row_sum(g, k, cval, v, x, y, c, ky, n - 1);
        assert(takes_sample(g, k, x, y, ky, n - 1));
        let sx = x + (n - 1) - k.half();
        let sy = y + ky - k.half();
        assert(0 <= sx < g.width);
        assert(0 <= sy < g.height);
        assert(chan(g.at(sx, sy), c) == v);
        assert(conv_term(g, k, x, y, c, ky, n - 1) == cval * v);
        assert(cval * v * (n - 1) + cval * v == cval * v * n) by (nonlinear_arith);
    }
}

/// On a uniform image with a uniform kernel, the first `m` complete rows
/// of a fully in-bounds window sum to `cval * v * side * m`.
proof fn lemma_uniform_rows_sum(
    g: PixelGrid, k: Kernel, cval: int, v: int, x: int, y: int, c: int, m: int,
)
    requires
        g.wf(),
        k.wf(),
        uniform_channels(g, v),
        uniform_kernel(k, cval),
        k.half() <= x,
        x + k.side <= g.width,
        k.half() <= y,
        y + k.side <= g.height,
        0 <= m <= k.side,
    ensures
        conv_rows_sum(g, k, x, y, c, m) == cval * v * k.side * m,
    decreases m,
{
    if m <= 0 {
        assert(cval * v * k.side * 0 == 0) by (nonlinear_arith);
    } else {
        lemma_uniform_rows_sum(g, k, cval, v, x, y, c, m - 1);
        lemma_uniform_row_sum(g, k, cval, v, x, y, c, m - 1, k.side as int);
        assert(cval * v * k.side * (m - 1) + cval * v * k.side == cval * v * k.side * m)
            by (nonlinear_arith);
    }
}

/// A uniform image of channel value `v`, blurred with a uniform kernel of
/// weight `cval`, gives `clamp(cval * v, 0, 254)` at every pixel whose
/// whole window is in bounds: the full weight sum `cval * side^2` cancels
/// the normalization divisor exactly.
pub proof fn lemma_uniform_blur_interior(
    g: PixelGrid, k: Kernel, cval: int, v: int, x: int, y: int,
)
    requires
        g.wf(),
        k.wf(),
        uniform_channels(g, v),
        uniform_kernel(k, cval),
        k.half() <= x,
        x + k.side <= g.width,
        k.half() <= y,
        y + k.side <= g.height,
    ensures
        forall|c: int| 0 <= c < 3 ==> conv_channel(g, k, x, y, c) == clamp254(cval * v),
{
    let a = cval * v;
    let d = k.side * k.side;
    assert(d > 0) by (nonlinear_arith)
        requires
            k.side >= 1,
            d == k.side * k.side,
    ;
    assert forall|c: int| 0 <= c < 3 implies conv_channel(g, k, x, y, c) == clamp254(a) by {
        lemma_uniform_rows_sum(g, k, cval, v, x, y, c, k.side as int);
        assert(cval * v * k.side * k.side == d * a) by (nonlinear_arith)
            requires
                d == k.side * k.side,
                a == cval * v,
        ;
        lemma_div_multiples_vanish(a, d);
        assert(conv_sum(g, k, x, y, c) / d == a);
    }
}

/// At the grid's top-left corner, a kernel row's partial sum on a uniform
/// image with an all-ones kernel counts only the samples the offset
/// arithmetic keeps: none below the half-point.
proof fn lemma_corner_row_sum(g: PixelGrid, k: Kernel, v: int, c: int, ky: int, n: int)
    requires
        g.wf(),
        k.wf(),
        uniform_channels(g, v),
        uniform_kernel(k, 1),
        g.width >= k.side,
        g.height >= k.side,
        0 <= ky < k.side,
        0 <= n <= k.side,
    ensures
        ky < k.half() ==> conv_row_sum(g, k, 0, 0, c, ky, n) == 0,
        ky >= k.half() && n <= k.half() ==> conv_row_sum(g, k, 0, 0, c, ky, n) == 0,
        ky >= k.half() && n > k.half() ==> conv_row_sum(g, k, 0, 0, c, ky, n) == v * (n
            - k.half()),
    decreases n,
{
    if n > 0 {
        lemma_corner_row_sum(g, k, v, c, ky, n - 1);
        let kx = n - 1;
        if ky >= k.half() && kx >= k.half() {
            assert(takes_sample(g, k, 0, 0, ky, kx));
            let sx = kx - k.half();
            let sy = ky - k.half();
            assert(0 <= sx < g.width);
            assert(0 <= sy < g.height);
            assert(chan(g.at(sx, sy), c) == v);
            assert(conv_term(g, k, 0, 0, c, ky, kx) == 1 * v);
            if kx > k.half() {
                assert(v * (kx - k.half()) + v == v * (n - k.half())) by (nonlinear_arith)
                    requires
                        kx == n - 1,
                ;
            } else {
                assert(v * (n - k.half()) == v) by (nonlinear_arith)
                    requires
                        n - k.half() == 1,
                ;
            }
        } else {
            assert(!takes_sample(g, k, 0, 0, ky, kx));
            assert(conv_term(g, k, 0, 0, c, ky, kx) == 0);
        }
    }
}

/// At the corner, the first `m` complete rows contribute
/// `v * (side - half) * (max(0, m - half))` under an all-ones kernel.
proof fn lemma_corner_rows_sum(g: PixelGrid, k: Kernel, v: int, c: int, m: int)
    requires
        g.wf(),
        k.wf(),
        uniform_channels(g, v),
        uniform_kernel(k, 1),
        g.width >= k.side,
        g.height >= k.side,
        0 <= m <= k.side,
    ensures
        m <= k.half() ==> conv_rows_sum(g, k, 0, 0, c, m) == 0,
        m > k.half() ==> conv_rows_sum(g, k, 0, 0, c, m) == v * (k.side - k.half()) * (m
            - k.half()),
    decreases m,
{
    if m > 0 {
        lemma_corner_rows_sum(g, k, v, c, m - 1);
        lemma_corner_row_sum(g, k, v, c, m - 1, k.side as int);
        let row_full = v * (k.side - k.half());
        if m - 1 >= k.half() {
            assert(k.side > k.half());
            assert(conv_row_sum(g, k, 0, 0, c, m - 1, k.side as int) == row_full)
                by (nonlinear_arith)
                requires
                    conv_row_sum(g, k, 0, 0, c, m - 1, k.side as int) == v * (k.side as int
                        - k.half()),
                    row_full == v * (k.side - k.half()),
            ;
            if m - 1 > k.half() {
                assert(v * (k.side - k.half()) * (m - 1 - k.half()) + row_full == v * (k.side
                    - k.half()) * (m - k.half())) by (nonlinear_arith)
                    requires
                        row_full == v * (k.side - k.half()),
                ;
            } else {
                assert(v * (k.side - k.half()) * (m - k.half()) == row_full)
                    by (nonlinear_arith)
                    requires
                        m - k.half() == 1,
                        row_full == v * (k.side - k.half()),
                ;
            }
        }
    }
}

/// Border under-weighting, quantified at the top-left corner: with an
/// all-ones kernel of side at least 3 on a nonzero uniform image, only
/// `((side + 1) / 2)^2` of the `side^2` window terms contribute, so the
/// corner's output channel is strictly darker than any full-window
/// pixel's.
pub proof fn lemma_corner_underweight(g: PixelGrid, k: Kernel, v: int, x: int, y: int)
    requires
        g.wf(),
        k.wf(),
        uniform_channels(g, v),
        uniform_kernel(k, 1),
        k.side >= 3,
        g.width >= k.side,
        g.height >= k.side,
        1 <= v <= 255,
        k.half() <= x,
        x + k.side <= g.width,
        k.half() <= y,
        y + k.side <= g.height,
    ensures
        forall|c: int|
            0 <= c < 3 ==> conv_sum(g, k, 0, 0, c) == v * ((k.half() + 1) * (k.half() + 1)),
        forall|c: int|
            0 <= c < 3 ==> conv_channel(g, k, 0, 0, c) < conv_channel(g, k, x, y, c),
{
    let half = k.half();
    let side = k.side as int;
    let s = side * side;
    let a = v * ((half + 1) * (half + 1));
    assert(side == 2 * half + 1);
    lemma_uniform_blur_interior(g, k, 1, v, x, y);
    assert(1 * v == v) by (nonlinear_arith);
    assert forall|c: int| 0 <= c < 3 implies conv_sum(g, k, 0, 0, c) == a by {
        lemma_corner_rows_sum(g, k, v, c, side);
        assert(v * (side - half) * (side - half) == a) by (nonlinear_arith)
            requires
                side == 2 * half + 1,
                a == v * ((half + 1) * (half + 1)),
        ;
    }
    let q = a / s;
    assert(s > 0) by (nonlinear_arith)
        requires
            side >= 3,
            s == side * side,
    ;
    vstd::arithmetic::div_mod::lemma_fundamental_div_mod(a, s);
    vstd::arithmetic::div_mod::lemma_mod_pos_bound(a, s);
    assert(a >= 0) by (nonlinear_arith)
        requires
            v >= 1,
            half >= 1,
            a == v * ((half + 1) * (half + 1)),
    ;
    // Only ((side + 1) / 2)^2 of side^2 terms contribute: a < v * s.
    assert(a < v * s) by (nonlinear_arith)
        requires
            a == v * ((half + 1) * (half + 1)),
            s == (2 * half + 1) * (2 * half + 1),
            half >= 1,
            v >= 1,
    ;
    // The corner's quotient keeps a wide margin: 2 * a <= v * s.
    assert(2 * a <= v * s) by (nonlinear_arith)
        requires
            a == v * ((half + 1) * (half + 1)),
            s == (2 * half + 1) * (2 * half + 1),
            half >= 1,
            v >= 1,
    ;
    assert(q < v && 2 * q <= v) by (nonlinear_arith)
        requires
            a == s * q + a % s,
            a % s >= 0,
            a < v * s,
            2 * a <= v * s,
            s > 0,
    ;
    assert(q >= 0) by (nonlinear_arith)
        requires
            a == s * q + a % s,
            a % s < s,
            a >= 0,
            s > 0,
    ;
    assert forall|c: int| 0 <= c < 3 implies conv_channel(g, k, 0, 0, c) < conv_channel(
        g, k, x, y, c,
    ) by {
        assert(conv_channel(g, k, 0, 0, c) == clamp254(q));
        assert(conv_channel(g, k, x, y, c) == clamp254(v));
        assert(clamp254(q) == q);
        assert(q < clamp254(v));
    }
}

/// Any pixel within the detector's reserved 3-pixel margin comes out exact
/// black, whatever the image holds.
pub proof fn lemma_edge_border_black(g: PixelGrid, x: int, y: int)
    requires
        0 <= x < g.width,
        0 <= y < g.height,
        in_border(g, x, y),
    ensures
        edge_pixel(g, x, y) == (Pixel { r: 0, g: 0, b: 0, a: g.at(x, y).a }),
{
}

/// On a uniform image every interior pixel of the edge detector's output
/// is black: a flat region has zero gradient.
pub proof fn lemma_edge_uniform_flat(g: PixelGrid, v: int, x: int, y: int)
    requires
        g.wf(),
        uniform_channels(g, v),
        0 <= x < g.width,
        0 <= y < g.height,
        !in_border(g, x, y),
    ensures
        edge_pixel(g, x, y) == (Pixel { r: 0, g: 0, b: 0, a: g.at(x, y).a }),
{
    assert(red(g, x - 1, y - 1) == v);
    assert(red(g, x, y - 1) == v);
    assert(red(g, x + 1, y - 1) == v);
    assert(red(g, x - 1, y) == v);
    assert(red(g, x + 1, y) == v);
    assert(red(g, x - 1, y + 1) == v);
    assert(red(g, x, y + 1) == v);
    assert(red(g, x + 1, y + 1) == v);
    assert(sobel_gx(g, x, y) == 0);
    assert(sobel_gy(g, x, y) == 0);
    assert(!is_edge(g, x, y));
}

/// The red channel steps from 0 to 255 at column `m`.
pub open spec fn vertical_step(g: PixelGrid, m: int) -> bool {
    forall|x: int, y: int|
        0 <= x < g.width && 0 <= y < g.height
            ==> (#[trigger] g.at(x, y)).r == (if x < m {
                0int
            } else {
                255int
            })
}

/// On a hard vertical step edge the detector highlights exactly the two
/// interior columns astride the step — where the horizontal difference is
/// full scale — and leaves every other interior pixel black.
pub proof fn lemma_edge_step(g: PixelGrid, m: int, x: int, y: int)
    requires
        g.wf(),
        vertical_step(g, m),
        4 <= m,
        m + 4 <= g.width,
        0 <= x < g.width,
        0 <= y < g.height,
        !in_border(g, x, y),
    ensures
        is_edge(g, x, y) <==> (x == m - 1 || x == m),
        edge_pixel(g, x, y) == (if x == m - 1 || x == m {
            Pixel { r: 234, g: 234, b: 234, a: g.at(x, y).a }
        } else {
            Pixel { r: 0, g: 0, b: 0, a: g.at(x, y).a }
        }),
{
    let left = if x - 1 < m { 0int } else { 255int };
    let mid = if x < m { 0int } else { 255int };
    let right = if x + 1 < m { 0int } else { 255int };
    assert(red(g, x - 1, y - 1) == left);
    assert(red(g, x, y - 1) == mid);
    assert(red(g, x + 1, y - 1) == right);
    assert(red(g, x - 1, y) == left);
    assert(red(g, x + 1, y) == right);
    assert(red(g, x - 1, y + 1) == left);
    assert(red(g, x, y + 1) == mid);
    assert(red(g, x + 1, y + 1) == right);
    assert(sobel_gx(g, x, y) == 0);
    assert(sobel_gy(g, x, y) == 4 * (left - right));
    if x == m - 1 || x == m {
        assert(left == 0 && right == 255);
        assert(sobel_gy(g, x, y) == -1020);
        assert(is_edge(g, x, y));
    } else {
        assert(left == right);
        assert(sobel_gy(g, x, y) == 0);
        assert(!is_edge(g, x, y));
    }
}

} // verus!
