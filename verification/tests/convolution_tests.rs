use raster_filters::convolution::naive_convolution;
use raster_filters::kernel::generate_blur_kernel_naive;
use raster_filters::pixel::{Pixel, PixelGrid};

fn px(r: u8, g: u8, b: u8, a: u8) -> Pixel {
    Pixel { r, g, b, a }
}

fn uniform_grid(width: usize, height: usize, v: u8, a: u8) -> PixelGrid {
    PixelGrid::from_raw(width, height, vec![px(v, v, v, a); width * height])
        .expect("shape must match")
}

#[test]
fn test_one_by_one_kernel_is_identity_up_to_clamp() {
    let pixels = vec![
        px(0, 1, 2, 3),
        px(200, 100, 50, 4),
        px(255, 254, 253, 5),
        px(9, 90, 180, 6),
        px(254, 255, 0, 7),
        px(33, 44, 55, 8),
    ];
    let g = PixelGrid::from_raw(3, 2, pixels.clone()).expect("shape must match");
    let k = generate_blur_kernel_naive(1, 1).expect("1 is a valid side");
    let out = naive_convolution(&g, &k);
    assert_eq!(out.width, 3);
    assert_eq!(out.height, 2);
    for y in 0..2 {
        for x in 0..3 {
            let inp = pixels[y * 3 + x];
            let got = out.get(x, y);
            assert_eq!(got.r, inp.r.min(254));
            assert_eq!(got.g, inp.g.min(254));
            assert_eq!(got.b, inp.b.min(254));
            assert_eq!(got.a, inp.a);
        }
    }
}

#[test]
fn test_uniform_image_passes_through_box_blur_interior() {
    let g = uniform_grid(7, 7, 100, 200);
    let k = generate_blur_kernel_naive(1, 3).expect("3 is a valid side");
    let out = naive_convolution(&g, &k);
    // Full-weight windows: 1 <= x <= 4 and 1 <= y <= 4 under the engine's
    // offset arithmetic.
    for y in 1..5 {
        for x in 1..5 {
            assert_eq!(out.get(x, y), px(100, 100, 100, 200));
        }
    }
}

#[test]
fn test_corner_is_underweighted() {
    let g = uniform_grid(7, 7, 100, 255);
    let k = generate_blur_kernel_naive(1, 3).expect("3 is a valid side");
    let out = naive_convolution(&g, &k);
    // At the corner only 4 of the 9 window terms contribute:
    // 4 * 100 / 9 = 44, strictly darker than the interior's 100.
    assert_eq!(out.get(0, 0), px(44, 44, 44, 255));
    // On the left edge with full rows, 6 of 9 terms contribute:
    // 6 * 100 / 9 = 66.
    assert_eq!(out.get(0, 2), px(66, 66, 66, 255));
    assert!(out.get(0, 0).r < out.get(2, 2).r);
}

#[test]
fn test_blur_output_clamped_at_254() {
    let g = uniform_grid(3, 3, 255, 1);
    let k = generate_blur_kernel_naive(1, 1).expect("1 is a valid side");
    let out = naive_convolution(&g, &k);
    assert_eq!(out.get(1, 1), px(254, 254, 254, 1));
}

#[test]
fn test_negative_kernel_clamps_to_zero() {
    let g = uniform_grid(3, 3, 10, 9);
    let k = generate_blur_kernel_naive(-1, 1).expect("1 is a valid side");
    let out = naive_convolution(&g, &k);
    for y in 0..3 {
        for x in 0..3 {
            assert_eq!(out.get(x, y), px(0, 0, 0, 9));
        }
    }
}

#[test]
fn test_amplifying_kernel_normalization() {
    // A 3 by 3 kernel of weight 2 on a full-weight window of value 60:
    // 2 * 60 * 9 / 9 = 120.
    let g = uniform_grid(5, 5, 60, 0);
    let k = generate_blur_kernel_naive(2, 3).expect("3 is a valid side");
    let out = naive_convolution(&g, &k);
    assert_eq!(out.get(2, 2), px(120, 120, 120, 0));
}
