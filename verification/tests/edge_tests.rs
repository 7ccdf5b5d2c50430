use raster_filters::edge::{edge_detection_canny_naive, naive_edge_detection_sobel};
use raster_filters::pixel::{Pixel, PixelGrid};

fn px(r: u8, g: u8, b: u8, a: u8) -> Pixel {
    Pixel { r, g, b, a }
}

fn grid_by<F: Fn(usize, usize) -> Pixel>(width: usize, height: usize, f: F) -> PixelGrid {
    let mut pixels = Vec::with_capacity(width * height);
    for y in 0..height {
        for x in 0..width {
            pixels.push(f(x, y));
        }
    }
    PixelGrid::from_raw(width, height, pixels).expect("shape must match")
}

#[test]
fn test_border_forced_black() {
    // Noisy content everywhere: the outer 3-pixel margin must still come
    // out exact black, alpha untouched.
    let g = grid_by(9, 8, |x, y| {
        let v = ((x * 37 + y * 91) % 256) as u8;
        px(v, v.wrapping_add(13), v.wrapping_mul(3), 123)
    });
    let out = naive_edge_detection_sobel(&g);
    for y in 0..8 {
        for x in 0..9 {
            if x < 3 || x >= 9 - 3 || y < 3 || y >= 8 - 3 {
                assert_eq!(out.get(x, y), px(0, 0, 0, 123));
            }
        }
    }
}

#[test]
fn test_small_image_is_all_border() {
    let g = grid_by(6, 6, |x, y| px((x * 40) as u8, (y * 40) as u8, 200, 50));
    let out = naive_edge_detection_sobel(&g);
    for y in 0..6 {
        for x in 0..6 {
            assert_eq!(out.get(x, y), px(0, 0, 0, 50));
        }
    }
}

#[test]
fn test_uniform_image_interior_black() {
    let g = grid_by(10, 10, |_, _| px(200, 200, 200, 77));
    let out = naive_edge_detection_sobel(&g);
    for y in 0..10 {
        for x in 0..10 {
            assert_eq!(out.get(x, y), px(0, 0, 0, 77));
        }
    }
}

#[test]
fn test_vertical_step_edge_highlights_step_columns() {
    // Left half 0, right half 255 from column 7 on, in a 14 by 10 grid.
    let g = grid_by(14, 10, |x, _| {
        let v = if x < 7 { 0 } else { 255 };
        px(v, v, v, 255)
    });
    let out = naive_edge_detection_sobel(&g);
    for y in 3..7 {
        for x in 3..10 {
            let expected = if x == 6 || x == 7 {
                px(234, 234, 234, 255)
            } else {
                px(0, 0, 0, 255)
            };
            assert_eq!(out.get(x, y), expected, "at ({x}, {y})");
        }
    }
}

#[test]
fn test_gradient_below_threshold_stays_black() {
    // A gentle ramp: adjacent columns differ by 5, so the horizontal
    // difference is 4 * 5 = 20 and the magnitude stays far below 90.
    let g = grid_by(12, 12, |x, _| {
        let v = (x * 5) as u8;
        px(v, v, v, 255)
    });
    let out = naive_edge_detection_sobel(&g);
    for y in 3..9 {
        for x in 3..9 {
            assert_eq!(out.get(x, y), px(0, 0, 0, 255));
        }
    }
}

#[test]
fn test_canny_detector_is_a_stub() {
    edge_detection_canny_naive();
}
