use raster_filters::convolution::naive_convolution;
use raster_filters::edge::naive_edge_detection_sobel;
use raster_filters::grayscale::{luminance_gray_scale, naive_gray_scale};
use raster_filters::kernel::generate_blur_kernel_naive;
use raster_filters::pipeline::{run_pipeline, GrayPolicy, Stage};
use raster_filters::pixel::{Pixel, PixelGrid};

fn px(r: u8, g: u8, b: u8, a: u8) -> Pixel {
    Pixel { r, g, b, a }
}

fn sample_grid(width: usize, height: usize) -> PixelGrid {
    let mut pixels = Vec::with_capacity(width * height);
    for y in 0..height {
        for x in 0..width {
            pixels.push(px(
                ((x * 31 + y * 7) % 256) as u8,
                ((x * 11 + y * 89) % 256) as u8,
                ((x * 3 + y * 151) % 256) as u8,
                ((x + y) % 256) as u8,
            ));
        }
    }
    PixelGrid::from_raw(width, height, pixels).expect("shape must match")
}

fn clone_grid(g: &PixelGrid) -> PixelGrid {
    PixelGrid::from_raw(g.width, g.height, g.data.clone()).expect("shape must match")
}

#[test]
fn test_empty_pipeline_is_identity() {
    let g = sample_grid(5, 4);
    let out = run_pipeline(clone_grid(&g), &Vec::new());
    assert_eq!(out.data, g.data);
}

#[test]
fn test_single_stage_matches_component() {
    let g = sample_grid(6, 5);
    let out = run_pipeline(clone_grid(&g), &vec![Stage::Grayscale(GrayPolicy::Unweighted)]);
    let expected = naive_gray_scale(&g);
    assert_eq!(out.data, expected.data);
}

#[test]
fn test_full_variant_matches_chained_components() {
    // The gray-blurred-then-edge-detected pipeline variant, run once as a
    // configuration and once by chaining the components by hand.
    let g = sample_grid(12, 11);
    let k = generate_blur_kernel_naive(1, 3).expect("3 is a valid side");
    let stages = vec![
        Stage::Grayscale(GrayPolicy::Luminance),
        Stage::Convolve(k),
        Stage::EdgeDetect,
    ];
    let out = run_pipeline(clone_grid(&g), &stages);

    let k2 = generate_blur_kernel_naive(1, 3).expect("3 is a valid side");
    let step1 = luminance_gray_scale(&g);
    let step2 = naive_convolution(&step1, &k2);
    let expected = naive_edge_detection_sobel(&step2);

    assert_eq!(out.width, expected.width);
    assert_eq!(out.height, expected.height);
    assert_eq!(out.data, expected.data);
}

#[test]
fn test_blur_variant_matches_component() {
    let g = sample_grid(8, 8);
    let k = generate_blur_kernel_naive(1, 5).expect("5 is a valid side");
    let out = run_pipeline(clone_grid(&g), &vec![Stage::Convolve(k)]);
    let k2 = generate_blur_kernel_naive(1, 5).expect("5 is a valid side");
    let expected = naive_convolution(&g, &k2);
    assert_eq!(out.data, expected.data);
}
