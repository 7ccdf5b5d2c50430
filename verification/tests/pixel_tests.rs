use raster_filters::pixel::{Pixel, PixelGrid};

fn px(r: u8, g: u8, b: u8, a: u8) -> Pixel {
    Pixel { r, g, b, a }
}

#[test]
fn test_new_fills_every_cell() {
    let g = PixelGrid::new(4, 3, px(7, 8, 9, 10));
    assert_eq!(g.get_width(), 4);
    assert_eq!(g.get_height(), 3);
    for y in 0..3 {
        for x in 0..4 {
            assert_eq!(g.get(x, y), px(7, 8, 9, 10));
        }
    }
}

#[test]
fn test_set_changes_one_cell_only() {
    let mut g = PixelGrid::new(3, 3, px(0, 0, 0, 0));
    g.set(1, 2, px(5, 6, 7, 8));
    for y in 0..3 {
        for x in 0..3 {
            if x == 1 && y == 2 {
                assert_eq!(g.get(x, y), px(5, 6, 7, 8));
            } else {
                assert_eq!(g.get(x, y), px(0, 0, 0, 0));
            }
        }
    }
}

#[test]
fn test_from_raw_row_major_order() {
    let pixels = vec![
        px(1, 0, 0, 0),
        px(2, 0, 0, 0),
        px(3, 0, 0, 0),
        px(4, 0, 0, 0),
        px(5, 0, 0, 0),
        px(6, 0, 0, 0),
    ];
    let g = PixelGrid::from_raw(3, 2, pixels).expect("shape must match");
    assert_eq!(g.get(0, 0).r, 1);
    assert_eq!(g.get(2, 0).r, 3);
    assert_eq!(g.get(0, 1).r, 4);
    assert_eq!(g.get(2, 1).r, 6);
}

#[test]
fn test_from_raw_rejects_oversized_sides() {
    assert!(PixelGrid::from_raw(1_000_001, 1, vec![px(0, 0, 0, 0); 1_000_001]).is_none());
}
