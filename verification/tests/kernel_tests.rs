use raster_filters::kernel::{
    generate_blur_kernel_naive, generete_kernel_gaussian, get_dimension, Kernel, KernelError,
};

#[test]
fn test_blur_kernel_five_by_five_of_ones() {
    let k = generate_blur_kernel_naive(1, 5).expect("odd bounded side must be accepted");
    assert_eq!(k.side, 5);
    assert_eq!(k.weights.len(), 5);
    for row in &k.weights {
        assert_eq!(row.len(), 5);
        for w in row {
            assert_eq!(*w, 1);
        }
    }
}

#[test]
fn test_blur_kernel_keeps_content() {
    let k = generate_blur_kernel_naive(-7, 3).expect("odd bounded side must be accepted");
    assert_eq!(k.side, 3);
    for row in &k.weights {
        for w in row {
            assert_eq!(*w, -7);
        }
    }
}

#[test]
fn test_blur_kernel_even_side_rejected() {
    assert_eq!(
        generate_blur_kernel_naive(1, 4).unwrap_err(),
        KernelError::InvalidKernelShape
    );
}

#[test]
fn test_blur_kernel_zero_side_rejected() {
    assert_eq!(
        generate_blur_kernel_naive(1, 0).unwrap_err(),
        KernelError::InvalidKernelShape
    );
}

#[test]
fn test_blur_kernel_oversized_side_rejected() {
    assert_eq!(
        generate_blur_kernel_naive(1, 257).unwrap_err(),
        KernelError::InvalidKernelShape
    );
}

#[test]
fn test_blur_kernel_weight_out_of_range() {
    assert_eq!(
        generate_blur_kernel_naive(2_000_000, 3).unwrap_err(),
        KernelError::WeightOutOfRange
    );
}

#[test]
fn test_kernel_new_accepts_square_odd() {
    let k = Kernel::new(vec![vec![1, 2, 1], vec![0, 0, 0], vec![-1, -2, -1]])
        .expect("square odd matrix must be accepted");
    assert_eq!(k.side, 3);
    assert_eq!(k.weights[0], vec![1, 2, 1]);
    assert_eq!(k.weights[2], vec![-1, -2, -1]);
}

#[test]
fn test_kernel_new_rejects_ragged_rows() {
    let r = Kernel::new(vec![vec![1, 1, 1], vec![1, 1], vec![1, 1, 1]]);
    assert_eq!(r.unwrap_err(), KernelError::InvalidKernelShape);
}

#[test]
fn test_kernel_new_rejects_even_side() {
    let r = Kernel::new(vec![vec![1, 1], vec![1, 1]]);
    assert_eq!(r.unwrap_err(), KernelError::InvalidKernelShape);
}

#[test]
fn test_kernel_new_rejects_huge_weight() {
    let r = Kernel::new(vec![vec![1, 1, 1], vec![1, 1_000_001, 1], vec![1, 1, 1]]);
    assert_eq!(r.unwrap_err(), KernelError::WeightOutOfRange);
}

#[test]
fn test_get_dimension_swapped_convention() {
    // Two rows of three columns: `height` reports the first row's length,
    // `width` the row count.
    let m: Vec<Vec<f64>> = vec![vec![1.0, 2.0, 3.0], vec![4.0, 5.0, 6.0]];
    let d = get_dimension(&m);
    assert_eq!(d.height, 3);
    assert_eq!(d.width, 2);
}

#[test]
fn test_get_dimension_square() {
    let m: Vec<Vec<i64>> = vec![vec![0; 5]; 5];
    let d = get_dimension(&m);
    assert_eq!(d.height, 5);
    assert_eq!(d.width, 5);
}

#[test]
fn test_gaussian_generator_is_a_stub() {
    generete_kernel_gaussian();
}
