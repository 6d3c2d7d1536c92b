//! Tests of the resampling arithmetic: isotropic dimensions and bilinear
//! sampling at fixed-point coordinates (65536 is one whole step, 32768 one
//! half).

use dicom_volume::grid::Plane;
use dicom_volume::interpolator::Interpolator;

fn plane(values: Vec<u16>, height: usize, width: usize) -> Plane {
    Plane::from_raw(values, height, width).expect("plane dimensions should be consistent")
}

#[test]
fn test_get_isotropic_dimensions_uniform_spacing() {
    let spacing = (1, 1, 1);
    let original_dim = (100, 200, 300);

    let result = Interpolator::get_isotropic_dimensions(spacing, original_dim);

    assert_eq!(result, (100, 200, 300));
}

#[test]
fn test_get_isotropic_dimensions_z_larger_spacing() {
    let spacing = (1, 1, 2);
    let original_dim = (100, 200, 300);

    let result = Interpolator::get_isotropic_dimensions(spacing, original_dim);

    // min_spacing = 1
    // new_z = 100 * 2 / 1 = 200
    // new_y = 200 * 1 / 1 = 200
    // new_x = 300 * 1 / 1 = 300
    assert_eq!(result, (200, 200, 300));
}

#[test]
fn test_get_isotropic_dimensions_x_smaller_spacing() {
    // Spacing (0.5, 1.0, 1.0) in tenths of the unit: (5, 10, 10).
    let spacing = (5, 10, 10);
    let original_dim = (100, 200, 300);

    let result = Interpolator::get_isotropic_dimensions(spacing, original_dim);

    // min_spacing = 5
    // new_z = 100 * 10 / 5 = 200
    // new_y = 200 * 10 / 5 = 400
    // new_x = 300 * 5 / 5 = 300
    assert_eq!(result, (200, 400, 300));
}

#[test]
fn test_get_isotropic_dimensions_mixed_spacing() {
    let spacing = (2, 1, 3);
    let original_dim = (60, 120, 180);

    let result = Interpolator::get_isotropic_dimensions(spacing, original_dim);

    // min_spacing = 1
    // new_z = 60 * 3 / 1 = 180
    // new_y = 120 * 1 / 1 = 120
    // new_x = 180 * 2 / 1 = 360
    assert_eq!(result, (180, 120, 360));
}

#[test]
fn test_bilinear_interpolate_at_corner() {
    let data = plane(vec![1, 2, 3, 4, 5, 6, 7, 8, 9], 3, 3);

    let result = Interpolator::bilinear_interpolate(&data, 0, 0);

    assert_eq!(result, 1);
}

#[test]
fn test_bilinear_interpolate_at_exact_point() {
    let data = plane(vec![1, 2, 3, 4, 5, 6, 7, 8, 9], 3, 3);

    let result = Interpolator::bilinear_interpolate(&data, 65536, 65536);

    assert_eq!(result, 5);
}

#[test]
fn test_bilinear_interpolate_midpoint() {
    let data = plane(vec![0, 2, 4, 6], 2, 2);

    let result = Interpolator::bilinear_interpolate(&data, 32768, 32768);

    // Average of all four corners
    assert_eq!(result, 3);
}

#[test]
fn test_bilinear_interpolate_horizontal_midpoint() {
    let data = plane(vec![0, 4, 0, 4], 2, 2);

    let result = Interpolator::bilinear_interpolate(&data, 0, 32768);

    // Midpoint between 0 and 4
    assert_eq!(result, 2);
}

#[test]
fn test_bilinear_interpolate_vertical_midpoint() {
    let data = plane(vec![0, 0, 4, 4], 2, 2);

    let result = Interpolator::bilinear_interpolate(&data, 32768, 0);

    // Midpoint between 0 and 4
    assert_eq!(result, 2);
}

#[test]
fn test_bilinear_interpolate_quarter_point() {
    let data = plane(vec![0, 4, 8, 12], 2, 2);

    let result = Interpolator::bilinear_interpolate(&data, 16384, 16384);

    // r0 = 0 * 0.75 + 4 * 0.25 = 1
    // r1 = 8 * 0.75 + 12 * 0.25 = 9
    // result = 1 * 0.75 + 9 * 0.25 = 3
    assert_eq!(result, 3);
}

#[test]
fn test_bilinear_interpolate_boundary_clamping() {
    let data = plane(vec![1, 2, 3, 4, 5, 6, 7, 8, 9], 3, 3);

    // Sample at (2.5, 2.5): should clamp to the last valid cell (2, 2).
    let result = Interpolator::bilinear_interpolate(&data, 163840, 163840);

    assert_eq!(result, 9);
}

#[test]
fn test_bilinear_interpolate_single_pixel() {
    let data = plane(vec![42], 1, 1);

    let result = Interpolator::bilinear_interpolate(&data, 0, 0);

    assert_eq!(result, 42);
}

#[test]
fn test_bilinear_interpolate_fractional_coordinates() {
    let data = plane(vec![1, 2, 3, 4, 5, 6, 7, 8, 9], 3, 3);

    // (0.75, 1.25): y0 = 0, y1 = 1, x0 = 1, x1 = 2, dy = 0.75, dx = 0.25
    // r0 = 2 * 0.75 + 3 * 0.25 = 2.25
    // r1 = 5 * 0.75 + 6 * 0.25 = 5.25
    // result = 2.25 * 0.25 + 5.25 * 0.75 = 4.5, truncated to 4
    let result = Interpolator::bilinear_interpolate(&data, 49152, 81920);

    assert_eq!(result, 4);
}

#[test]
fn test_bilinear_interpolate_far_out_of_bounds_clamps() {
    let data = plane(vec![10, 20, 30, 40], 2, 2);

    let result = Interpolator::bilinear_interpolate(&data, 40 * 65536, 40 * 65536);

    assert_eq!(result, 40);
}
