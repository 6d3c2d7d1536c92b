//! Tests of the volume: plane extraction per orientation, index validation,
//! normalization, the no-resize axial rule, the identity resample under
//! uniform spacing, and the GPU request plan.

use dicom_volume::enums::Interpolation;
use dicom_volume::enums::Orientation;
use dicom_volume::error::VolumeError;
use dicom_volume::gpu::assemble_gpu_image;
use dicom_volume::gpu::lanes_to_pixels;
use dicom_volume::grid::VoxelGrid;
use dicom_volume::image::SliceImage;
use dicom_volume::volume::Volume;

/// A 2 x 2 x 3 volume whose voxel at (z, y, x) is 100z + 10y + x, so every
/// plane extraction is recognizable.
fn tagged_volume(spacing: (u32, u32, u32)) -> Volume {
    let mut values: Vec<u16> = Vec::new();
    for z in 0..2u16 {
        for y in 0..2u16 {
            for x in 0..3u16 {
                values.push(100 * z + 10 * y + x);
            }
        }
    }
    let grid = VoxelGrid::from_raw(values, 2, 2, 3).expect("grid shape should be consistent");
    Volume::new(grid, spacing)
}

#[test]
fn volume_dimensions_and_spacing() {
    let volume = tagged_volume((1, 1, 2));
    assert_eq!(volume.dim(), (2, 2, 3));
    assert_eq!(volume.spacing(), (1, 1, 2));
    // min spacing 1: z doubles, y and x stay.
    assert_eq!(volume.interpolated_dim(), (4, 2, 3));
}

#[test]
fn axial_slice_keeps_natural_order() {
    let volume = tagged_volume((1, 1, 1));
    let plane = volume
        .get_slice_from_axis(1, &Orientation::Axial)
        .expect("index 1 should be valid for the axial orientation");
    assert_eq!(plane.height(), 2);
    assert_eq!(plane.width(), 3);
    // Rows are Y, columns are X, Z fixed at 1.
    assert_eq!(plane.get(0, 0), 100);
    assert_eq!(plane.get(0, 2), 102);
    assert_eq!(plane.get(1, 0), 110);
    assert_eq!(plane.get(1, 2), 112);
}

#[test]
fn coronal_slice_transposes_depth_to_rows() {
    let volume = tagged_volume((1, 1, 1));
    let plane = volume
        .get_slice_from_axis(1, &Orientation::Coronal)
        .expect("index 1 should be valid for the coronal orientation");
    assert_eq!(plane.height(), 2);
    assert_eq!(plane.width(), 3);
    // Rows are Z, columns are X, Y fixed at 1.
    assert_eq!(plane.get(0, 0), 10);
    assert_eq!(plane.get(0, 2), 12);
    assert_eq!(plane.get(1, 0), 110);
    assert_eq!(plane.get(1, 2), 112);
}

#[test]
fn sagittal_slice_transposes_depth_and_height() {
    let volume = tagged_volume((1, 1, 1));
    let plane = volume
        .get_slice_from_axis(2, &Orientation::Sagittal)
        .expect("index 2 should be valid for the sagittal orientation");
    assert_eq!(plane.height(), 2);
    assert_eq!(plane.width(), 2);
    // Rows are Z, columns are Y, X fixed at 2.
    assert_eq!(plane.get(0, 0), 2);
    assert_eq!(plane.get(0, 1), 12);
    assert_eq!(plane.get(1, 0), 102);
    assert_eq!(plane.get(1, 1), 112);
}

#[test]
fn index_one_past_extent_fails_for_every_orientation() {
    let volume = tagged_volume((1, 1, 1));
    // Extents: depth 2, height 2, width 3.
    let axial = volume.get_image_from_axis(2, Orientation::Axial, Interpolation::Native);
    assert!(matches!(axial, Err(VolumeError::IndexOutOfRange)));
    let coronal = volume.get_image_from_axis(2, Orientation::Coronal, Interpolation::Native);
    assert!(matches!(coronal, Err(VolumeError::IndexOutOfRange)));
    let sagittal = volume.get_image_from_axis(3, Orientation::Sagittal, Interpolation::Native);
    assert!(matches!(sagittal, Err(VolumeError::IndexOutOfRange)));
    assert!(!volume.is_valid_index(2, &Orientation::Axial));
    assert!(volume.is_valid_index(1, &Orientation::Axial));
    assert!(volume.is_valid_index(2, &Orientation::Sagittal));
}

#[test]
fn normalization_rounds_to_nearest() {
    assert_eq!(SliceImage::normalize_to_u8(0), 0);
    assert_eq!(SliceImage::normalize_to_u8(65535), 255);
    // 65535 = 257 * 255: one 8-bit step per 257 input steps.
    assert_eq!(SliceImage::normalize_to_u8(128), 0);
    assert_eq!(SliceImage::normalize_to_u8(129), 1);
    assert_eq!(SliceImage::normalize_to_u8(257), 1);
    assert_eq!(SliceImage::normalize_to_u8(25700), 100);
}

#[test]
fn native_image_normalizes_without_resizing() {
    let mut values: Vec<u16> = Vec::new();
    for k in 0..12u16 {
        values.push(257 * 20 * k);
    }
    let grid = VoxelGrid::from_raw(values, 2, 2, 3).expect("grid shape should be consistent");
    let volume = Volume::new(grid, (1, 1, 2));
    let image = volume
        .get_image_from_axis(0, Orientation::Axial, Interpolation::Native)
        .expect("index 0 should be valid");
    assert_eq!(image.width(), 3);
    assert_eq!(image.height(), 2);
    assert_eq!(image.pixels(), &vec![0, 20, 40, 60, 80, 100]);
}

#[test]
fn axial_linear_never_resizes() {
    // Strongly anisotropic spacing: axial output still has the raw in-plane
    // shape.
    let volume = tagged_volume((2, 3, 5));
    let image = volume
        .get_image_from_axis(0, Orientation::Axial, Interpolation::Linear)
        .expect("index 0 should be valid");
    assert_eq!(image.width(), 3);
    assert_eq!(image.height(), 2);
}

#[test]
fn uniform_spacing_interpolation_is_identity() {
    let volume = tagged_volume((7, 7, 7));
    for orientation in [Orientation::Axial, Orientation::Coronal, Orientation::Sagittal] {
        let native = volume
            .get_image_from_axis(1, orientation, Interpolation::Native)
            .expect("index 1 should be valid");
        let linear = volume
            .get_image_from_axis(1, orientation, Interpolation::Linear)
            .expect("index 1 should be valid");
        assert_eq!(native.width(), linear.width());
        assert_eq!(native.height(), linear.height());
        assert_eq!(native.pixels(), linear.pixels());
    }
}

#[test]
fn coronal_interpolation_doubles_rows_with_blended_values() {
    // Depth 2, height 1, width 2; spacing (1, 1, 2) gives isotropic
    // (4, 1, 2): a coronal plane (rows = Z, cols = X) resamples from 2 rows
    // to 4 rows while the 2 columns stay.
    let values: Vec<u16> = vec![25700, 25700, 51400, 51400];
    let grid = VoxelGrid::from_raw(values, 2, 1, 2).expect("grid shape should be consistent");
    let volume = Volume::new(grid, (1, 1, 2));
    let image = volume
        .get_image_from_axis(0, Orientation::Coronal, Interpolation::Linear)
        .expect("index 0 should be valid");
    assert_eq!(image.width(), 2);
    assert_eq!(image.height(), 4);
    // Rows sample source Y at -0.25 (clamped to 0), 0.25, 0.75, 1.25
    // (clamped to 1): 25700 -> 100, blend 0.25 -> 125, blend 0.75 -> 175,
    // 51400 -> 200.
    assert_eq!(image.pixels(), &vec![100, 100, 125, 125, 175, 175, 200, 200]);
}

#[test]
fn set_voxel_changes_later_extractions() {
    let mut volume = tagged_volume((1, 1, 1));
    volume.set_voxel(0, 1, 2, 25700);
    let plane = volume
        .get_slice_from_axis(0, &Orientation::Axial)
        .expect("index 0 should be valid");
    assert_eq!(plane.get(1, 2), 25700);
    assert_eq!(plane.get(0, 0), 0);
}

#[test]
fn data_mut_allows_in_place_updates() {
    let mut volume = tagged_volume((1, 1, 1));
    volume.data_mut().set(1, 0, 0, 12345);
    assert_eq!(volume.data().get(1, 0, 0), 12345);
    assert_eq!(volume.data().get(0, 0, 0), 0);
}

#[test]
fn image_from_raw_checks_pixel_count() {
    let ok = SliceImage::from_raw(2, 2, vec![1, 2, 3, 4]);
    assert!(ok.is_ok());
    let bad = SliceImage::from_raw(2, 2, vec![1, 2, 3]);
    assert!(matches!(bad, Err(VolumeError::BufferAssemblyFailure)));
}

#[test]
fn gpu_plan_mirrors_cpu_target() {
    let volume = tagged_volume((1, 1, 2));
    // Isotropic dimensions (4, 2, 3).
    let plan = volume
        .gpu_slice_plan(1, &Orientation::Coronal)
        .expect("index 1 should be valid");
    assert_eq!(plan.uniforms.slice_index, 1);
    assert_eq!(plan.uniforms.orientation, 1);
    // Coronal target: width = isotropic X = 3, height = isotropic Z = 4.
    assert_eq!(plan.uniforms.output_width, 3);
    assert_eq!(plan.uniforms.output_height, 4);
    assert_eq!(plan.uniforms.volume_width, 3);
    assert_eq!(plan.uniforms.volume_height, 2);
    assert_eq!(plan.uniforms.volume_depth, 2);
    assert_eq!(plan.uniforms.padding, 0);
    assert_eq!(plan.dispatch_x, 1);
    assert_eq!(plan.dispatch_y, 1);
    assert_eq!(plan.output_bytes, 48);
    let words = plan.uniforms.to_words();
    assert_eq!(words, vec![1, 1, 3, 4, 3, 2, 2, 0]);
    let (w, h) = volume.get_plane_spacing(&Orientation::Coronal);
    assert_eq!((w, h), (3, 4));

    let out_of_range = volume.gpu_slice_plan(2, &Orientation::Coronal);
    assert!(matches!(out_of_range, Err(VolumeError::IndexOutOfRange)));
}

#[test]
fn gpu_plan_axial_keeps_native_resolution() {
    // Minimum spacing on Z: the isotropic in-plane dimensions are larger
    // than the native plane, but an axial request never resizes, so the
    // plan targets native resolution — the same shape the CPU path returns.
    let volume = tagged_volume((2, 2, 1));
    assert_eq!(volume.interpolated_dim(), (2, 4, 6));
    let plan = volume
        .gpu_slice_plan(0, &Orientation::Axial)
        .expect("index 0 should be valid");
    assert_eq!(plan.uniforms.orientation, 0);
    assert_eq!(plan.uniforms.output_width, 3);
    assert_eq!(plan.uniforms.output_height, 2);
    assert_eq!(plan.output_bytes, 24);
    assert_eq!(plan.dispatch_x, 1);
    assert_eq!(plan.dispatch_y, 1);
    let image = volume
        .get_image_from_axis(0, Orientation::Axial, Interpolation::Linear)
        .expect("index 0 should be valid");
    assert_eq!((image.width(), image.height()), (3, 2));
}

#[test]
fn gpu_readback_truncates_lanes() {
    let words: Vec<u32> = vec![511, 256, 65, 0xFFFF_FFFF];
    assert_eq!(lanes_to_pixels(&words), vec![255, 0, 65, 255]);
    let image = assemble_gpu_image(&words, 2, 2).expect("lane count matches 2 x 2");
    assert_eq!(image.width(), 2);
    assert_eq!(image.height(), 2);
    assert_eq!(image.get(1, 0), 65);
    let bad = assemble_gpu_image(&words, 3, 2);
    assert!(matches!(bad, Err(VolumeError::BufferAssemblyFailure)));
}

#[test]
fn gpu_texture_layout_packs_two_bytes_per_voxel() {
    let volume = tagged_volume((1, 1, 1));
    let layout = volume.gpu_texture_layout();
    assert_eq!(layout.bytes_per_row, 6);
    assert_eq!(layout.rows_per_image, 2);
}
