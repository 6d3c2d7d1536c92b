//! Tests of volume assembly: sorting by acquisition key, shape validation,
//! stacking, and the loader's failure taxonomy.

use dicom_volume::enums::SortBy;
use dicom_volume::error::VolumeLoaderError;
use dicom_volume::grid::Plane;
use dicom_volume::volume_loader::VolumeLoader;

/// A 1 x 2 plane whose cells are (tag, tag + 1).
fn tagged_plane(tag: u16) -> Plane {
    Plane::from_raw(vec![tag, tag + 1], 1, 2).expect("plane shape should be consistent")
}

#[test]
fn load_rejects_empty_stack() {
    let result = VolumeLoader::load_from_slices(Vec::new(), SortBy::InstanceNumber, Some((1, 1, 1)));
    assert!(matches!(result, Err(VolumeLoaderError::NoValidImages)));
}

#[test]
fn load_rejects_mismatched_shapes() {
    let entries = vec![
        (1i64, tagged_plane(10)),
        (2i64, Plane::from_raw(vec![1, 2, 3, 4], 2, 2).expect("plane shape should be consistent")),
    ];
    let result = VolumeLoader::load_from_slices(entries, SortBy::InstanceNumber, Some((1, 1, 1)));
    assert!(matches!(result, Err(VolumeLoaderError::InconsistentDimensions)));
}

#[test]
fn load_rejects_missing_spacing() {
    let entries = vec![(1i64, tagged_plane(10)), (2i64, tagged_plane(20))];
    let result = VolumeLoader::load_from_slices(entries, SortBy::InstanceNumber, None);
    assert!(matches!(result, Err(VolumeLoaderError::MissingSpacing)));
}

#[test]
fn load_sorts_by_instance_number_ascending() {
    let entries = vec![(3i64, tagged_plane(30)), (1i64, tagged_plane(10)), (2i64, tagged_plane(20))];
    let volume = VolumeLoader::load_from_slices(entries, SortBy::InstanceNumber, Some((1, 1, 1)))
        .expect("a consistent stack with spacing should load");
    assert_eq!(volume.dim(), (3, 1, 2));
    assert_eq!(volume.data().get(0, 0, 0), 10);
    assert_eq!(volume.data().get(1, 0, 0), 20);
    assert_eq!(volume.data().get(2, 0, 0), 30);
    assert_eq!(volume.data().get(2, 0, 1), 31);
}

#[test]
fn load_reverses_for_image_position_patient() {
    let entries = vec![(3i64, tagged_plane(30)), (1i64, tagged_plane(10)), (2i64, tagged_plane(20))];
    let volume = VolumeLoader::load_from_slices(
        entries,
        SortBy::ImagePositionPatient,
        Some((1, 1, 1)),
    )
        .expect("a consistent stack with spacing should load");
    assert_eq!(volume.data().get(0, 0, 0), 30);
    assert_eq!(volume.data().get(1, 0, 0), 20);
    assert_eq!(volume.data().get(2, 0, 0), 10);
}

#[test]
fn load_keeps_unsorted_order() {
    let entries = vec![(3i64, tagged_plane(30)), (1i64, tagged_plane(10)), (2i64, tagged_plane(20))];
    let volume = VolumeLoader::load_from_slices(entries, SortBy::Unsorted, Some((1, 1, 1)))
        .expect("a consistent stack with spacing should load");
    assert_eq!(volume.data().get(0, 0, 0), 30);
    assert_eq!(volume.data().get(1, 0, 0), 10);
    assert_eq!(volume.data().get(2, 0, 0), 20);
}

#[test]
fn sort_images_orders_keys() {
    let mut entries = vec![
        (5i64, tagged_plane(50)),
        (i64::MIN, tagged_plane(0)),
        (-3i64, tagged_plane(30)),
    ];
    VolumeLoader::sort_images(&mut entries, SortBy::TablePosition);
    assert_eq!(entries[0].0, i64::MIN);
    assert_eq!(entries[1].0, -3);
    assert_eq!(entries[2].0, 5);
    assert_eq!(entries[0].1.get(0, 0), 0);
}

#[test]
fn sort_images_keeps_equal_keys_in_original_order() {
    let mut entries = vec![
        (1i64, tagged_plane(10)),
        (0i64, tagged_plane(5)),
        (1i64, tagged_plane(20)),
        (1i64, tagged_plane(30)),
    ];
    VolumeLoader::sort_images(&mut entries, SortBy::InstanceNumber);
    assert_eq!(entries[0].1.get(0, 0), 5);
    assert_eq!(entries[1].1.get(0, 0), 10);
    assert_eq!(entries[2].1.get(0, 0), 20);
    assert_eq!(entries[3].1.get(0, 0), 30);
}

#[test]
fn validate_dimensions_accepts_uniform_stacks() {
    let images = vec![tagged_plane(1), tagged_plane(2)];
    assert!(VolumeLoader::validate_dimensions(&images).is_ok());
    let mixed = vec![
        tagged_plane(1),
        Plane::from_raw(vec![1, 2, 3, 4], 2, 2).expect("plane shape should be consistent"),
    ];
    assert!(matches!(
        VolumeLoader::validate_dimensions(&mixed),
        Err(VolumeLoaderError::InconsistentDimensions)
    ));
}

#[test]
fn build_volume_array_stacks_in_order() {
    let images = vec![tagged_plane(100), tagged_plane(200)];
    let grid = VolumeLoader::build_volume_array(&images);
    assert_eq!(grid.dim(), (2, 1, 2));
    assert_eq!(grid.get(0, 0, 0), 100);
    assert_eq!(grid.get(0, 0, 1), 101);
    assert_eq!(grid.get(1, 0, 0), 200);
    assert_eq!(grid.get(1, 0, 1), 201);
}
