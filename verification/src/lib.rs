//! A volume slicing and interpolation engine for stacks of parallel 2-D
//! medical images.
//!
//! The crate reconstructs a 3-D scalar volume from an ordered stack of
//! equal-dimension 16-bit slices plus a physical spacing triple, and extracts
//! 2-D planes along the three anatomical axes (axial, coronal, sagittal),
//! correcting for anisotropic voxel spacing so that off-axis planes are not
//! visually distorted.
//!
//! All coordinate and resampling arithmetic is carried out in exact
//! fixed-point integers: fractional plane coordinates use 16 fractional bits
//! (see [`interpolator::FRAC_ONE`]), and physical spacing is given as
//! positive integers in any consistent unit (for example micrometres), so
//! that every computation the contracts speak of is exact.

pub mod enums;
pub mod error;
pub mod gpu;
pub mod grid;
pub mod image;
pub mod interpolator;
pub mod volume;
pub mod volume_loader;

pub use enums::Interpolation;
pub use enums::Orientation;
pub use enums::SortBy;
