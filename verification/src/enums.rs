//! The selector types of the engine: anatomical plane, interpolation mode,
//! and the ordering key used when a volume is assembled from single images.

use vstd::prelude::*;

verus! {

/// An anatomical plane. Each orientation fixes one axis of the volume:
/// `Axial` fixes the depth axis (Z), `Coronal` fixes the height axis (Y),
/// and `Sagittal` fixes the width axis (X). The remaining two axes, kept in
/// their natural (Z, Y, X) order, span the extracted plane.
#[derive(Clone, Copy, Debug, PartialEq, Eq, Structural)]
pub enum Orientation {
    Axial,
    Coronal,
    Sagittal,
}

/// The interpolation mode of a slice request. `Linear` resamples coronal and
/// sagittal planes bilinearly to their isotropic target dimensions; `Native`
/// returns every plane at its native resolution.
#[derive(Clone, Copy, Debug, PartialEq, Eq, Structural)]
pub enum Interpolation {
    Linear,
    Native,
}

impl Default for Interpolation {
    fn default() -> (r: Self)
        ensures
            r == Interpolation::Native,
    {
        Interpolation::Native
    }
}

/// The key by which a stack of single images is ordered before it is
/// assembled into a volume.
#[derive(Clone, Copy, Debug, PartialEq, Eq, Structural)]
pub enum SortBy {
    ImagePositionPatient,
    TablePosition,
    InstanceNumber,
    Unsorted,
}

impl Default for SortBy {
    fn default() -> (r: Self)
        ensures
            r == SortBy::ImagePositionPatient,
    {
        SortBy::ImagePositionPatient
    }
}

} // verus!
