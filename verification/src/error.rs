//! The failure taxonomy of the engine.

use vstd::prelude::*;

verus! {

/// A failure of a slice request.
#[derive(Clone, Copy, Debug, PartialEq, Eq, Structural)]
pub enum VolumeError {
    /// The requested slice index is at or beyond the extent of the axis the
    /// orientation fixes. Recoverable: the caller should pick a valid index.
    IndexOutOfRange,
    /// A pixel buffer does not hold exactly `width * height` entries. Signals
    /// an internal arithmetic inconsistency, not a caller mistake.
    BufferAssemblyFailure,
    /// No GPU adapter or device could be acquired.
    DeviceUnavailable,
    /// The GPU device failed during an in-flight submission.
    DeviceLost,
}

/// A failure while a volume is assembled from a stack of single images.
#[derive(Clone, Copy, Debug, PartialEq, Eq, Structural)]
pub enum VolumeLoaderError {
    /// The stack holds no usable image.
    NoValidImages,
    /// The images of the stack do not all share one shape.
    InconsistentDimensions,
    /// No spacing triple accompanies the stack.
    MissingSpacing,
}

} // verus!
