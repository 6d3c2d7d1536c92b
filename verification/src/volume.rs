//! The volume: the owned 3-D voxel grid with its physical spacing, and slice
//! extraction by orientation and interpolation mode.
//!
//! # Orientation conventions
//!
//! A plane extracted by [`Volume::get_slice_from_axis`] keeps the two free
//! axes in their natural (Z, Y, X) order:
//!
//! | Orientation | fixed axis | plane rows | plane columns |
//! |-------------|-----------|------------|---------------|
//! | Axial       | Z (depth) | Y (height) | X (width)     |
//! | Coronal     | Y (height)| Z (depth)  | X (width)     |
//! | Sagittal    | X (width) | Z (depth)  | Y (height)    |
//!
//! The resampling target of [`Volume::get_plane_spacing`], as
//! (width, height) in isotropic units, follows the same table:
//!
//! | Orientation | target width | target height |
//! |-------------|--------------|---------------|
//! | Axial       | isotropic X  | isotropic Y   |
//! | Coronal     | isotropic X  | isotropic Z   |
//! | Sagittal    | isotropic Y  | isotropic Z   |
//!
//! This one table serves the CPU path and the GPU request plan alike, so the
//! two paths always agree on the shape of their output.
//!
//! # Coordinate mapping
//!
//! A target pixel centre maps to its source coordinate by the
//! half-pixel-centre convention, `src = (t + 0.5) / target * source - 0.5`,
//! evaluated in fixed point with truncating division and clamped into
//! `[0, source - 1]`; see [`map_src`].

use rayon::iter::IntoParallelIterator;
use rayon::iter::IntoParallelRefIterator;
use rayon::iter::ParallelIterator;
use vstd::arithmetic::div_mod::lemma_div_multiples_vanish;
use vstd::prelude::*;

use crate::enums::Interpolation;
use crate::enums::Orientation;
use crate::error::VolumeError;
use crate::grid::MAX_DIM;
use crate::grid::Plane;
use crate::grid::VoxelGrid;
use crate::grid::row_major;
use crate::image::SliceImage;
use crate::image::normalized;
use crate::interpolator::FRAC_HALF;
use crate::interpolator::FRAC_ONE;
use crate::interpolator::Interpolator;
use crate::interpolator::MAX_SPACING;
use crate::interpolator::bilinear_spec;
use crate::interpolator::iso_axis;
use crate::interpolator::lemma_bilinear_at_cell;
use crate::interpolator::lemma_isotropic_dimensions_lower_bound;
use crate::interpolator::min3;

verus! {

/// The fixed-point source coordinate that target pixel `t` of an axis of
/// `target` pixels samples from an axis of `source` cells, by the
/// half-pixel-centre convention: `(t + 0.5) / target * source - 0.5`,
/// truncated to the fixed-point grid and clamped into `[0, source - 1]`.
pub open spec fn map_src(t: int, target: int, source: int) -> int {
    let a = ((2 * t + 1) * source * FRAC_ONE) / (2 * target);
    let max = (source - 1) * FRAC_ONE;
    if a < FRAC_HALF {
        0
    } else if a - FRAC_HALF > max {
        max
    } else {
        a - FRAC_HALF
    }
}

/// The interpolated 8-bit value of target pixel (`row`, `col`) when plane
/// `p` is resampled to `target_width` by `target_height`: the bilinear
/// sample at the mapped source coordinates, normalized.
pub open spec fn interp_pixel(p: Plane, target_width: int, target_height: int, row: int, col: int)
    -> int {
    normalized(
        bilinear_spec(
            p,
            map_src(row, target_height, p.spec_height() as int),
            map_src(col, target_width, p.spec_width() as int),
        ),
    )
}

/// When the target size of an axis equals its source size, the
/// half-pixel-centre mapping is the identity on whole cells.
pub proof fn lemma_map_src_identity(t: int, n: int)
    requires
        0 <= t < n,
    ensures
        map_src(t, n, n) == t * FRAC_ONE,
{
    let f = FRAC_ONE as int;
    let half = FRAC_HALF as int;
    assert((2 * t + 1) * n * f == (2 * n) * (t * f + half)) by (nonlinear_arith)
        requires
            f == 2 * half,
    ;
    lemma_div_multiples_vanish(t * f + half, 2 * n);
    assert(((2 * t + 1) * n * f) / (2 * n) == t * f + half);
    assert(t * f + half >= half) by (nonlinear_arith)
        requires
            0 <= t,
            0 < f,
            0 < half,
    ;
    assert(t * f <= (n - 1) * f) by (nonlinear_arith)
        requires
            t <= n - 1,
            0 < f,
    ;
}

/// Resampling a plane to its own dimensions is the identity: every target
/// pixel is the normalized source cell at the same position.
pub proof fn lemma_identity_resample(p: Plane, row: int, col: int)
    requires
        p.wf(),
        0 <= row < p.spec_height(),
        0 <= col < p.spec_width(),
    ensures
        interp_pixel(p, p.spec_width() as int, p.spec_height() as int, row, col) == normalized(
            p.at(row, col) as int,
        ),
{
    lemma_map_src_identity(row, p.spec_height() as int);
    lemma_map_src_identity(col, p.spec_width() as int);
    lemma_bilinear_at_cell(p, row, col);
}

/// A cell of a row strictly below row `i` lies below the first `i * cols`
/// entries of a row-major buffer.
proof fn lemma_row_major_below(a: int, b: int, i: int, cols: int)
    by (nonlinear_arith)
    requires
        0 <= a < i,
        0 <= b < cols,
    ensures
        0 <= row_major(a, b, cols) < i * cols,
{
}

/// A 3-D scalar volume: the voxel grid, its physical spacing, and the
/// isotropic dimensions derived once at construction.
pub struct Volume {
    data: VoxelGrid,
    spacing: (u32, u32, u32),
    interpolated_dim: (u32, u32, u32),
}

impl Volume {
    /// The owned voxel grid.
    pub closed spec fn spec_data(&self) -> VoxelGrid {
        self.data
    }

    /// The physical spacing per voxel along (X, Y, Z), as strictly positive
    /// integers in one consistent unit.
    pub closed spec fn spec_spacing(&self) -> (u32, u32, u32) {
        self.spacing
    }

    /// The derived isotropic dimensions as (depth, height, width).
    pub closed spec fn spec_interpolated_dim(&self) -> (u32, u32, u32) {
        self.interpolated_dim
    }

    /// The minimum spacing component.
    pub open spec fn spec_min_spacing(&self) -> int {
        min3(
            self.spec_spacing().0 as int,
            self.spec_spacing().1 as int,
            self.spec_spacing().2 as int,
        )
    }

    /// Well-formed: the grid is well-formed, the spacing components are
    /// positive and capped, and the isotropic dimensions are exactly the
    /// ones derived from the grid's extents and the spacing, each capped by
    /// [`MAX_DIM`] so that every resampling target stays addressable.
    pub open spec fn wf(&self) -> bool {
        &&& self.spec_data().wf()
        &&& 1 <= self.spec_spacing().0 <= MAX_SPACING
        &&& 1 <= self.spec_spacing().1 <= MAX_SPACING
        &&& 1 <= self.spec_spacing().2 <= MAX_SPACING
        &&& self.spec_interpolated_dim().0 == iso_axis(
            self.spec_data().spec_depth() as int,
            self.spec_spacing().2 as int,
            self.spec_min_spacing(),
        )
        &&& self.spec_interpolated_dim().1 == iso_axis(
            self.spec_data().spec_height() as int,
            self.spec_spacing().1 as int,
            self.spec_min_spacing(),
        )
        &&& self.spec_interpolated_dim().2 == iso_axis(
            self.spec_data().spec_width() as int,
            self.spec_spacing().0 as int,
            self.spec_min_spacing(),
        )
        &&& 1 <= self.spec_interpolated_dim().0 <= MAX_DIM
        &&& 1 <= self.spec_interpolated_dim().1 <= MAX_DIM
        &&& 1 <= self.spec_interpolated_dim().2 <= MAX_DIM
    }

    /// Builds a volume from a voxel grid and a spacing triple. The isotropic
    /// dimensions are computed once, here, and never recomputed. The caps in
    /// the precondition are machine limits: each derived isotropic extent
    /// must stay addressable as one axis of an output image or GPU texture.
    pub fn new(data: VoxelGrid, spacing: (u32, u32, u32)) -> (r: Volume)
        requires
            data.wf(),
            1 <= spacing.0 <= MAX_SPACING,
            1 <= spacing.1 <= MAX_SPACING,
            1 <= spacing.2 <= MAX_SPACING,
            iso_axis(
                data.spec_depth() as int,
                spacing.2 as int,
                min3(spacing.0 as int, spacing.1 as int, spacing.2 as int),
            ) <= MAX_DIM,
            iso_axis(
                data.spec_height() as int,
                spacing.1 as int,
                min3(spacing.0 as int, spacing.1 as int, spacing.2 as int),
            ) <= MAX_DIM,
            iso_axis(
                data.spec_width() as int,
                spacing.0 as int,
                min3(spacing.0 as int, spacing.1 as int, spacing.2 as int),
            ) <= MAX_DIM,
        ensures
            r.wf(),
            r.spec_data() == data,
            r.spec_spacing() == spacing,
    {
        let original_dim = data.dim();
        proof {
            lemma_isotropic_dimensions_lower_bound(spacing, original_dim);
        }
        let interpolated_dim = Interpolator::get_isotropic_dimensions(spacing, original_dim);
        Volume { data, spacing, interpolated_dim }
    }

    /// The extents of the volume as (depth, height, width).
    pub fn dim(&self) -> (r: (usize, usize, usize))
        ensures
            r.0 == self.spec_data().spec_depth(),
            r.1 == self.spec_data().spec_height(),
            r.2 == self.spec_data().spec_width(),
    {
        self.data.dim()
    }

    /// The physical spacing per voxel along (X, Y, Z).
    pub fn spacing(&self) -> (r: (u32, u32, u32))
        ensures
            r == self.spec_spacing(),
    {
        self.spacing
    }

    /// The isotropic dimensions as (depth, height, width).
    pub fn interpolated_dim(&self) -> (r: (u32, u32, u32))
        ensures
            r == self.spec_interpolated_dim(),
    {
        self.interpolated_dim
    }

    /// A reference to the underlying voxel grid.
    pub fn data(&self) -> (r: &VoxelGrid)
        ensures
            r == self.spec_data(),
    {
        &self.data
    }

    /// A mutable reference to the underlying voxel grid. The owner may
    /// replace cell values in place; the grid's shape must stay as
    /// constructed, or the volume stops being well-formed and later slice
    /// requests lose their contracts.
    pub fn data_mut(&mut self) -> (r: &mut VoxelGrid)
        ensures
            *r == old(self).spec_data(),
            final(self).spec_data() == *final(r),
            final(self).spec_spacing() == old(self).spec_spacing(),
            final(self).spec_interpolated_dim() == old(self).spec_interpolated_dim(),
    {
        &mut self.data
    }

    /// Overwrites one voxel in place. The shape of the volume never changes,
    /// so the derived isotropic dimensions stay valid.
    pub fn set_voxel(&mut self, z: usize, y: usize, x: usize, value: u16)
        requires
            old(self).wf(),
            z < old(self).spec_data().spec_depth(),
            y < old(self).spec_data().spec_height(),
            x < old(self).spec_data().spec_width(),
        ensures
            final(self).wf(),
            final(self).spec_spacing() == old(self).spec_spacing(),
            final(self).spec_interpolated_dim() == old(self).spec_interpolated_dim(),
            final(self).spec_data().spec_depth() == old(self).spec_data().spec_depth(),
            final(self).spec_data().spec_height() == old(self).spec_data().spec_height(),
            final(self).spec_data().spec_width() == old(self).spec_data().spec_width(),
            final(self).spec_data().cells() == old(self).spec_data().cells().update(
                old(self).spec_data().flat(z as int, y as int, x as int),
                value,
            ),
    {
        self.data.set(z, y, x, value);
    }

    /// The extent of the axis an orientation fixes.
    pub open spec fn spec_axis_extent(&self, orientation: Orientation) -> nat {
        match orientation {
            Orientation::Axial => self.spec_data().spec_depth(),
            Orientation::Coronal => self.spec_data().spec_height(),
            Orientation::Sagittal => self.spec_data().spec_width(),
        }
    }

    /// A slice index is valid when it lies strictly inside the extent of the
    /// fixed axis.
    pub open spec fn spec_valid_index(&self, index: int, orientation: Orientation) -> bool {
        0 <= index < self.spec_axis_extent(orientation)
    }

    /// Whether `index` is a valid slice index for `orientation`.
    pub fn is_valid_index(&self, index: usize, orientation: &Orientation) -> (r: bool)
        ensures
            r == self.spec_valid_index(index as int, *orientation),
    {
        let dim = self.data.dim();
        let max_index: usize = match orientation {
            Orientation::Axial => dim.0,
            Orientation::Coronal => dim.1,
            Orientation::Sagittal => dim.2,
        };
        index < max_index
    }

    /// The number of rows of the plane an orientation extracts.
    pub open spec fn spec_plane_rows(&self, orientation: Orientation) -> nat {
        match orientation {
            Orientation::Axial => self.spec_data().spec_height(),
            Orientation::Coronal => self.spec_data().spec_depth(),
            Orientation::Sagittal => self.spec_data().spec_depth(),
        }
    }

    /// The number of columns of the plane an orientation extracts.
    pub open spec fn spec_plane_cols(&self, orientation: Orientation) -> nat {
        match orientation {
            Orientation::Axial => self.spec_data().spec_width(),
            Orientation::Coronal => self.spec_data().spec_width(),
            Orientation::Sagittal => self.spec_data().spec_height(),
        }
    }

    /// The voxel that cell (`i`, `j`) of the extracted plane reads: the
    /// fixed axis is held at `index` and the free axes keep their natural
    /// order.
    pub open spec fn spec_plane_cell(
        &self,
        orientation: Orientation,
        index: int,
        i: int,
        j: int,
    ) -> u16 {
        match orientation {
            Orientation::Axial => self.spec_data().at(index, i, j),
            Orientation::Coronal => self.spec_data().at(i, index, j),
            Orientation::Sagittal => self.spec_data().at(i, j, index),
        }
    }

    /// `p` is exactly the plane that fixing `orientation`'s axis at `index`
    /// extracts.
    pub open spec fn spec_extracted_plane(
        &self,
        p: Plane,
        orientation: Orientation,
        index: int,
    ) -> bool {
        &&& p.wf()
        &&& p.spec_height() == self.spec_plane_rows(orientation)
        &&& p.spec_width() == self.spec_plane_cols(orientation)
        &&& forall|i: int, j: int|
            0 <= i < p.spec_height() && 0 <= j < p.spec_width() ==> p.at(i, j)
                == self.spec_plane_cell(orientation, index, i, j)
    }

    /// Extracts the 2-D plane at `index` along `orientation`. Fails with
    /// [`VolumeError::IndexOutOfRange`] exactly when `index` is at or beyond
    /// the extent of the fixed axis.
    pub fn get_slice_from_axis(&self, index: usize, orientation: &Orientation) -> (r: Result<
        Plane,
        VolumeError,
    >)
        requires
            self.wf(),
        ensures
            match r {
                Ok(p) => {
                    &&& self.spec_valid_index(index as int, *orientation)
                    &&& self.spec_extracted_plane(p, *orientation, index as int)
                },
                Err(e) => {
                    &&& e == VolumeError::IndexOutOfRange
                    &&& !self.spec_valid_index(index as int, *orientation)
                },
            },
    {
        if !self.is_valid_index(index, orientation) {
            return Err(VolumeError::IndexOutOfRange);
        }
        let dim = self.data.dim();
        let rows: usize = match orientation {
            Orientation::Axial => dim.1,
            Orientation::Coronal => dim.0,
            Orientation::Sagittal => dim.0,
        };
        let cols: usize = match orientation {
            Orientation::Axial => dim.2,
            Orientation::Coronal => dim.2,
            Orientation::Sagittal => dim.1,
        };
        let mut values: Vec<u16> = Vec::new();
        let mut i: usize = 0;
        while i < rows
            invariant
                self.wf(),
                self.spec_valid_index(index as int, *orientation),
                rows == self.spec_plane_rows(*orientation),
                cols == self.spec_plane_cols(*orientation),
                i <= rows,
                values@.len() == i * cols,
                forall|a: int, b: int|
                    0 <= a < i && 0 <= b < cols ==> #[trigger] values@[row_major(
                        a,
                        b,
                        cols as int,
                    )] == self.spec_plane_cell(*orientation, index as int, a, b),
            decreases rows - i,
        {
            let mut j: usize = 0;
            while j < cols
                invariant
                    self.wf(),
                    self.spec_valid_index(index as int, *orientation),
                    rows == self.spec_plane_rows(*orientation),
                    cols == self.spec_plane_cols(*orientation),
                    i < rows,
                    j <= cols,
                    values@.len() == i * cols + j,
                    forall|a: int, b: int|
                        0 <= a < i && 0 <= b < cols ==> #[trigger] values@[row_major(
                            a,
                            b,
                            cols as int,
                        )] == self.spec_plane_cell(*orientation, index as int, a, b),
                    forall|b: int|
                        0 <= b < j ==> #[trigger] values@[row_major(i as int, b, cols as int)]
                            == self.spec_plane_cell(*orientation, index as int, i as int, b),
                decreases cols - j,
            {
                let v: u16 = match orientation {
                    Orientation::Axial => self.data.get(index, i, j),
                    Orientation::Coronal => self.data.get(i, index, j),
                    Orientation::Sagittal => self.data.get(i, j, index),
                };
                values.push(v);
                proof {
                    assert forall|a: int, b: int| 0 <= a < i && 0 <= b < cols implies #[trigger]
                        values@[row_major(a, b, cols as int)] == self.spec_plane_cell(
                        *orientation,
                        index as int,
                        a,
                        b,
                    ) by {
                        lemma_row_major_below(a, b, i as int, cols as int);
                    }
                }
                j += 1;
            }
            proof {
                assert((i + 1) * cols == i * cols + cols) by (nonlinear_arith);
                assert forall|a: int, b: int| 0 <= a < i + 1 && 0 <= b < cols implies #[trigger]
                    values@[row_major(a, b, cols as int)] == self.spec_plane_cell(
                    *orientation,
                    index as int,
                    a,
                    b,
                ) by {
                    if a < i {
                        lemma_row_major_below(a, b, i as int, cols as int);
                    }
                }
            }
            i += 1;
        }
        match Plane::from_raw(values, rows, cols) {
            Some(p) => Ok(p),
            None => {
                proof {
                    assert(false);
                }
                Err(VolumeError::IndexOutOfRange)
            },
        }
    }

    /// The resampling target width for an orientation, in isotropic units:
    /// isotropic X for axial and coronal planes, isotropic Y for sagittal
    /// planes.
    pub open spec fn spec_target_width(&self, orientation: Orientation) -> int {
        match orientation {
            Orientation::Axial => self.spec_interpolated_dim().2 as int,
            Orientation::Coronal => self.spec_interpolated_dim().2 as int,
            Orientation::Sagittal => self.spec_interpolated_dim().1 as int,
        }
    }

    /// The resampling target height for an orientation, in isotropic units:
    /// isotropic Y for axial planes, isotropic Z for coronal and sagittal
    /// planes.
    pub open spec fn spec_target_height(&self, orientation: Orientation) -> int {
        match orientation {
            Orientation::Axial => self.spec_interpolated_dim().1 as int,
            Orientation::Coronal => self.spec_interpolated_dim().0 as int,
            Orientation::Sagittal => self.spec_interpolated_dim().0 as int,
        }
    }

    /// The width of the image a bilinear slice request returns: the native
    /// plane width for axial planes, which are never resized, and the
    /// isotropic target width otherwise. The CPU path and the GPU request
    /// plan share this one shape.
    pub open spec fn spec_output_width(&self, orientation: Orientation) -> int {
        if orientation == Orientation::Axial {
            self.spec_plane_cols(orientation) as int
        } else {
            self.spec_target_width(orientation)
        }
    }

    /// The height of the image a bilinear slice request returns; see
    /// [`Volume::spec_output_width`].
    pub open spec fn spec_output_height(&self, orientation: Orientation) -> int {
        if orientation == Orientation::Axial {
            self.spec_plane_rows(orientation) as int
        } else {
            self.spec_target_height(orientation)
        }
    }

    /// The resampling target of a plane as (width, height), from the fixed
    /// orientation table in the module documentation. The CPU path and the
    /// GPU request plan both read this one table.
    pub fn get_plane_spacing(&self, orientation: &Orientation) -> (r: (u32, u32))
        ensures
            r.0 == self.spec_target_width(*orientation),
            r.1 == self.spec_target_height(*orientation),
    {
        match orientation {
            Orientation::Axial => (self.interpolated_dim.2, self.interpolated_dim.1),
            Orientation::Coronal => (self.interpolated_dim.2, self.interpolated_dim.0),
            Orientation::Sagittal => (self.interpolated_dim.1, self.interpolated_dim.0),
        }
    }

    /// Normalizes every cell of a buffer to 8 bits in parallel.
    ///
    /// Relies on rayon's parallel map over a slice: the collected output
    /// holds, in order, one result of the verified per-sample normalization
    /// for each input element.
    #[verifier::external_body]
    fn par_normalize(values: &Vec<u16>) -> (r: Vec<u8>)
        ensures
            r@.len() == values@.len(),
            forall|k: int|
                0 <= k < values@.len() ==> #[trigger] r@[k] as int == normalized(
                    values@[k] as int,
                ),
    {
        values.par_iter().map(|v: &u16| SliceImage::normalize_to_u8(*v)).collect()
    }

    /// Converts a plane to an 8-bit image at its native resolution by
    /// normalizing every sample. Never fails.
    pub fn slice_to_image(slice: &Plane) -> (r: Result<SliceImage, VolumeError>)
        requires
            slice.wf(),
        ensures
            match r {
                Ok(img) => spec_native_image(*slice, img),
                Err(_) => false,
            },
    {
        let pixels = Self::par_normalize(slice.values());
        let width32: u32 = slice.width() as u32;
        let height32: u32 = slice.height() as u32;
        proof {
            assert(slice.spec_height() * slice.spec_width() == width32 * height32)
                by (nonlinear_arith)
                requires
                    width32 == slice.spec_width(),
                    height32 == slice.spec_height(),
            ;
        }
        match SliceImage::from_raw(width32, height32, pixels) {
            Ok(img) => {
                proof {
                    let h = slice.spec_height() as int;
                    let w = slice.spec_width() as int;
                    assert forall|i: int, j: int| 0 <= i < h && 0 <= j < w implies #[trigger]
                        img.pixel_at(i, j) as int == normalized(slice.at(i, j) as int) by {
                        crate::grid::lemma_row_major_in_bounds(i, j, h, w);
                    }
                }
                Ok(img)
            },
            Err(e) => {
                proof {
                    assert(false);
                }
                Err(e)
            },
        }
    }

    /// The fixed-point source coordinate of target pixel `t`, by the
    /// half-pixel-centre convention (see the module documentation).
    fn map_to_source(t: u32, target: u32, source: usize) -> (r: u64)
        requires
            1 <= target <= MAX_DIM,
            t < target,
            1 <= source <= MAX_DIM,
        ensures
            r as int == map_src(t as int, target as int, source as int),
    {
        proof {
            assert((2 * (t as int) + 1) * (source as int) * (FRAC_ONE as int) < 0x4000000000000)
                by (nonlinear_arith)
                requires
                    0 <= t < 65536,
                    0 <= source <= 65535,
                    FRAC_ONE == 65536,
            ;
            assert((source as int - 1) * (FRAC_ONE as int) <= 0xFFFE_0000_0000) by (nonlinear_arith)
                requires
                    0 < source <= 65535,
                    FRAC_ONE == 65536,
            ;
        }
        let num: u64 = (2 * (t as u64) + 1) * (source as u64) * FRAC_ONE;
        let a: u64 = num / (2 * (target as u64));
        if a < FRAC_HALF {
            0
        } else {
            let unclamped: u64 = a - FRAC_HALF;
            let max_coord: u64 = ((source - 1) as u64) * FRAC_ONE;
            if unclamped > max_coord {
                max_coord
            } else {
                unclamped
            }
        }
    }

    /// One interpolated 8-bit output pixel of a resampled plane.
    fn interpolate_pixel(slice: &Plane, target_width: u32, target_height: u32, row: u32, col: u32)
        -> (r: u8)
        requires
            slice.wf(),
            1 <= target_width <= MAX_DIM,
            1 <= target_height <= MAX_DIM,
            row < target_height,
            col < target_width,
        ensures
            r as int == interp_pixel(
                *slice,
                target_width as int,
                target_height as int,
                row as int,
                col as int,
            ),
    {
        let src_y: u64 = Self::map_to_source(row, target_height, slice.height());
        let src_x: u64 = Self::map_to_source(col, target_width, slice.width());
        let value: u16 = Interpolator::bilinear_interpolate(slice, src_y, src_x);
        SliceImage::normalize_to_u8(value)
    }

    /// One interpolated output row of a resampled plane, in column order.
    fn interpolate_row(slice: &Plane, target_width: u32, target_height: u32, row: u32) -> (r: Vec<
        u8,
    >)
        requires
            slice.wf(),
            1 <= target_width <= MAX_DIM,
            1 <= target_height <= MAX_DIM,
            row < target_height,
        ensures
            r@.len() == target_width,
            forall|col: int|
                0 <= col < target_width ==> #[trigger] r@[col] as int == interp_pixel(
                    *slice,
                    target_width as int,
                    target_height as int,
                    row as int,
                    col,
                ),
    {
        let mut out: Vec<u8> = Vec::new();
        let mut col: u32 = 0;
        while col < target_width
            invariant
                slice.wf(),
                1 <= target_width <= MAX_DIM,
                1 <= target_height <= MAX_DIM,
                row < target_height,
                col <= target_width,
                out@.len() == col,
                forall|c: int|
                    0 <= c < col ==> #[trigger] out@[c] as int == interp_pixel(
                        *slice,
                        target_width as int,
                        target_height as int,
                        row as int,
                        c,
                    ),
            decreases target_width - col,
        {
            let pixel = Self::interpolate_pixel(slice, target_width, target_height, row, col);
            out.push(pixel);
            col += 1;
        }
        out
    }

    /// Computes every interpolated output row in parallel and concatenates
    /// them in row order.
    ///
    /// Relies on rayon's parallel iterator over the row range:
    /// `flat_map_iter` followed by `collect` yields the concatenation, in
    /// row order, of the buffers of the verified row resampler.
    #[verifier::external_body]
    fn par_interpolate_rows(slice: &Plane, target_width: u32, target_height: u32) -> (r: Vec<u8>)
        requires
            slice.wf(),
            1 <= target_width <= MAX_DIM,
            1 <= target_height <= MAX_DIM,
        ensures
            r@.len() == (target_height as int) * (target_width as int),
            forall|row: int, col: int|
                0 <= row < target_height && 0 <= col < target_width ==> #[trigger] r@[row_major(
                    row,
                    col,
                    target_width as int,
                )] as int == interp_pixel(
                    *slice,
                    target_width as int,
                    target_height as int,
                    row,
                    col,
                ),
    {
        (0..target_height).into_par_iter().flat_map_iter(
            |row: u32| Self::interpolate_row(slice, target_width, target_height, row),
        ).collect()
    }

    /// Resamples a plane to the given target dimensions with bilinear
    /// interpolation, normalizing each sample to 8 bits. Never fails.
    pub fn interpolate_slice(
        &self,
        slice: &Plane,
        target_width: u32,
        target_height: u32,
    ) -> (r: Result<SliceImage, VolumeError>)
        requires
            slice.wf(),
            1 <= target_width <= MAX_DIM,
            1 <= target_height <= MAX_DIM,
        ensures
            match r {
                Ok(img) => spec_resampled_image(
                    *slice,
                    img,
                    target_width as int,
                    target_height as int,
                ),
                Err(_) => false,
            },
    {
        let pixels = Self::par_interpolate_rows(slice, target_width, target_height);
        proof {
            assert((target_height as int) * (target_width as int) == (target_width as int) * (
            target_height as int)) by (nonlinear_arith);
        }
        match SliceImage::from_raw(target_width, target_height, pixels) {
            Ok(img) => {
                proof {
                    assert forall|row: int, col: int|
                        0 <= row < target_height && 0 <= col < target_width implies #[trigger]
                        img.pixel_at(row, col) as int == interp_pixel(
                        *slice,
                        target_width as int,
                        target_height as int,
                        row,
                        col,
                    ) by {
                        crate::grid::lemma_row_major_in_bounds(
                            row,
                            col,
                            target_height as int,
                            target_width as int,
                        );
                    }
                }
                Ok(img)
            },
            Err(e) => {
                proof {
                    assert(false);
                }
                Err(e)
            },
        }
    }

    /// Extracts the plane at `index` along `orientation` and converts it to
    /// an 8-bit image.
    ///
    /// With `Interpolation::Native` the plane is normalized at its native
    /// resolution. With `Interpolation::Linear`, coronal and sagittal planes
    /// are resampled bilinearly to the isotropic target of
    /// [`Volume::get_plane_spacing`]; an axial plane is already isotropic
    /// in-plane by construction of the source data, so it is never resized.
    /// Fails with [`VolumeError::IndexOutOfRange`] exactly when `index` is
    /// at or beyond the extent of the fixed axis.
    pub fn get_image_from_axis(
        &self,
        index: usize,
        orientation: Orientation,
        interpolation: Interpolation,
    ) -> (r: Result<SliceImage, VolumeError>)
        requires
            self.wf(),
        ensures
            match r {
                Ok(img) => {
                    &&& self.spec_valid_index(index as int, orientation)
                    &&& img.wf()
                    &&& ((orientation == Orientation::Axial || interpolation
                        == Interpolation::Native) ==> img.spec_width() == self.spec_plane_cols(
                        orientation,
                    ) && img.spec_height() == self.spec_plane_rows(orientation))
                    &&& (interpolation == Interpolation::Linear ==> img.spec_width()
                        == self.spec_output_width(orientation) && img.spec_height()
                        == self.spec_output_height(orientation))
                    &&& exists|p: Plane|
                        {
                            &&& #[trigger] self.spec_extracted_plane(p, orientation, index as int)
                            &&& if orientation == Orientation::Axial || interpolation
                                == Interpolation::Native {
                                spec_native_image(p, img)
                            } else {
                                spec_resampled_image(
                                    p,
                                    img,
                                    self.spec_target_width(orientation),
                                    self.spec_target_height(orientation),
                                )
                            }
                        }
                },
                Err(e) => {
                    &&& e == VolumeError::IndexOutOfRange
                    &&& !self.spec_valid_index(index as int, orientation)
                },
            },
    {
        let slice = match self.get_slice_from_axis(index, &orientation) {
            Ok(p) => p,
            Err(e) => {
                return Err(e);
            },
        };
        match interpolation {
            Interpolation::Native => {
                match Self::slice_to_image(&slice) {
                    Ok(img) => {
                        proof {
                            assert(self.spec_extracted_plane(slice, orientation, index as int));
                        }
                        Ok(img)
                    },
                    Err(e) => {
                        proof {
                            assert(false);
                        }
                        Err(e)
                    },
                }
            },
            Interpolation::Linear => {
                if matches!(orientation, Orientation::Axial) {
                    match Self::slice_to_image(&slice) {
                        Ok(img) => {
                            proof {
                                assert(self.spec_extracted_plane(slice, orientation, index as int));
                            }
                            Ok(img)
                        },
                        Err(e) => {
                            proof {
                                assert(false);
                            }
                            Err(e)
                        },
                    }
                } else {
                    let (target_width, target_height) = self.get_plane_spacing(&orientation);
                    match self.interpolate_slice(&slice, target_width, target_height) {
                        Ok(img) => {
                            proof {
                                assert(self.spec_extracted_plane(slice, orientation, index as int));
                            }
                            Ok(img)
                        },
                        Err(e) => {
                            proof {
                                assert(false);
                            }
                            Err(e)
                        },
                    }
                }
            },
        }
    }
}

/// `img` is the native-resolution normalization of plane `p`: same
/// dimensions, every pixel the normalized source cell.
pub open spec fn spec_native_image(p: Plane, img: SliceImage) -> bool {
    &&& img.wf()
    &&& img.spec_width() == p.spec_width()
    &&& img.spec_height() == p.spec_height()
    &&& forall|i: int, j: int|
        0 <= i < p.spec_height() && 0 <= j < p.spec_width() ==> #[trigger] img.pixel_at(i, j) as int
            == normalized(p.at(i, j) as int)
}

/// `img` is plane `p` resampled to `target_width` by `target_height` with
/// bilinear interpolation and normalization.
pub open spec fn spec_resampled_image(
    p: Plane,
    img: SliceImage,
    target_width: int,
    target_height: int,
) -> bool {
    &&& img.wf()
    &&& img.spec_width() == target_width
    &&& img.spec_height() == target_height
    &&& forall|row: int, col: int|
        0 <= row < target_height && 0 <= col < target_width ==> #[trigger] img.pixel_at(
            row,
            col,
        ) as int == interp_pixel(p, target_width, target_height, row, col)
}

/// With uniform spacing the isotropic dimensions equal the original
/// dimensions, so the resampling target of every plane equals the plane's
/// own shape, and bilinear resampling is the identity: each interpolated
/// pixel equals the normalized source cell at the same position.
pub proof fn lemma_uniform_spacing_identity(
    v: Volume,
    orientation: Orientation,
    index: int,
    p: Plane,
)
    requires
        v.wf(),
        v.spec_spacing().0 == v.spec_spacing().1,
        v.spec_spacing().1 == v.spec_spacing().2,
        v.spec_extracted_plane(p, orientation, index),
    ensures
        v.spec_target_width(orientation) == v.spec_plane_cols(orientation),
        v.spec_target_height(orientation) == v.spec_plane_rows(orientation),
        forall|row: int, col: int|
            0 <= row < p.spec_height() && 0 <= col < p.spec_width() ==> #[trigger] interp_pixel(
                p,
                v.spec_target_width(orientation),
                v.spec_target_height(orientation),
                row,
                col,
            ) == normalized(p.at(row, col) as int),
{
    let m = v.spec_min_spacing();
    crate::interpolator::lemma_iso_axis_lower_bound(
        v.spec_data().spec_depth() as int,
        v.spec_spacing().2 as int,
        m,
    );
    crate::interpolator::lemma_iso_axis_lower_bound(
        v.spec_data().spec_height() as int,
        v.spec_spacing().1 as int,
        m,
    );
    crate::interpolator::lemma_iso_axis_lower_bound(
        v.spec_data().spec_width() as int,
        v.spec_spacing().0 as int,
        m,
    );
    assert forall|row: int, col: int|
        0 <= row < p.spec_height() && 0 <= col < p.spec_width() implies #[trigger] interp_pixel(
        p,
        v.spec_target_width(orientation),
        v.spec_target_height(orientation),
        row,
        col,
    ) == normalized(p.at(row, col) as int) by {
        lemma_identity_resample(p, row, col);
    }
}

} // verus!
