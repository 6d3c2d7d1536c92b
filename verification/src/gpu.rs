//! The GPU slice-request plan: every number the GPU path dispatches with,
//! computed and verified on the CPU.
//!
//! The device work itself — uploading the volume as a 3-D texture, binding
//! the linear clamp-to-edge sampler, dispatching the compute pass and
//! reading the staging buffer back — happens outside the engine. That code
//! consumes a [`GpuSlicePlan`] verbatim and hands the raw 32-bit output
//! lanes back to [`assemble_gpu_image`], so every decision the GPU path
//! makes (orientation code, output shape, buffer size, workgroup counts,
//! upload layout, readback truncation) is fixed by the contracts here, and
//! the output shape is exactly the shape the CPU path returns for a
//! bilinear request of the same orientation ([`Volume::spec_output_width`]
//! by [`Volume::spec_output_height`]): axial planes keep their native
//! resolution on both paths.

use vstd::prelude::*;

use crate::enums::Orientation;
use crate::error::VolumeError;
use crate::grid::row_major;
use crate::image::SliceImage;
use crate::volume::Volume;

verus! {

/// The numeric code of an orientation in the shader's uniform block.
pub open spec fn spec_orientation_code(orientation: Orientation) -> int {
    match orientation {
        Orientation::Axial => 0,
        Orientation::Coronal => 1,
        Orientation::Sagittal => 2,
    }
}

/// The orientation selector as the shader reads it.
pub fn orientation_code(orientation: &Orientation) -> (r: u32)
    ensures
        r == spec_orientation_code(*orientation),
{
    match orientation {
        Orientation::Axial => 0,
        Orientation::Coronal => 1,
        Orientation::Sagittal => 2,
    }
}

/// The number of 8-wide workgroups that cover `n` output pixels along one
/// axis: `n / 8`, rounded up.
pub open spec fn spec_dispatch_groups(n: int) -> int {
    (n + 7) / 8
}

/// The per-request uniform block, as eight 32-bit words in the order the
/// shader declares them.
pub struct GpuUniforms {
    pub slice_index: u32,
    pub orientation: u32,
    pub output_width: u32,
    pub output_height: u32,
    pub volume_width: u32,
    pub volume_height: u32,
    pub volume_depth: u32,
    pub padding: u32,
}

impl GpuUniforms {
    /// The uniform block as the word sequence that is written to the GPU.
    pub fn to_words(&self) -> (r: Vec<u32>)
        ensures
            r@.len() == 8,
            r@[0] == self.slice_index,
            r@[1] == self.orientation,
            r@[2] == self.output_width,
            r@[3] == self.output_height,
            r@[4] == self.volume_width,
            r@[5] == self.volume_height,
            r@[6] == self.volume_depth,
            r@[7] == self.padding,
    {
        let mut words: Vec<u32> = Vec::new();
        words.push(self.slice_index);
        words.push(self.orientation);
        words.push(self.output_width);
        words.push(self.output_height);
        words.push(self.volume_width);
        words.push(self.volume_height);
        words.push(self.volume_depth);
        words.push(self.padding);
        words
    }
}

/// The layout of the one-time volume texture upload: two bytes per voxel per
/// row, one image of rows per depth layer.
pub struct GpuTextureLayout {
    pub bytes_per_row: u32,
    pub rows_per_image: u32,
}

/// Everything one compute dispatch needs: the uniform block, the workgroup
/// counts that cover the output, and the size of the output and staging
/// buffers in bytes (one 32-bit lane per pixel).
pub struct GpuSlicePlan {
    pub uniforms: GpuUniforms,
    pub dispatch_x: u32,
    pub dispatch_y: u32,
    pub output_bytes: u64,
}

impl Volume {
    /// The upload layout of this volume's 3-D texture.
    pub fn gpu_texture_layout(&self) -> (r: GpuTextureLayout)
        requires
            self.wf(),
        ensures
            r.bytes_per_row == 2 * self.spec_data().spec_width(),
            r.rows_per_image == self.spec_data().spec_height(),
    {
        let dim = self.data().dim();
        GpuTextureLayout { bytes_per_row: 2 * (dim.2 as u32), rows_per_image: dim.1 as u32 }
    }

    /// Builds the dispatch plan for one slice request. Fails with
    /// [`VolumeError::IndexOutOfRange`] exactly when `index` is at or beyond
    /// the extent of the fixed axis. The output shape of the plan is
    /// [`Volume::spec_output_width`] by [`Volume::spec_output_height`] — the
    /// shape the CPU path returns for a bilinear request of the same
    /// orientation: the native plane shape for axial planes, which are never
    /// resized, and the isotropic target otherwise.
    pub fn gpu_slice_plan(&self, index: usize, orientation: &Orientation) -> (r: Result<
        GpuSlicePlan,
        VolumeError,
    >)
        requires
            self.wf(),
        ensures
            match r {
                Ok(plan) => {
                    &&& self.spec_valid_index(index as int, *orientation)
                    &&& plan.uniforms.slice_index == index
                    &&& plan.uniforms.orientation == spec_orientation_code(*orientation)
                    &&& plan.uniforms.output_width == self.spec_output_width(*orientation)
                    &&& plan.uniforms.output_height == self.spec_output_height(*orientation)
                    &&& plan.uniforms.volume_width == self.spec_data().spec_width()
                    &&& plan.uniforms.volume_height == self.spec_data().spec_height()
                    &&& plan.uniforms.volume_depth == self.spec_data().spec_depth()
                    &&& plan.uniforms.padding == 0
                    &&& plan.dispatch_x == spec_dispatch_groups(self.spec_output_width(*orientation))
                    &&& plan.dispatch_y == spec_dispatch_groups(
                        self.spec_output_height(*orientation),
                    )
                    &&& plan.output_bytes == 4 * self.spec_output_width(*orientation)
                        * self.spec_output_height(*orientation)
                },
                Err(e) => {
                    &&& e == VolumeError::IndexOutOfRange
                    &&& !self.spec_valid_index(index as int, *orientation)
                },
            },
    {
        if !self.is_valid_index(index, orientation) {
            return Err(VolumeError::IndexOutOfRange);
        }
        let dim = self.data().dim();
        let (target_width, target_height): (u32, u32) = if matches!(
            orientation,
            Orientation::Axial,
        ) {
            (dim.2 as u32, dim.1 as u32)
        } else {
            self.get_plane_spacing(orientation)
        };
        let uniforms = GpuUniforms {
            slice_index: index as u32,
            orientation: orientation_code(orientation),
            output_width: target_width,
            output_height: target_height,
            volume_width: dim.2 as u32,
            volume_height: dim.1 as u32,
            volume_depth: dim.0 as u32,
            padding: 0,
        };
        let dispatch_x: u32 = (target_width + 7) / 8;
        let dispatch_y: u32 = (target_height + 7) / 8;
        proof {
            assert(4 * (target_width as int) * (target_height as int) < 0x8_0000_0000)
                by (nonlinear_arith)
                requires
                    0 <= target_width <= 65535,
                    0 <= target_height <= 65535,
            ;
        }
        let output_bytes: u64 = 4 * (target_width as u64) * (target_height as u64);
        Ok(GpuSlicePlan { uniforms, dispatch_x, dispatch_y, output_bytes })
    }
}

/// Truncates each 32-bit output lane of a GPU readback to its low 8 bits.
pub fn lanes_to_pixels(words: &Vec<u32>) -> (r: Vec<u8>)
    ensures
        r@.len() == words@.len(),
        forall|k: int|
            0 <= k < words@.len() ==> #[trigger] r@[k] as int == words@[k] as int % 256,
{
    let mut out: Vec<u8> = Vec::new();
    let mut k: usize = 0;
    while k < words.len()
        invariant
            k <= words@.len(),
            out@.len() == k,
            forall|i: int| 0 <= i < k ==> #[trigger] out@[i] as int == words@[i] as int % 256,
        decreases words@.len() - k,
    {
        let pixel: u8 = (words[k] % 256) as u8;
        out.push(pixel);
        k += 1;
    }
    out
}

/// Assembles the raw 32-bit lanes a GPU readback returned into an 8-bit
/// image of the requested shape: each lane is truncated to its low 8 bits.
/// Fails with [`VolumeError::BufferAssemblyFailure`] exactly when the lane
/// count does not equal `width * height`.
pub fn assemble_gpu_image(words: &Vec<u32>, width: u32, height: u32) -> (r: Result<
    SliceImage,
    VolumeError,
>)
    ensures
        match r {
            Ok(img) => {
                &&& words@.len() == width * height
                &&& img.wf()
                &&& img.spec_width() == width
                &&& img.spec_height() == height
                &&& forall|i: int, j: int|
                    0 <= i < height && 0 <= j < width ==> #[trigger] img.pixel_at(i, j) as int
                        == words@[row_major(i, j, width as int)] as int % 256
            },
            Err(e) => {
                &&& e == VolumeError::BufferAssemblyFailure
                &&& words@.len() != width * height
            },
        },
{
    let pixels = lanes_to_pixels(words);
    match SliceImage::from_raw(width, height, pixels) {
        Ok(img) => {
            proof {
                assert forall|i: int, j: int| 0 <= i < height && 0 <= j < width implies #[trigger]
                    img.pixel_at(i, j) as int == words@[row_major(i, j, width as int)] as int
                    % 256 by {
                    assert(0 <= row_major(i, j, width as int) < (width as int) * (height as int))
                        by (nonlinear_arith)
                        requires
                            0 <= i < height,
                            0 <= j < width,
                    ;
                }
            }
            Ok(img)
        },
        Err(e) => Err(e),
    }
}

} // verus!
