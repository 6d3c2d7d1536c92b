//! Dense row-major storage for the voxel data: a 2-D [`Plane`] and a 3-D
//! [`VoxelGrid`], both over 16-bit unsigned scalars.
//!
//! Axes are ordered (depth = Z, height = Y, width = X); a cell of a plane is
//! addressed as (row, column). Every extent is at least 1 and at most
//! [`MAX_DIM`], a cap that keeps all coordinate arithmetic of the engine
//! inside 64-bit integers and inside the extent limits of GPU 3-D textures.

use vstd::prelude::*;

verus! {

/// The largest extent of any axis of a plane or a volume.
pub const MAX_DIM: usize = 65535;

/// The flat index of cell (row `y`, column `x`) of a row-major grid of
/// `w` columns.
pub open spec fn row_major(y: int, x: int, w: int) -> int {
    y * w + x
}

/// A cell index inside an `h` by `w` grid stays inside the grid's storage,
/// and inside `usize` when both extents are capped by [`MAX_DIM`].
pub proof fn lemma_row_major_in_bounds(y: int, x: int, h: int, w: int)
    by (nonlinear_arith)
    requires
        0 <= y < h <= MAX_DIM,
        0 <= x < w <= MAX_DIM,
    ensures
        0 <= row_major(y, x, w) < h * w,
        h * w <= 0xFFFE0001,
{
}

/// A 2-D grid of 16-bit scalars, stored row-major. Both extents are between
/// 1 and [`MAX_DIM`], and the backing vector holds exactly `height * width`
/// cells.
pub struct Plane {
    values: Vec<u16>,
    height: usize,
    width: usize,
}

impl Plane {
    /// The cells of the plane in row-major order.
    pub closed spec fn cells(&self) -> Seq<u16> {
        self.values@
    }

    /// The number of rows.
    pub closed spec fn spec_height(&self) -> nat {
        self.height as nat
    }

    /// The number of columns.
    pub closed spec fn spec_width(&self) -> nat {
        self.width as nat
    }

    /// Well-formed: non-degenerate capped extents, and storage of exactly
    /// `height * width` cells.
    pub open spec fn wf(&self) -> bool {
        &&& 1 <= self.spec_height() <= MAX_DIM
        &&& 1 <= self.spec_width() <= MAX_DIM
        &&& self.cells().len() == self.spec_height() * self.spec_width()
    }

    /// The value of the cell at row `y`, column `x`.
    pub open spec fn at(&self, y: int, x: int) -> u16 {
        self.cells()[row_major(y, x, self.spec_width() as int)]
    }

    /// Builds a plane from row-major cell values. Returns `None` when either
    /// extent is zero or above [`MAX_DIM`], or when the number of values does
    /// not equal `height * width`.
    pub fn from_raw(values: Vec<u16>, height: usize, width: usize) -> (r: Option<Plane>)
        ensures
            match r {
                Some(p) => {
                    &&& p.wf()
                    &&& p.spec_height() == height
                    &&& p.spec_width() == width
                    &&& p.cells() == values@
                },
                None => !(1 <= height <= MAX_DIM && 1 <= width <= MAX_DIM
                    && values@.len() == height * width),
            },
    {
        if height < 1 || height > MAX_DIM || width < 1 || width > MAX_DIM {
            return None;
        }
        proof {
            assert(height * width <= 0xFFFE0001) by (nonlinear_arith)
                requires
                    0 <= height <= MAX_DIM,
                    0 <= width <= MAX_DIM,
            ;
        }
        if values.len() != height * width {
            return None;
        }
        Some(Plane { values, height, width })
    }

    /// The number of rows.
    pub fn height(&self) -> (r: usize)
        ensures
            r == self.spec_height(),
    {
        self.height
    }

    /// The number of columns.
    pub fn width(&self) -> (r: usize)
        ensures
            r == self.spec_width(),
    {
        self.width
    }

    /// The backing vector of cells, row-major.
    pub fn values(&self) -> (r: &Vec<u16>)
        ensures
            r@ == self.cells(),
    {
        &self.values
    }

    /// Reads the cell at row `y`, column `x`.
    pub fn get(&self, y: usize, x: usize) -> (r: u16)
        requires
            self.wf(),
            y < self.spec_height(),
            x < self.spec_width(),
        ensures
            r == self.at(y as int, x as int),
    {
        proof {
            lemma_row_major_in_bounds(
                y as int,
                x as int,
                self.spec_height() as int,
                self.spec_width() as int,
            );
        }
        self.values[y * self.width + x]
    }
}

/// A 3-D grid of 16-bit scalars with axes (depth = Z, height = Y,
/// width = X), stored with X fastest and Z slowest. All extents are between
/// 1 and [`MAX_DIM`], and the backing vector holds exactly
/// `depth * height * width` cells.
pub struct VoxelGrid {
    values: Vec<u16>,
    depth: usize,
    height: usize,
    width: usize,
}

impl VoxelGrid {
    /// The cells of the grid: Z slowest, then Y, then X.
    pub closed spec fn cells(&self) -> Seq<u16> {
        self.values@
    }

    /// The extent of the depth (Z) axis.
    pub closed spec fn spec_depth(&self) -> nat {
        self.depth as nat
    }

    /// The extent of the height (Y) axis.
    pub closed spec fn spec_height(&self) -> nat {
        self.height as nat
    }

    /// The extent of the width (X) axis.
    pub closed spec fn spec_width(&self) -> nat {
        self.width as nat
    }

    /// Well-formed: non-degenerate capped extents, and storage of exactly
    /// `depth * height * width` cells.
    pub open spec fn wf(&self) -> bool {
        &&& 1 <= self.spec_depth() <= MAX_DIM
        &&& 1 <= self.spec_height() <= MAX_DIM
        &&& 1 <= self.spec_width() <= MAX_DIM
        &&& self.cells().len() == self.spec_depth() * (self.spec_height() * self.spec_width())
    }

    /// The flat index of voxel (z, y, x).
    pub open spec fn flat(&self, z: int, y: int, x: int) -> int {
        z * (self.spec_height() * self.spec_width()) + row_major(y, x, self.spec_width() as int)
    }

    /// The value of the voxel at (z, y, x).
    pub open spec fn at(&self, z: int, y: int, x: int) -> u16 {
        self.cells()[self.flat(z, y, x)]
    }

    /// A voxel index inside the grid's extents addresses a cell inside its
    /// storage.
    pub proof fn lemma_flat_in_bounds(&self, z: int, y: int, x: int)
        requires
            self.spec_depth() <= MAX_DIM,
            self.spec_height() <= MAX_DIM,
            self.spec_width() <= MAX_DIM,
            0 <= z < self.spec_depth(),
            0 <= y < self.spec_height(),
            0 <= x < self.spec_width(),
        ensures
            0 <= self.flat(z, y, x) < self.spec_depth() * (self.spec_height() * self.spec_width()),
            self.spec_height() * self.spec_width() <= 0xFFFE0001,
    {
        let h = self.spec_height() as int;
        let w = self.spec_width() as int;
        let d = self.spec_depth() as int;
        lemma_row_major_in_bounds(y, x, h, w);
        let rm = row_major(y, x, w);
        assert(0 <= z * (h * w) + rm < d * (h * w)) by (nonlinear_arith)
            requires
                0 <= z < d,
                0 <= rm < h * w,
        ;
    }

    /// The backing vector of a grid fits in the address space.
    proof fn lemma_storage_bound(&self)
        ensures
            self.cells().len() <= usize::MAX,
    {
        assert(vstd::std_specs::vec::spec_vec_len(&self.values) == self.values@.len()) by {
            broadcast use vstd::std_specs::vec::axiom_spec_len;

        }
    }

    /// Builds a grid from flat voxel values (Z slowest, X fastest). Returns
    /// `None` when an extent is zero or above [`MAX_DIM`], or when the number
    /// of values does not equal `depth * height * width`.
    pub fn from_raw(values: Vec<u16>, depth: usize, height: usize, width: usize) -> (r: Option<
        VoxelGrid,
    >)
        ensures
            match r {
                Some(g) => {
                    &&& g.wf()
                    &&& g.spec_depth() == depth
                    &&& g.spec_height() == height
                    &&& g.spec_width() == width
                    &&& g.cells() == values@
                },
                None => !(1 <= depth <= MAX_DIM && 1 <= height <= MAX_DIM && 1 <= width <= MAX_DIM
                    && values@.len() == depth * (height * width)),
            },
    {
        if depth < 1 || depth > MAX_DIM || height < 1 || height > MAX_DIM || width < 1 || width
            > MAX_DIM {
            return None;
        }
        proof {
            assert(height * width <= 0xFFFE0001) by (nonlinear_arith)
                requires
                    0 <= height <= MAX_DIM,
                    0 <= width <= MAX_DIM,
            ;
        }
        let plane_cells: usize = height * width;
        proof {
            assert(depth * plane_cells <= 0xFFFE_0001_0000_0000) by (nonlinear_arith)
                requires
                    0 <= depth <= MAX_DIM,
                    0 <= plane_cells <= 0xFFFE0001,
            ;
        }
        let expected: u64 = (depth as u64) * (plane_cells as u64);
        if (values.len() as u64) != expected {
            return None;
        }
        Some(VoxelGrid { values, depth, height, width })
    }

    /// The backing vector of voxels: Z slowest, then Y, then X.
    pub fn values(&self) -> (r: &Vec<u16>)
        ensures
            r@ == self.cells(),
    {
        &self.values
    }

    /// The extents of the grid as (depth, height, width).
    pub fn dim(&self) -> (r: (usize, usize, usize))
        ensures
            r.0 == self.spec_depth(),
            r.1 == self.spec_height(),
            r.2 == self.spec_width(),
    {
        (self.depth, self.height, self.width)
    }

    /// Reads the voxel at (z, y, x).
    pub fn get(&self, z: usize, y: usize, x: usize) -> (r: u16)
        requires
            self.wf(),
            z < self.spec_depth(),
            y < self.spec_height(),
            x < self.spec_width(),
        ensures
            r == self.at(z as int, y as int, x as int),
    {
        proof {
            self.lemma_flat_in_bounds(z as int, y as int, x as int);
            self.lemma_storage_bound();
        }
        self.values[z * (self.height * self.width) + (y * self.width + x)]
    }

    /// Overwrites the voxel at (z, y, x). The shape of the grid never
    /// changes; only cell values may be replaced.
    pub fn set(&mut self, z: usize, y: usize, x: usize, value: u16)
        requires
            old(self).wf(),
            z < old(self).spec_depth(),
            y < old(self).spec_height(),
            x < old(self).spec_width(),
        ensures
            final(self).wf(),
            final(self).spec_depth() == old(self).spec_depth(),
            final(self).spec_height() == old(self).spec_height(),
            final(self).spec_width() == old(self).spec_width(),
            final(self).cells() == old(self).cells().update(
                old(self).flat(z as int, y as int, x as int),
                value,
            ),
    {
        proof {
            self.lemma_flat_in_bounds(z as int, y as int, x as int);
            self.lemma_storage_bound();
        }
        let idx: usize = z * (self.height * self.width) + (y * self.width + x);
        self.values.set(idx, value);
    }
}

} // verus!
