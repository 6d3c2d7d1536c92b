//! The resampling arithmetic of the engine: isotropic target dimensions and
//! bilinear sampling at fractional plane coordinates.
//!
//! All fractional quantities are exact fixed-point integers with
//! [`FRAC_ONE`] (2^16) as the unit, so every contract of this module pins the
//! computed value exactly. Divisions truncate toward zero (the arguments are
//! never negative); the truncation points are part of the contracts.

use vstd::arithmetic::div_mod::lemma_div_denominator;
use vstd::arithmetic::div_mod::lemma_div_is_ordered;
use vstd::arithmetic::div_mod::lemma_div_multiples_vanish;
use vstd::arithmetic::div_mod::lemma_mod_multiples_basic;
use vstd::arithmetic::mul::lemma_mul_is_associative;
use vstd::prelude::*;

use crate::grid::MAX_DIM;
use crate::grid::Plane;

verus! {

/// One whole step of a fixed-point plane coordinate: coordinates carry 16
/// fractional bits.
pub const FRAC_ONE: u64 = 65536;

/// Half a step: the fixed-point form of one half.
pub const FRAC_HALF: u64 = 32768;

/// The largest accepted spacing component. Spacing is given as strictly
/// positive integers in any one physical unit (for example micrometres);
/// only the ratios between the components matter.
pub const MAX_SPACING: u32 = 65535;

/// The smallest of three spacing components.
pub open spec fn min3(a: int, b: int, c: int) -> int {
    let ab = if a <= b {
        a
    } else {
        b
    };
    if ab <= c {
        ab
    } else {
        c
    }
}

/// The isotropic extent of one axis: the extent `dim` scaled by its spacing
/// `s` over the minimum spacing `m`, truncated.
pub open spec fn iso_axis(dim: int, s: int, m: int) -> int {
    dim * s / m
}

/// A fixed-point coordinate clamped to the last valid position of an axis of
/// `size` cells.
pub open spec fn clamped(c: int, size: int) -> int {
    let max = (size - 1) * FRAC_ONE;
    if c > max {
        max
    } else {
        c
    }
}

/// A linear blend of `a` toward `b` by the fixed-point weight `t`, scaled up
/// by [`FRAC_ONE`].
pub open spec fn blend(a: int, b: int, t: int) -> int {
    a * (FRAC_ONE - t) + b * t
}

/// The bilinearly interpolated value of `p` at the fixed-point coordinates
/// (`y`, `x`), as the engine computes it: coordinates are clamped to the last
/// valid row and column, the four surrounding cells are blended along X
/// first and then along Y, and the result is scaled back down, truncating.
pub open spec fn bilinear_spec(p: Plane, y: int, x: int) -> int {
    let h = p.spec_height() as int;
    let w = p.spec_width() as int;
    let yc = clamped(y, h);
    let xc = clamped(x, w);
    let y0 = yc / (FRAC_ONE as int);
    let x0 = xc / (FRAC_ONE as int);
    let dy = yc % (FRAC_ONE as int);
    let dx = xc % (FRAC_ONE as int);
    let y1 = if y0 + 1 < h {
        y0 + 1
    } else {
        h - 1
    };
    let x1 = if x0 + 1 < w {
        x0 + 1
    } else {
        w - 1
    };
    let r0 = blend(p.at(y0, x0) as int, p.at(y0, x1) as int, dx);
    let r1 = blend(p.at(y1, x0) as int, p.at(y1, x1) as int, dx);
    blend(r0, r1, dy) / ((FRAC_ONE * FRAC_ONE) as int)
}

/// A blend of two 16-bit values stays under `0xFFFF * FRAC_ONE`.
proof fn lemma_blend_bound_cells(a: int, b: int, t: int)
    by (nonlinear_arith)
    requires
        0 <= a <= 0xFFFF,
        0 <= b <= 0xFFFF,
        0 <= t <= 0x10000,
    ensures
        0 <= blend(a, b, t) <= 0xFFFF0000,
{
}

/// A blend of two row blends stays under `0xFFFF * FRAC_ONE * FRAC_ONE`.
proof fn lemma_blend_bound_rows(a: int, b: int, t: int)
    by (nonlinear_arith)
    requires
        0 <= a <= 0xFFFF0000,
        0 <= b <= 0xFFFF0000,
        0 <= t <= 0x10000,
    ensures
        0 <= blend(a, b, t) <= 0xFFFF00000000,
{
}

/// The stateless interpolation engine.
pub struct Interpolator;

impl Interpolator {
    /// The (depth, height, width) the volume would have if it were resampled
    /// so that the axis of smallest physical spacing defines the common voxel
    /// size. `spacing` is ordered (X, Y, Z) and `original_dim` is ordered
    /// (depth = Z, height = Y, width = X); each axis extent is scaled by its
    /// own spacing over the minimum spacing, truncating.
    pub fn get_isotropic_dimensions(spacing: (u32, u32, u32), original_dim: (usize, usize, usize))
        -> (r: (u32, u32, u32))
        requires
            1 <= spacing.0 <= MAX_SPACING,
            1 <= spacing.1 <= MAX_SPACING,
            1 <= spacing.2 <= MAX_SPACING,
            original_dim.0 <= MAX_DIM,
            original_dim.1 <= MAX_DIM,
            original_dim.2 <= MAX_DIM,
        ensures
            ({
                let m = min3(spacing.0 as int, spacing.1 as int, spacing.2 as int);
                &&& r.0 == iso_axis(original_dim.0 as int, spacing.2 as int, m)
                &&& r.1 == iso_axis(original_dim.1 as int, spacing.1 as int, m)
                &&& r.2 == iso_axis(original_dim.2 as int, spacing.0 as int, m)
            }),
    {
        let (x_spacing, y_spacing, z_spacing) = spacing;
        let mxy: u32 = if x_spacing <= y_spacing {
            x_spacing
        } else {
            y_spacing
        };
        let min_spacing: u32 = if mxy <= z_spacing {
            mxy
        } else {
            z_spacing
        };
        let new_z: u32 = Self::scale_axis(original_dim.0, z_spacing, min_spacing);
        let new_y: u32 = Self::scale_axis(original_dim.1, y_spacing, min_spacing);
        let new_x: u32 = Self::scale_axis(original_dim.2, x_spacing, min_spacing);
        (new_z, new_y, new_x)
    }

    /// One axis of the isotropic dimensions: `dim * s / m`, truncating.
    fn scale_axis(dim: usize, s: u32, m: u32) -> (r: u32)
        requires
            dim <= MAX_DIM,
            1 <= s <= MAX_SPACING,
            1 <= m <= MAX_SPACING,
        ensures
            r == iso_axis(dim as int, s as int, m as int),
    {
        proof {
            assert(dim * s <= 0xFFFE0001) by (nonlinear_arith)
                requires
                    0 <= dim <= MAX_DIM,
                    0 <= s <= MAX_SPACING,
            ;
            lemma_div_is_ordered(0, (dim as int) * (s as int), m as int);
            lemma_div_is_ordered((dim as int) * (s as int), 0xFFFE0001, m as int);
            lemma_div_is_ordered(0xFFFE0001 as int, 0xFFFE0001 as int, 1);
        }
        let scaled: u64 = (dim as u64) * (s as u64);
        let out: u64 = scaled / (m as u64);
        proof {
            assert(scaled / (m as u64) <= scaled) by (nonlinear_arith)
                requires
                    1 <= m as u64,
                    0 <= scaled,
                    scaled as int / (m as u64) as int <= scaled as int / 1int || true,
            ;
        }
        out as u32
    }

    /// The bilinearly interpolated value of `slice` at the fixed-point
    /// coordinates (`y`, `x`): 16 fractional bits, clamped to the last valid
    /// row and column, blended along X first and then along Y, truncating.
    pub fn bilinear_interpolate(slice: &Plane, y: u64, x: u64) -> (r: u16)
        requires
            slice.wf(),
        ensures
            r as int == bilinear_spec(*slice, y as int, x as int),
    {
        let height = slice.height();
        let width = slice.width();
        proof {
            assert((height - 1) * (FRAC_ONE as int) <= 0xFFFE_0000_0000) by (nonlinear_arith)
                requires
                    0 < height <= MAX_DIM,
            ;
            assert((width - 1) * (FRAC_ONE as int) <= 0xFFFE_0000_0000) by (nonlinear_arith)
                requires
                    0 < width <= MAX_DIM,
            ;
        }
        let max_y: u64 = ((height - 1) as u64) * FRAC_ONE;
        let max_x: u64 = ((width - 1) as u64) * FRAC_ONE;
        let yc: u64 = if y > max_y {
            max_y
        } else {
            y
        };
        let xc: u64 = if x > max_x {
            max_x
        } else {
            x
        };
        let y0u: u64 = yc / FRAC_ONE;
        let x0u: u64 = xc / FRAC_ONE;
        let dy: u64 = yc % FRAC_ONE;
        let dx: u64 = xc % FRAC_ONE;
        proof {
            lemma_div_is_ordered(yc as int, max_y as int, FRAC_ONE as int);
            lemma_div_multiples_vanish((height - 1) as int, FRAC_ONE as int);
            lemma_div_is_ordered(xc as int, max_x as int, FRAC_ONE as int);
            lemma_div_multiples_vanish((width - 1) as int, FRAC_ONE as int);
            assert(y0u <= height - 1);
            assert(x0u <= width - 1);
        }
        let y0: usize = y0u as usize;
        let x0: usize = x0u as usize;
        let y1: usize = if y0 + 1 < height {
            y0 + 1
        } else {
            height - 1
        };
        let x1: usize = if x0 + 1 < width {
            x0 + 1
        } else {
            width - 1
        };
        let v00 = slice.get(y0, x0) as u64;
        let v01 = slice.get(y0, x1) as u64;
        let v10 = slice.get(y1, x0) as u64;
        let v11 = slice.get(y1, x1) as u64;
        proof {
            lemma_blend_bound_cells(v00 as int, v01 as int, dx as int);
            lemma_blend_bound_cells(v10 as int, v11 as int, dx as int);
        }
        let r0: u64 = v00 * (FRAC_ONE - dx) + v01 * dx;
        let r1: u64 = v10 * (FRAC_ONE - dx) + v11 * dx;
        proof {
            lemma_blend_bound_rows(r0 as int, r1 as int, dy as int);
            lemma_div_is_ordered(
                blend(r0 as int, r1 as int, dy as int),
                0xFFFF00000000,
                (FRAC_ONE * FRAC_ONE) as int,
            );
            assert(0xFFFF00000000int / 0x100000000int == 0xFFFF);
        }
        let out: u64 = (r0 * (FRAC_ONE - dy) + r1 * dy) / (FRAC_ONE * FRAC_ONE);
        out as u16
    }
}

/// The isotropic extent of an axis is never below the original extent, and
/// equals it exactly when the axis already has the minimum spacing.
pub proof fn lemma_iso_axis_lower_bound(dim: int, s: int, m: int)
    requires
        0 <= dim,
        0 < m <= s,
    ensures
        iso_axis(dim, s, m) >= dim,
        s == m ==> iso_axis(dim, s, m) == dim,
{
    assert(dim * s >= dim * m) by (nonlinear_arith)
        requires
            0 <= dim,
            0 < m <= s,
    ;
    lemma_div_is_ordered(dim * m, dim * s, m);
    lemma_div_multiples_vanish(dim, m);
    assert(m * dim == dim * m) by (nonlinear_arith);
}

/// For every positive spacing triple and every original dimension triple,
/// the isotropic dimensions are at least the original extent on every axis,
/// and exactly the original extent on each axis whose spacing is the
/// minimum of the triple.
pub proof fn lemma_isotropic_dimensions_lower_bound(
    spacing: (u32, u32, u32),
    original_dim: (usize, usize, usize),
)
    requires
        1 <= spacing.0,
        1 <= spacing.1,
        1 <= spacing.2,
    ensures
        ({
            let m = min3(spacing.0 as int, spacing.1 as int, spacing.2 as int);
            &&& iso_axis(original_dim.0 as int, spacing.2 as int, m) >= original_dim.0
            &&& iso_axis(original_dim.1 as int, spacing.1 as int, m) >= original_dim.1
            &&& iso_axis(original_dim.2 as int, spacing.0 as int, m) >= original_dim.2
            &&& spacing.2 == m ==> iso_axis(original_dim.0 as int, spacing.2 as int, m)
                == original_dim.0
            &&& spacing.1 == m ==> iso_axis(original_dim.1 as int, spacing.1 as int, m)
                == original_dim.1
            &&& spacing.0 == m ==> iso_axis(original_dim.2 as int, spacing.0 as int, m)
                == original_dim.2
        }),
{
    let m = min3(spacing.0 as int, spacing.1 as int, spacing.2 as int);
    lemma_iso_axis_lower_bound(original_dim.0 as int, spacing.2 as int, m);
    lemma_iso_axis_lower_bound(original_dim.1 as int, spacing.1 as int, m);
    lemma_iso_axis_lower_bound(original_dim.2 as int, spacing.0 as int, m);
}

/// Bilinear sampling at a whole-cell coordinate returns that cell's value
/// exactly, with no blending.
pub proof fn lemma_bilinear_at_cell(p: Plane, iy: int, ix: int)
    requires
        p.wf(),
        0 <= iy < p.spec_height(),
        0 <= ix < p.spec_width(),
    ensures
        bilinear_spec(p, iy * FRAC_ONE, ix * FRAC_ONE) == p.at(iy, ix),
{
    let h = p.spec_height() as int;
    let w = p.spec_width() as int;
    let f = FRAC_ONE as int;
    assert(iy * f <= (h - 1) * f) by (nonlinear_arith)
        requires
            iy <= h - 1,
            0 < f,
    ;
    assert(ix * f <= (w - 1) * f) by (nonlinear_arith)
        requires
            ix <= w - 1,
            0 < f,
    ;
    assert(clamped(iy * f, h) == iy * f);
    assert(clamped(ix * f, w) == ix * f);
    assert(iy * f == f * iy) by (nonlinear_arith);
    assert(ix * f == f * ix) by (nonlinear_arith);
    lemma_div_multiples_vanish(iy, f);
    lemma_div_multiples_vanish(ix, f);
    lemma_mod_multiples_basic(iy, f);
    lemma_mod_multiples_basic(ix, f);
    let v = p.at(iy, ix) as int;
    assert(blend(v, p.at(iy, if ix + 1 < w { ix + 1 } else { w - 1 }) as int, 0) == v * f);
    let r0 = blend(v, p.at(iy, if ix + 1 < w { ix + 1 } else { w - 1 }) as int, 0);
    let r1 = blend(
        p.at(if iy + 1 < h { iy + 1 } else { h - 1 }, ix) as int,
        p.at(if iy + 1 < h { iy + 1 } else { h - 1 }, if ix + 1 < w { ix + 1 } else { w - 1 }) as int,
        0,
    );
    assert(blend(r0, r1, 0) == (v * f) * f);
    lemma_mul_is_associative(v, f, f);
    lemma_div_multiples_vanish(v, f * f);
    assert(v * (f * f) == (f * f) * v) by (nonlinear_arith);
    assert(((f * f) * v) / (f * f) == v);
    assert((FRAC_ONE * FRAC_ONE) as int == f * f);
}

/// Bilinear sampling at the exact midpoint of a 2-by-2 plane returns the
/// arithmetic mean of the four cells (truncating).
pub proof fn lemma_bilinear_midpoint(p: Plane)
    requires
        p.wf(),
        p.spec_height() == 2,
        p.spec_width() == 2,
    ensures
        bilinear_spec(p, FRAC_HALF as int, FRAC_HALF as int) == (p.at(0, 0) + p.at(0, 1) + p.at(
            1,
            0,
        ) + p.at(1, 1)) / 4,
{
    let half = FRAC_HALF as int;
    let f = FRAC_ONE as int;
    assert(clamped(half, 2) == half);
    assert(half / f == 0);
    assert(half % f == half);
    let a = p.at(0, 0) as int;
    let b = p.at(0, 1) as int;
    let c = p.at(1, 0) as int;
    let d = p.at(1, 1) as int;
    let s = a + b + c + d;
    let r0 = blend(a, b, half);
    let r1 = blend(c, d, half);
    assert(blend(r0, r1, half) == s * 0x40000000) by (nonlinear_arith)
        requires
            r0 == blend(a, b, half),
            r1 == blend(c, d, half),
            s == a + b + c + d,
            half == 0x8000,
            f == 0x10000,
    ;
    assert(s * 0x40000000 == (s * 0x40000000)) by (nonlinear_arith);
    lemma_div_denominator(s * 0x40000000, 0x40000000, 4);
    lemma_div_multiples_vanish(s, 0x40000000);
    assert(s * 0x40000000 == 0x40000000 * s) by (nonlinear_arith);
    assert((s * 0x40000000) / 0x40000000 == s);
    assert(0x40000000 * 4 == (FRAC_ONE * FRAC_ONE) as int);
    assert((s * 0x40000000) / ((FRAC_ONE * FRAC_ONE) as int) == s / 4);
}

/// Coordinates at or beyond the last row and column are clamped: sampling
/// there returns the corner cell's value.
pub proof fn lemma_bilinear_clamp_corner(p: Plane, y: int, x: int)
    requires
        p.wf(),
        y >= (p.spec_height() - 1) * FRAC_ONE,
        x >= (p.spec_width() - 1) * FRAC_ONE,
    ensures
        bilinear_spec(p, y, x) == p.at(p.spec_height() - 1, p.spec_width() - 1),
{
    let h = p.spec_height() as int;
    let w = p.spec_width() as int;
    let f = FRAC_ONE as int;
    assert(clamped(y, h) == (h - 1) * f);
    assert(clamped(x, w) == (w - 1) * f);
    assert((h - 1) * f == f * (h - 1)) by (nonlinear_arith);
    assert((w - 1) * f == f * (w - 1)) by (nonlinear_arith);
    lemma_div_multiples_vanish(h - 1, f);
    lemma_div_multiples_vanish(w - 1, f);
    lemma_mod_multiples_basic(h - 1, f);
    lemma_mod_multiples_basic(w - 1, f);
    let v = p.at(h - 1, w - 1) as int;
    assert(blend(blend(v, v, 0), blend(v, v, 0), 0) == (v * f) * f);
    lemma_mul_is_associative(v, f, f);
    lemma_div_multiples_vanish(v, f * f);
    assert(v * (f * f) == (f * f) * v) by (nonlinear_arith);
    assert((FRAC_ONE * FRAC_ONE) as int == f * f);
}

} // verus!
