//! Fixed-point vectors, matrices, vertices and the per-frame uniforms,
//! with the vertex transform stage.
//!
//! The stage perturbs a model-space vertex with a time-driven wobble, runs
//! it through the model, view and projection matrices, divides by the
//! homogeneous coordinate, and maps the result into pixel space through
//! the viewport matrix. A vertex whose homogeneous coordinate is not
//! safely positive, or whose normalized position leaves the guard band
//! around the view volume, is discarded rather than divided into
//! nonsense. The shading normal is the model-space normal taken through
//! the inverse-transpose of the model matrix's linear part, with the
//! identity as the fallback for a singular matrix.

use vstd::prelude::*;
use vstd::arithmetic::div_mod::lemma_div_is_ordered;
use crate::color::Color;
use crate::fixed::{
    fx_mul, spec_fx_mul, fx_clamp, spec_clamp, ratio_clamped, spec_ratio_clamped,
    lemma_div_of_multiple, FX_ONE,
};
use crate::noise::NoiseField;
use crate::trig::{fixed_sin, spec_sin};

verus! {

/// The largest magnitude a matrix entry can carry.
pub const MAT_MAX: i64 = 0x400_0000;

/// The largest magnitude a model-space coordinate can carry.
pub const POS_MAX: i64 = 0x40_0000;

/// The largest magnitude of an entry of a normal matrix.
pub const NORMAL_MAT_MAX: i64 = 0x40_0000;

/// Below this magnitude (in the determinant's raw scale) the model matrix
/// counts as singular and the normal transform falls back to the identity.
pub const DET_EPS: i64 = 0x100_0000_0000;

/// The guard band: a vertex whose normalized device coordinate leaves
/// [-4, 4] is discarded.
pub const NDC_GUARD: i64 = 0x4_0000;

/// The smallest homogeneous coordinate that is still divided by.
pub const W_EPS: i64 = 16;

/// A fixed-point 2-vector.
#[derive(Clone, Copy, PartialEq, Eq, Structural, Debug)]
pub struct Vec2Fx {
    pub x: i64,
    pub y: i64,
}

/// A fixed-point 3-vector.
#[derive(Clone, Copy, PartialEq, Eq, Structural, Debug)]
pub struct Vec3Fx {
    pub x: i64,
    pub y: i64,
    pub z: i64,
}

/// A fixed-point 4-vector.
#[derive(Clone, Copy, PartialEq, Eq, Structural, Debug)]
pub struct Vec4Fx {
    pub x: i64,
    pub y: i64,
    pub z: i64,
    pub w: i64,
}

/// A fixed-point 4 by 4 matrix, row by row.
#[derive(Clone, Copy, PartialEq, Eq, Structural, Debug)]
pub struct Mat4Fx {
    pub r0: Vec4Fx,
    pub r1: Vec4Fx,
    pub r2: Vec4Fx,
    pub r3: Vec4Fx,
}

impl Vec3Fx {
    /// A 3-vector from its components.
    pub fn new(x: i64, y: i64, z: i64) -> (v: Vec3Fx)
        ensures
            v == (Vec3Fx { x, y, z }),
    {
        Vec3Fx { x, y, z }
    }

    /// All components within the model-space bound.
    pub open spec fn wf(&self) -> bool {
        &&& -POS_MAX <= self.x <= POS_MAX
        &&& -POS_MAX <= self.y <= POS_MAX
        &&& -POS_MAX <= self.z <= POS_MAX
    }
}

/// A row's entries are all within the matrix bound.
pub open spec fn row_wf(r: Vec4Fx) -> bool {
    &&& -MAT_MAX <= r.x <= MAT_MAX
    &&& -MAT_MAX <= r.y <= MAT_MAX
    &&& -MAT_MAX <= r.z <= MAT_MAX
    &&& -MAT_MAX <= r.w <= MAT_MAX
}

impl Mat4Fx {
    /// Every entry within the matrix bound.
    pub open spec fn wf(&self) -> bool {
        row_wf(self.r0) && row_wf(self.r1) && row_wf(self.r2) && row_wf(self.r3)
    }

    /// A matrix from four rows, each entry clamped into the matrix bound.
    pub fn new(r0: Vec4Fx, r1: Vec4Fx, r2: Vec4Fx, r3: Vec4Fx) -> (m: Mat4Fx)
        ensures
            m.wf(),
            m.r0 == clamp_row(r0),
            m.r1 == clamp_row(r1),
            m.r2 == clamp_row(r2),
            m.r3 == clamp_row(r3),
    {
        Mat4Fx { r0: clamp_row_exec(r0), r1: clamp_row_exec(r1), r2: clamp_row_exec(r2),
            r3: clamp_row_exec(r3) }
    }

    /// The identity transform.
    pub fn identity() -> (m: Mat4Fx)
        ensures
            m.wf(),
            m == Mat4Fx::spec_identity(),
    {
        Mat4Fx {
            r0: Vec4Fx { x: FX_ONE, y: 0, z: 0, w: 0 },
            r1: Vec4Fx { x: 0, y: FX_ONE, z: 0, w: 0 },
            r2: Vec4Fx { x: 0, y: 0, z: FX_ONE, w: 0 },
            r3: Vec4Fx { x: 0, y: 0, z: 0, w: FX_ONE },
        }
    }

    /// The identity, at the spec level.
    pub open spec fn spec_identity() -> Mat4Fx {
        Mat4Fx {
            r0: Vec4Fx { x: FX_ONE, y: 0, z: 0, w: 0 },
            r1: Vec4Fx { x: 0, y: FX_ONE, z: 0, w: 0 },
            r2: Vec4Fx { x: 0, y: 0, z: FX_ONE, w: 0 },
            r3: Vec4Fx { x: 0, y: 0, z: 0, w: FX_ONE },
        }
    }
}

/// A row with each entry clamped into the matrix bound.
pub open spec fn clamp_row(r: Vec4Fx) -> Vec4Fx {
    Vec4Fx {
        x: spec_clamp(r.x as int, -MAT_MAX as int, MAT_MAX as int) as i64,
        y: spec_clamp(r.y as int, -MAT_MAX as int, MAT_MAX as int) as i64,
        z: spec_clamp(r.z as int, -MAT_MAX as int, MAT_MAX as int) as i64,
        w: spec_clamp(r.w as int, -MAT_MAX as int, MAT_MAX as int) as i64,
    }
}

/// Clamp a row's entries into the matrix bound.
fn clamp_row_exec(r: Vec4Fx) -> (c: Vec4Fx)
    ensures
        c == clamp_row(r),
        row_wf(c),
{
    Vec4Fx {
        x: fx_clamp(r.x, -MAT_MAX, MAT_MAX),
        y: fx_clamp(r.y, -MAT_MAX, MAT_MAX),
        z: fx_clamp(r.z, -MAT_MAX, MAT_MAX),
        w: fx_clamp(r.w, -MAT_MAX, MAT_MAX),
    }
}

/// The fixed-point dot product of a matrix row with a 4-vector given by
/// its components.
pub open spec fn spec_dot4(r: Vec4Fx, x: int, y: int, z: int, w: int) -> int {
    (r.x * x + r.y * y + r.z * z + r.w * w) / (FX_ONE as int)
}

/// Row times vector, exact.
fn dot4(r: &Vec4Fx, x: i64, y: i64, z: i64, w: i64) -> (d: i64)
    requires
        row_wf(*r),
        -0x2_0000_0000_0000 <= x <= 0x2_0000_0000_0000,
        -0x2_0000_0000_0000 <= y <= 0x2_0000_0000_0000,
        -0x2_0000_0000_0000 <= z <= 0x2_0000_0000_0000,
        -0x2_0000_0000_0000 <= w <= 0x2_0000_0000_0000,
    ensures
        d == spec_dot4(*r, x as int, y as int, z as int, w as int),
        -0x2000_0000_0000_0000 <= d <= 0x2000_0000_0000_0000,
{
    proof {
        lemma_prod_bound(r.x as int, x as int, MAT_MAX as int, 0x2_0000_0000_0000);
        lemma_prod_bound(r.y as int, y as int, MAT_MAX as int, 0x2_0000_0000_0000);
        lemma_prod_bound(r.z as int, z as int, MAT_MAX as int, 0x2_0000_0000_0000);
        lemma_prod_bound(r.w as int, w as int, MAT_MAX as int, 0x2_0000_0000_0000);
    }
    let s: i128 = (r.x as i128) * (x as i128) + (r.y as i128) * (y as i128)
        + (r.z as i128) * (z as i128) + (r.w as i128) * (w as i128);
    proof {
        let hi = 4int * 0x400_0000 * 0x2_0000_0000_0000;
        lemma_div_is_ordered(s as int, hi, 65536);
        lemma_div_is_ordered(-hi, s as int, 65536);
        lemma_div_of_multiple(4int * 0x400_0000 * 0x2_0000_0000_0000 / 65536, 65536);
        assert(hi == (4int * 0x400_0000 * 0x2_0000_0000_0000 / 65536) * 65536);
    }
    crate::fixed::fx_down(s)
}

/// A product of two magnitude-bounded factors is bounded by the product
/// of the bounds.
proof fn lemma_prod_bound(a: int, b: int, ba: int, bb: int)
    requires
        -ba <= a <= ba,
        -bb <= b <= bb,
        0 <= ba,
        0 <= bb,
    ensures
        -(ba * bb) <= a * b <= ba * bb,
{
    assert(-(ba * bb) <= a * b <= ba * bb) by (nonlinear_arith)
        requires -ba <= a <= ba, -bb <= b <= bb, 0 <= ba, 0 <= bb;
}

/// One model-space vertex with its per-frame transformed position and
/// shading normal.
#[derive(Clone, Copy, PartialEq, Eq, Structural, Debug)]
pub struct Vertex {
    /// Model-space position.
    pub position: Vec3Fx,
    /// Model-space normal.
    pub normal: Vec3Fx,
    /// Texture coordinates.
    pub tex_coords: Vec2Fx,
    /// Intrinsic color.
    pub color: Color,
    /// Screen-space position including the depth component.
    pub transformed_position: Vec3Fx,
    /// The normal after the shading-relevant transform.
    pub transformed_normal: Vec3Fx,
}

impl Vertex {
    /// A model-space vertex, its coordinates clamped into the model-space
    /// bound; the transformed fields start equal to the model-space ones.
    pub fn new(position: Vec3Fx, normal: Vec3Fx, tex_coords: Vec2Fx, color: Color) -> (v:
        Vertex)
        ensures
            v.wf(),
            v.position == spec_clamp_vec3(position),
            v.normal == spec_clamp_vec3(normal),
            v.tex_coords == tex_coords,
            v.color == color,
            v.transformed_position == v.position,
            v.transformed_normal == v.normal,
    {
        let p: Vec3Fx = clamp_vec3(position);
        let n: Vec3Fx = clamp_vec3(normal);
        Vertex {
            position: p,
            normal: n,
            tex_coords,
            color,
            transformed_position: p,
            transformed_normal: n,
        }
    }

    /// Model-space fields within the model-space bound.
    pub open spec fn wf(&self) -> bool {
        self.position.wf() && self.normal.wf()
    }
}

/// A 3-vector with each component clamped into the model-space bound.
pub open spec fn spec_clamp_vec3(v: Vec3Fx) -> Vec3Fx {
    Vec3Fx {
        x: spec_clamp(v.x as int, -POS_MAX as int, POS_MAX as int) as i64,
        y: spec_clamp(v.y as int, -POS_MAX as int, POS_MAX as int) as i64,
        z: spec_clamp(v.z as int, -POS_MAX as int, POS_MAX as int) as i64,
    }
}

/// Clamp a 3-vector into the model-space bound.
fn clamp_vec3(v: Vec3Fx) -> (c: Vec3Fx)
    ensures
        c == spec_clamp_vec3(v),
        c.wf(),
{
    Vec3Fx {
        x: fx_clamp(v.x, -POS_MAX, POS_MAX),
        y: fx_clamp(v.y, -POS_MAX, POS_MAX),
        z: fx_clamp(v.z, -POS_MAX, POS_MAX),
    }
}

/// The immutable per-frame bundle every shading call reads.
pub struct Uniforms {
    pub model_matrix: Mat4Fx,
    pub view_matrix: Mat4Fx,
    pub projection_matrix: Mat4Fx,
    pub viewport_matrix: Mat4Fx,
    /// The frame-time counter.
    pub time: u32,
    /// The noise field shared by all shading calls of the frame.
    pub noise: NoiseField,
}

impl Uniforms {
    /// All four matrices within the matrix bound.
    pub open spec fn wf(&self) -> bool {
        self.model_matrix.wf() && self.view_matrix.wf() && self.projection_matrix.wf()
            && self.viewport_matrix.wf()
    }

    /// A per-frame bundle from its parts.
    pub fn new(
        model_matrix: Mat4Fx,
        view_matrix: Mat4Fx,
        projection_matrix: Mat4Fx,
        viewport_matrix: Mat4Fx,
        time: u32,
        noise: NoiseField,
    ) -> (u: Uniforms)
        requires
            model_matrix.wf(),
            view_matrix.wf(),
            projection_matrix.wf(),
            viewport_matrix.wf(),
        ensures
            u.wf(),
            u.model_matrix == model_matrix,
            u.view_matrix == view_matrix,
            u.projection_matrix == projection_matrix,
            u.viewport_matrix == viewport_matrix,
            u.time == time,
            u.noise == noise,
    {
        Uniforms { model_matrix, view_matrix, projection_matrix, viewport_matrix, time, noise }
    }
}

/// The cofactors and determinant of the linear 3 by 3 part of a matrix:
/// entry (i, j) of the inverse-transpose is cofactor (i, j) over the
/// determinant.
pub open spec fn spec_cof3(m: Mat4Fx) -> (int, int, int, int, int, int, int, int, int) {
    let a = m.r0.x as int;
    let b = m.r0.y as int;
    let c = m.r0.z as int;
    let d = m.r1.x as int;
    let e = m.r1.y as int;
    let f = m.r1.z as int;
    let g = m.r2.x as int;
    let h = m.r2.y as int;
    let i = m.r2.z as int;
    (e * i - f * h, -(d * i - f * g), d * h - e * g,
     -(b * i - c * h), a * i - c * g, -(a * h - b * g),
     b * f - c * e, -(a * f - c * d), a * e - b * d)
}

/// The determinant of the linear part, in its raw (doubly scaled) units.
pub open spec fn spec_det3(m: Mat4Fx) -> int {
    let cof = spec_cof3(m);
    (m.r0.x as int) * cof.0 + (m.r0.y as int) * cof.1 + (m.r0.z as int) * cof.2
}

/// The normal transform of the model matrix: the inverse-transpose of its
/// linear part, each entry clamped into the normal-matrix bound, or the
/// identity when the determinant is too small in magnitude.
pub open spec fn spec_normal_entry(m: Mat4Fx, cof: int) -> int {
    spec_ratio_clamped(
        cof * (FX_ONE as int) * (FX_ONE as int),
        spec_det3(m),
        NORMAL_MAT_MAX as int,
    )
}

/// The rows of the normal transform of `m`.
pub open spec fn spec_normal_rows(m: Mat4Fx) -> (Vec3Fx, Vec3Fx, Vec3Fx) {
    if -(DET_EPS as int) < spec_det3(m) < DET_EPS as int {
        (
            Vec3Fx { x: FX_ONE, y: 0, z: 0 },
            Vec3Fx { x: 0, y: FX_ONE, z: 0 },
            Vec3Fx { x: 0, y: 0, z: FX_ONE },
        )
    } else {
        let cof = spec_cof3(m);
        (
            Vec3Fx {
                x: spec_normal_entry(m, cof.0) as i64,
                y: spec_normal_entry(m, cof.1) as i64,
                z: spec_normal_entry(m, cof.2) as i64,
            },
            Vec3Fx {
                x: spec_normal_entry(m, cof.3) as i64,
                y: spec_normal_entry(m, cof.4) as i64,
                z: spec_normal_entry(m, cof.5) as i64,
            },
            Vec3Fx {
                x: spec_normal_entry(m, cof.6) as i64,
                y: spec_normal_entry(m, cof.7) as i64,
                z: spec_normal_entry(m, cof.8) as i64,
            },
        )
    }
}

/// Every component of a normal-matrix row is within its bound.
pub open spec fn normal_row_wf(r: Vec3Fx) -> bool {
    &&& -NORMAL_MAT_MAX <= r.x <= NORMAL_MAT_MAX
    &&& -NORMAL_MAT_MAX <= r.y <= NORMAL_MAT_MAX
    &&& -NORMAL_MAT_MAX <= r.z <= NORMAL_MAT_MAX
}

/// Compute the rows of the normal transform of `m`.
fn normal_rows(m: &Mat4Fx) -> (rows: (Vec3Fx, Vec3Fx, Vec3Fx))
    requires
        m.wf(),
    ensures
        rows == spec_normal_rows(*m),
        normal_row_wf(rows.0),
        normal_row_wf(rows.1),
        normal_row_wf(rows.2),
{
    let a: i128 = m.r0.x as i128;
    let b: i128 = m.r0.y as i128;
    let c: i128 = m.r0.z as i128;
    let d: i128 = m.r1.x as i128;
    let e: i128 = m.r1.y as i128;
    let f: i128 = m.r1.z as i128;
    let g: i128 = m.r2.x as i128;
    let h: i128 = m.r2.y as i128;
    let i: i128 = m.r2.z as i128;
    proof {
        let mm = MAT_MAX as int;
        lemma_prod_bound(e as int, i as int, mm, mm);
        lemma_prod_bound(f as int, h as int, mm, mm);
        lemma_prod_bound(d as int, i as int, mm, mm);
        lemma_prod_bound(f as int, g as int, mm, mm);
        lemma_prod_bound(d as int, h as int, mm, mm);
        lemma_prod_bound(e as int, g as int, mm, mm);
        lemma_prod_bound(b as int, i as int, mm, mm);
        lemma_prod_bound(c as int, h as int, mm, mm);
        lemma_prod_bound(a as int, i as int, mm, mm);
        lemma_prod_bound(c as int, g as int, mm, mm);
        lemma_prod_bound(a as int, h as int, mm, mm);
        lemma_prod_bound(b as int, g as int, mm, mm);
        lemma_prod_bound(b as int, f as int, mm, mm);
        lemma_prod_bound(c as int, e as int, mm, mm);
        lemma_prod_bound(a as int, f as int, mm, mm);
        lemma_prod_bound(c as int, d as int, mm, mm);
        lemma_prod_bound(a as int, e as int, mm, mm);
        lemma_prod_bound(b as int, d as int, mm, mm);
    }
    let c0: i128 = e * i - f * h;
    let c1: i128 = -(d * i - f * g);
    let c2: i128 = d * h - e * g;
    let c3: i128 = -(b * i - c * h);
    let c4: i128 = a * i - c * g;
    let c5: i128 = -(a * h - b * g);
    let c6: i128 = b * f - c * e;
    let c7: i128 = -(a * f - c * d);
    let c8: i128 = a * e - b * d;
    proof {
        let mm = MAT_MAX as int;
        lemma_prod_bound(a as int, c0 as int, mm, 2 * mm * mm);
        lemma_prod_bound(b as int, c1 as int, mm, 2 * mm * mm);
        lemma_prod_bound(c as int, c2 as int, mm, 2 * mm * mm);
    }
    let det: i128 = a * c0 + b * c1 + c * c2;
    if -(DET_EPS as i128) < det && det < DET_EPS as i128 {
        (
            Vec3Fx { x: FX_ONE, y: 0, z: 0 },
            Vec3Fx { x: 0, y: FX_ONE, z: 0 },
            Vec3Fx { x: 0, y: 0, z: FX_ONE },
        )
    } else {
        (
            Vec3Fx {
                x: ratio_clamped(c0 * 65536 * 65536, det, NORMAL_MAT_MAX),
                y: ratio_clamped(c1 * 65536 * 65536, det, NORMAL_MAT_MAX),
                z: ratio_clamped(c2 * 65536 * 65536, det, NORMAL_MAT_MAX),
            },
            Vec3Fx {
                x: ratio_clamped(c3 * 65536 * 65536, det, NORMAL_MAT_MAX),
                y: ratio_clamped(c4 * 65536 * 65536, det, NORMAL_MAT_MAX),
                z: ratio_clamped(c5 * 65536 * 65536, det, NORMAL_MAT_MAX),
            },
            Vec3Fx {
                x: ratio_clamped(c6 * 65536 * 65536, det, NORMAL_MAT_MAX),
                y: ratio_clamped(c7 * 65536 * 65536, det, NORMAL_MAT_MAX),
                z: ratio_clamped(c8 * 65536 * 65536, det, NORMAL_MAT_MAX),
            },
        )
    }
}

/// A normal-matrix row applied to a 3-vector.
pub open spec fn spec_dot3(r: Vec3Fx, x: int, y: int, z: int) -> int {
    (r.x * x + r.y * y + r.z * z) / (FX_ONE as int)
}

/// The magnitude of a row-vector product, from the magnitudes of the
/// vector's components.
proof fn lemma_dot4_mag(r: Vec4Fx, x: int, y: int, z: int, w: int, bb: int)
    requires
        row_wf(r),
        0 <= bb,
        -bb <= x <= bb,
        -bb <= y <= bb,
        -bb <= z <= bb,
        -bb <= w <= bb,
    ensures
        spec_dot4(r, x, y, z, w) <= 4 * ((MAT_MAX as int) * bb) / 65536,
        spec_dot4(r, x, y, z, w) >= -(4 * ((MAT_MAX as int) * bb) / 65536) - 1,
{
    let mm = MAT_MAX as int;
    let k = mm * bb;
    lemma_prod_bound(r.x as int, x, mm, bb);
    lemma_prod_bound(r.y as int, y, mm, bb);
    lemma_prod_bound(r.z as int, z, mm, bb);
    lemma_prod_bound(r.w as int, w, mm, bb);
    let s = (r.x as int) * x + (r.y as int) * y + (r.z as int) * z + (r.w as int) * w;
    lemma_div_is_ordered(s, 4 * k, 65536);
    lemma_div_is_ordered(-(4 * k), s, 65536);
    crate::fixed::lemma_neg_div_floor(4 * k, 65536);
}

/// Row times 3-vector, exact.
fn dot3(r: &Vec3Fx, x: i64, y: i64, z: i64) -> (d: i64)
    requires
        normal_row_wf(*r),
        -POS_MAX <= x <= POS_MAX,
        -POS_MAX <= y <= POS_MAX,
        -POS_MAX <= z <= POS_MAX,
    ensures
        d == spec_dot3(*r, x as int, y as int, z as int),
        -0x3000_0000 <= d <= 0x3000_0000,
{
    proof {
        lemma_prod_bound(r.x as int, x as int, NORMAL_MAT_MAX as int, POS_MAX as int);
        lemma_prod_bound(r.y as int, y as int, NORMAL_MAT_MAX as int, POS_MAX as int);
        lemma_prod_bound(r.z as int, z as int, NORMAL_MAT_MAX as int, POS_MAX as int);
    }
    let s: i128 = (r.x as i128) * (x as i128) + (r.y as i128) * (y as i128)
        + (r.z as i128) * (z as i128);
    proof {
        let hi = 3int * 0x40_0000 * 0x40_0000;
        lemma_div_is_ordered(s as int, hi, 65536);
        lemma_div_is_ordered(-hi, s as int, 65536);
        lemma_div_of_multiple(3int * 0x40_0000 * 0x40_0000 / 65536, 65536);
        assert(hi == (3int * 0x40_0000 * 0x40_0000 / 65536) * 65536);
    }
    crate::fixed::fx_down(s)
}

} // verus!

// The vertex transform stage and the matrix builders follow.

use crate::trig::{fixed_cos, spec_cos, COS_MAX};

verus! {

/// The viewport matrix of a render target: it maps normalized device
/// coordinates into pixel space, the y axis pointing down the rows, the
/// depth passed through unchanged.
pub fn create_viewport_matrix(width: i64, height: i64) -> (m: Mat4Fx)
    requires
        0 <= width <= 2048,
        0 <= height <= 2048,
    ensures
        m.wf(),
        m == (Mat4Fx {
            r0: Vec4Fx { x: (width * 32768) as i64, y: 0, z: 0, w: (width * 32768) as i64 },
            r1: Vec4Fx {
                x: 0,
                y: (-height * 32768) as i64,
                z: 0,
                w: (height * 32768) as i64,
            },
            r2: Vec4Fx { x: 0, y: 0, z: FX_ONE, w: 0 },
            r3: Vec4Fx { x: 0, y: 0, z: 0, w: FX_ONE },
        }),
{
    let half_w: i64 = width * 32768;
    let half_h: i64 = height * 32768;
    Mat4Fx {
        r0: Vec4Fx { x: half_w, y: 0, z: 0, w: half_w },
        r1: Vec4Fx { x: 0, y: -half_h, z: 0, w: half_h },
        r2: Vec4Fx { x: 0, y: 0, z: FX_ONE, w: 0 },
        r3: Vec4Fx { x: 0, y: 0, z: 0, w: FX_ONE },
    }
}

/// One entry of a matrix product: the row of the first against the
/// column of the second, clamped into the matrix bound.
pub open spec fn spec_mul_entry(r: Vec4Fx, cx: int, cy: int, cz: int, cw: int) -> int {
    spec_clamp(
        ((r.x as int) * cx + (r.y as int) * cy + (r.z as int) * cz + (r.w as int) * cw)
            / (FX_ONE as int),
        -(MAT_MAX as int),
        MAT_MAX as int,
    )
}

/// A matrix product, entry by entry, each entry clamped into the matrix
/// bound.
pub open spec fn spec_mat_mul(a: Mat4Fx, b: Mat4Fx) -> Mat4Fx {
    Mat4Fx {
        r0: Vec4Fx {
            x: spec_mul_entry(a.r0, b.r0.x as int, b.r1.x as int, b.r2.x as int, b.r3.x as int) as i64,
            y: spec_mul_entry(a.r0, b.r0.y as int, b.r1.y as int, b.r2.y as int, b.r3.y as int) as i64,
            z: spec_mul_entry(a.r0, b.r0.z as int, b.r1.z as int, b.r2.z as int, b.r3.z as int) as i64,
            w: spec_mul_entry(a.r0, b.r0.w as int, b.r1.w as int, b.r2.w as int, b.r3.w as int) as i64,
        },
        r1: Vec4Fx {
            x: spec_mul_entry(a.r1, b.r0.x as int, b.r1.x as int, b.r2.x as int, b.r3.x as int) as i64,
            y: spec_mul_entry(a.r1, b.r0.y as int, b.r1.y as int, b.r2.y as int, b.r3.y as int) as i64,
            z: spec_mul_entry(a.r1, b.r0.z as int, b.r1.z as int, b.r2.z as int, b.r3.z as int) as i64,
            w: spec_mul_entry(a.r1, b.r0.w as int, b.r1.w as int, b.r2.w as int, b.r3.w as int) as i64,
        },
        r2: Vec4Fx {
            x: spec_mul_entry(a.r2, b.r0.x as int, b.r1.x as int, b.r2.x as int, b.r3.x as int) as i64,
            y: spec_mul_entry(a.r2, b.r0.y as int, b.r1.y as int, b.r2.y as int, b.r3.y as int) as i64,
            z: spec_mul_entry(a.r2, b.r0.z as int, b.r1.z as int, b.r2.z as int, b.r3.z as int) as i64,
            w: spec_mul_entry(a.r2, b.r0.w as int, b.r1.w as int, b.r2.w as int, b.r3.w as int) as i64,
        },
        r3: Vec4Fx {
            x: spec_mul_entry(a.r3, b.r0.x as int, b.r1.x as int, b.r2.x as int, b.r3.x as int) as i64,
            y: spec_mul_entry(a.r3, b.r0.y as int, b.r1.y as int, b.r2.y as int, b.r3.y as int) as i64,
            z: spec_mul_entry(a.r3, b.r0.z as int, b.r1.z as int, b.r2.z as int, b.r3.z as int) as i64,
            w: spec_mul_entry(a.r3, b.r0.w as int, b.r1.w as int, b.r2.w as int, b.r3.w as int) as i64,
        },
    }
}

/// One row of a matrix product.
fn mul_row(r: &Vec4Fx, b: &Mat4Fx) -> (o: Vec4Fx)
    requires
        row_wf(*r),
        b.wf(),
    ensures
        o.x == spec_mul_entry(*r, b.r0.x as int, b.r1.x as int, b.r2.x as int, b.r3.x as int),
        o.y == spec_mul_entry(*r, b.r0.y as int, b.r1.y as int, b.r2.y as int, b.r3.y as int),
        o.z == spec_mul_entry(*r, b.r0.z as int, b.r1.z as int, b.r2.z as int, b.r3.z as int),
        o.w == spec_mul_entry(*r, b.r0.w as int, b.r1.w as int, b.r2.w as int, b.r3.w as int),
        row_wf(o),
{
    Vec4Fx {
        x: fx_clamp(dot4(r, b.r0.x, b.r1.x, b.r2.x, b.r3.x), -MAT_MAX, MAT_MAX),
        y: fx_clamp(dot4(r, b.r0.y, b.r1.y, b.r2.y, b.r3.y), -MAT_MAX, MAT_MAX),
        z: fx_clamp(dot4(r, b.r0.z, b.r1.z, b.r2.z, b.r3.z), -MAT_MAX, MAT_MAX),
        w: fx_clamp(dot4(r, b.r0.w, b.r1.w, b.r2.w, b.r3.w), -MAT_MAX, MAT_MAX),
    }
}

/// The product of two matrices, each entry clamped into the matrix bound.
pub fn mat4_mul(a: &Mat4Fx, b: &Mat4Fx) -> (m: Mat4Fx)
    requires
        a.wf(),
        b.wf(),
    ensures
        m == spec_mat_mul(*a, *b),
        m.wf(),
{
    Mat4Fx {
        r0: mul_row(&a.r0, b),
        r1: mul_row(&a.r1, b),
        r2: mul_row(&a.r2, b),
        r3: mul_row(&a.r3, b),
    }
}

/// The model matrix of a body: rotations about the three axes composed
/// with a uniform scale and a translation.
pub open spec fn spec_model_matrix(translation: Vec3Fx, scale: i64, rotation: Vec3Fx)
    -> Mat4Fx {
    let sx = spec_sin(rotation.x as int) as i64;
    let cx = spec_cos(rotation.x as int) as i64;
    let sy = spec_sin(rotation.y as int) as i64;
    let cy = spec_cos(rotation.y as int) as i64;
    let sz = spec_sin(rotation.z as int) as i64;
    let cz = spec_cos(rotation.z as int) as i64;
    let rot_x = Mat4Fx {
        r0: Vec4Fx { x: FX_ONE, y: 0, z: 0, w: 0 },
        r1: Vec4Fx { x: 0, y: cx, z: (-(sx as int)) as i64, w: 0 },
        r2: Vec4Fx { x: 0, y: sx, z: cx, w: 0 },
        r3: Vec4Fx { x: 0, y: 0, z: 0, w: FX_ONE },
    };
    let rot_y = Mat4Fx {
        r0: Vec4Fx { x: cy, y: 0, z: sy, w: 0 },
        r1: Vec4Fx { x: 0, y: FX_ONE, z: 0, w: 0 },
        r2: Vec4Fx { x: (-(sy as int)) as i64, y: 0, z: cy, w: 0 },
        r3: Vec4Fx { x: 0, y: 0, z: 0, w: FX_ONE },
    };
    let rot_z = Mat4Fx {
        r0: Vec4Fx { x: cz, y: (-(sz as int)) as i64, z: 0, w: 0 },
        r1: Vec4Fx { x: sz, y: cz, z: 0, w: 0 },
        r2: Vec4Fx { x: 0, y: 0, z: FX_ONE, w: 0 },
        r3: Vec4Fx { x: 0, y: 0, z: 0, w: FX_ONE },
    };
    let transform = Mat4Fx {
        r0: Vec4Fx { x: scale, y: 0, z: 0, w: translation.x },
        r1: Vec4Fx { x: 0, y: scale, z: 0, w: translation.y },
        r2: Vec4Fx { x: 0, y: 0, z: scale, w: translation.z },
        r3: Vec4Fx { x: 0, y: 0, z: 0, w: FX_ONE },
    };
    spec_mat_mul(transform, spec_mat_mul(spec_mat_mul(rot_z, rot_y), rot_x))
}

/// With no rotation, the model matrix is exactly the scale on the
/// diagonal with the translation in the last column: the fixed-point
/// sine and cosine are exact at the axis points.
proof fn lemma_zero_rotation_model(translation: Vec3Fx, scale: i64, rotation: Vec3Fx)
    requires
        translation.wf(),
        -POS_MAX <= scale <= POS_MAX,
        rotation.x == 0,
        rotation.y == 0,
        rotation.z == 0,
    ensures
        spec_model_matrix(translation, scale, rotation) == (Mat4Fx {
            r0: Vec4Fx { x: scale, y: 0, z: 0, w: translation.x },
            r1: Vec4Fx { x: 0, y: scale, z: 0, w: translation.y },
            r2: Vec4Fx { x: 0, y: 0, z: scale, w: translation.z },
            r3: Vec4Fx { x: 0, y: 0, z: 0, w: FX_ONE },
        }),
{
    reveal(crate::trig::spec_sin_half);
    vstd::arithmetic::div_mod::lemma_small_mod(0, crate::trig::FX_TWO_PI as nat);
    vstd::arithmetic::div_mod::lemma_small_mod(crate::trig::FX_HALF_PI as nat,
        crate::trig::FX_TWO_PI as nat);
    assert(spec_sin(0) == 0);
    assert(spec_cos(0) == FX_ONE as int);
    let ident = Mat4Fx {
        r0: Vec4Fx { x: FX_ONE, y: 0, z: 0, w: 0 },
        r1: Vec4Fx { x: 0, y: FX_ONE, z: 0, w: 0 },
        r2: Vec4Fx { x: 0, y: 0, z: FX_ONE, w: 0 },
        r3: Vec4Fx { x: 0, y: 0, z: 0, w: FX_ONE },
    };
    assert(spec_mat_mul(ident, ident) == ident);
    let transform = Mat4Fx {
        r0: Vec4Fx { x: scale, y: 0, z: 0, w: translation.x },
        r1: Vec4Fx { x: 0, y: scale, z: 0, w: translation.y },
        r2: Vec4Fx { x: 0, y: 0, z: scale, w: translation.z },
        r3: Vec4Fx { x: 0, y: 0, z: 0, w: FX_ONE },
    };
    lemma_div_of_multiple(scale as int, 65536);
    lemma_div_of_multiple(translation.x as int, 65536);
    lemma_div_of_multiple(translation.y as int, 65536);
    lemma_div_of_multiple(translation.z as int, 65536);
    lemma_div_of_multiple(0int, 65536);
    lemma_div_of_multiple(1int, 65536);
    assert(spec_mat_mul(transform, ident) == transform);
}

/// Build the model matrix: the axis rotations from the fixed-point sine
/// and cosine, composed in the z, y, x order, then scaled and translated.
pub fn create_model_matrix(translation: Vec3Fx, scale: i64, rotation: Vec3Fx) -> (m: Mat4Fx)
    requires
        translation.wf(),
        -POS_MAX <= scale <= POS_MAX,
        -COS_MAX <= rotation.x <= COS_MAX,
        -COS_MAX <= rotation.y <= COS_MAX,
        -COS_MAX <= rotation.z <= COS_MAX,
    ensures
        m == spec_model_matrix(translation, scale, rotation),
        m.wf(),
        rotation.x == 0 && rotation.y == 0 && rotation.z == 0 ==> m == (Mat4Fx {
            r0: Vec4Fx { x: scale, y: 0, z: 0, w: translation.x },
            r1: Vec4Fx { x: 0, y: scale, z: 0, w: translation.y },
            r2: Vec4Fx { x: 0, y: 0, z: scale, w: translation.z },
            r3: Vec4Fx { x: 0, y: 0, z: 0, w: FX_ONE },
        }),
{
    proof {
        if rotation.x == 0 && rotation.y == 0 && rotation.z == 0 {
            lemma_zero_rotation_model(translation, scale, rotation);
        }
    }
    let sx: i64 = fixed_sin(rotation.x);
    let cx: i64 = fixed_cos(rotation.x);
    let sy: i64 = fixed_sin(rotation.y);
    let cy: i64 = fixed_cos(rotation.y);
    let sz: i64 = fixed_sin(rotation.z);
    let cz: i64 = fixed_cos(rotation.z);
    let rot_x = Mat4Fx {
        r0: Vec4Fx { x: FX_ONE, y: 0, z: 0, w: 0 },
        r1: Vec4Fx { x: 0, y: cx, z: -sx, w: 0 },
        r2: Vec4Fx { x: 0, y: sx, z: cx, w: 0 },
        r3: Vec4Fx { x: 0, y: 0, z: 0, w: FX_ONE },
    };
    let rot_y = Mat4Fx {
        r0: Vec4Fx { x: cy, y: 0, z: sy, w: 0 },
        r1: Vec4Fx { x: 0, y: FX_ONE, z: 0, w: 0 },
        r2: Vec4Fx { x: -sy, y: 0, z: cy, w: 0 },
        r3: Vec4Fx { x: 0, y: 0, z: 0, w: FX_ONE },
    };
    let rot_z = Mat4Fx {
        r0: Vec4Fx { x: cz, y: -sz, z: 0, w: 0 },
        r1: Vec4Fx { x: sz, y: cz, z: 0, w: 0 },
        r2: Vec4Fx { x: 0, y: 0, z: FX_ONE, w: 0 },
        r3: Vec4Fx { x: 0, y: 0, z: 0, w: FX_ONE },
    };
    let transform = Mat4Fx {
        r0: Vec4Fx { x: scale, y: 0, z: 0, w: translation.x },
        r1: Vec4Fx { x: 0, y: scale, z: 0, w: translation.y },
        r2: Vec4Fx { x: 0, y: 0, z: scale, w: translation.z },
        r3: Vec4Fx { x: 0, y: 0, z: 0, w: FX_ONE },
    };
    let rotation_matrix = mat4_mul(&mat4_mul(&rot_z, &rot_y), &rot_x);
    mat4_mul(&transform, &rotation_matrix)
}

/// The time-driven wobble factor: 0.05 sin(0.02 time), in fixed point.
pub open spec fn spec_wobble(time: u32) -> int {
    spec_fx_mul(spec_sin(((time as int) * 65536) / 50), 3277)
}

/// The perturbed model-space position the matrices see: the wobble sways
/// x by the vertex's own y, and y by its z.
pub open spec fn spec_perturbed(v: Vertex, time: u32) -> (int, int, int) {
    let wob = spec_wobble(time);
    (
        v.position.x + spec_fx_mul(wob, v.position.y as int),
        v.position.y + spec_fx_mul(wob, v.position.z as int),
        v.position.z as int,
    )
}

/// The clip-space position: the perturbed position through model, view
/// and projection in turn.
pub open spec fn spec_clip(v: Vertex, u: Uniforms) -> (int, int, int, int) {
    let p = spec_perturbed(v, u.time);
    let m = u.model_matrix;
    let m0 = spec_dot4(m.r0, p.0, p.1, p.2, 65536);
    let m1 = spec_dot4(m.r1, p.0, p.1, p.2, 65536);
    let m2 = spec_dot4(m.r2, p.0, p.1, p.2, 65536);
    let m3 = spec_dot4(m.r3, p.0, p.1, p.2, 65536);
    let w = u.view_matrix;
    let v0 = spec_dot4(w.r0, m0, m1, m2, m3);
    let v1 = spec_dot4(w.r1, m0, m1, m2, m3);
    let v2 = spec_dot4(w.r2, m0, m1, m2, m3);
    let v3 = spec_dot4(w.r3, m0, m1, m2, m3);
    let q = u.projection_matrix;
    (
        spec_dot4(q.r0, v0, v1, v2, v3),
        spec_dot4(q.r1, v0, v1, v2, v3),
        spec_dot4(q.r2, v0, v1, v2, v3),
        spec_dot4(q.r3, v0, v1, v2, v3),
    )
}

/// The normalized device coordinates: the clip position divided by its
/// homogeneous coordinate.
pub open spec fn spec_ndc(v: Vertex, u: Uniforms) -> (int, int, int) {
    let c = spec_clip(v, u);
    (c.0 * 65536 / c.3, c.1 * 65536 / c.3, c.2 * 65536 / c.3)
}

/// The stage accepts a vertex when its homogeneous coordinate is safely
/// positive and its normalized position stays inside the guard band.
pub open spec fn vs_accepts(v: Vertex, u: Uniforms) -> bool {
    let c = spec_clip(v, u);
    let n = spec_ndc(v, u);
    &&& c.3 >= W_EPS
    &&& -(NDC_GUARD as int) <= n.0 <= NDC_GUARD as int
    &&& -(NDC_GUARD as int) <= n.1 <= NDC_GUARD as int
    &&& -(NDC_GUARD as int) <= n.2 <= NDC_GUARD as int
}

/// The screen-space position: the normalized coordinates through the
/// viewport matrix.
pub open spec fn spec_screen(v: Vertex, u: Uniforms) -> (int, int, int) {
    let n = spec_ndc(v, u);
    let m = u.viewport_matrix;
    (
        spec_dot4(m.r0, n.0, n.1, n.2, 65536),
        spec_dot4(m.r1, n.0, n.1, n.2, 65536),
        spec_dot4(m.r2, n.0, n.1, n.2, 65536),
    )
}

/// The shading normal: the model-space normal through the normal
/// transform of the model matrix.
pub open spec fn spec_shading_normal(v: Vertex, u: Uniforms) -> (int, int, int) {
    let rows = spec_normal_rows(u.model_matrix);
    (
        spec_dot3(rows.0, v.normal.x as int, v.normal.y as int, v.normal.z as int),
        spec_dot3(rows.1, v.normal.x as int, v.normal.y as int, v.normal.z as int),
        spec_dot3(rows.2, v.normal.x as int, v.normal.y as int, v.normal.z as int),
    )
}

/// The vertex the stage emits for an accepted input: the original
/// model-space attributes beside the screen-space position and the
/// transformed shading normal.
pub open spec fn spec_vertex_out(v: Vertex, u: Uniforms) -> Vertex {
    let s = spec_screen(v, u);
    let n = spec_shading_normal(v, u);
    Vertex {
        position: v.position,
        normal: v.normal,
        tex_coords: v.tex_coords,
        color: v.color,
        transformed_position: Vec3Fx { x: s.0 as i64, y: s.1 as i64, z: s.2 as i64 },
        transformed_normal: Vec3Fx { x: n.0 as i64, y: n.1 as i64, z: n.2 as i64 },
    }
}

/// Transformed screen positions stay within this magnitude.
pub const SCREEN_MAX: i64 = 0x4000_1000;

/// Transformed shading normals stay within this magnitude.
pub const TN_MAX: i64 = 0x3000_0000;

/// The vertex transform stage: wobble, model-view-projection,
/// perspective division, viewport mapping, and the normal transform. A
/// vertex whose homogeneous coordinate falls under [`W_EPS`], or whose
/// normalized position leaves the [`NDC_GUARD`] band, yields `None`; the
/// contract says exactly which vertices those are. The guard band is a
/// clipping policy: a triangle all of whose vertices lie outside the
/// band is dropped whole, even where its footprint would have crossed
/// the screen. The input vertex is never touched: the stage builds a
/// fresh record around the original attributes.
#[verifier::rlimit(100)]
pub fn vertex_shader(vertex: &Vertex, uniforms: &Uniforms) -> (r: Option<Vertex>)
    requires
        vertex.wf(),
        uniforms.wf(),
    ensures
        (r is Some) == vs_accepts(*vertex, *uniforms),
        (r matches Some(t) ==> t == spec_vertex_out(*vertex, *uniforms)),
        (r matches Some(t) ==> {
            &&& -SCREEN_MAX <= t.transformed_position.x <= SCREEN_MAX
            &&& -SCREEN_MAX <= t.transformed_position.y <= SCREEN_MAX
            &&& -SCREEN_MAX <= t.transformed_position.z <= SCREEN_MAX
            &&& -TN_MAX <= t.transformed_normal.x <= TN_MAX
            &&& -TN_MAX <= t.transformed_normal.y <= TN_MAX
            &&& -TN_MAX <= t.transformed_normal.z <= TN_MAX
            &&& t.position == vertex.position
            &&& t.normal == vertex.normal
            &&& t.wf()
        }),
{
    let t: i64 = uniforms.time as i64;
    let arg: i64 = (((t as u64) * 65536) / 50) as i64;
    let sv: i64 = fixed_sin(arg);
    proof {
        crate::fixed::lemma_fx_mul_mag(sv as int, 3277, 65536, 3277);
    }
    let wob: i64 = fx_mul(sv, 3277);
    proof {
        crate::fixed::lemma_fx_mul_mag(wob as int, vertex.position.y as int, 3278, 0x40_0000);
        crate::fixed::lemma_fx_mul_mag(wob as int, vertex.position.z as int, 3278, 0x40_0000);
    }
    let px: i64 = vertex.position.x + fx_mul(wob, vertex.position.y);
    let py: i64 = vertex.position.y + fx_mul(wob, vertex.position.z);
    let pz: i64 = vertex.position.z;
    proof {
        lemma_dot4_mag(uniforms.model_matrix.r0, px as int, py as int, pz as int, 65536,
            0x80_0000);
        lemma_dot4_mag(uniforms.model_matrix.r1, px as int, py as int, pz as int, 65536,
            0x80_0000);
        lemma_dot4_mag(uniforms.model_matrix.r2, px as int, py as int, pz as int, 65536,
            0x80_0000);
        lemma_dot4_mag(uniforms.model_matrix.r3, px as int, py as int, pz as int, 65536,
            0x80_0000);
    }
    let m0: i64 = dot4(&uniforms.model_matrix.r0, px, py, pz, FX_ONE);
    let m1: i64 = dot4(&uniforms.model_matrix.r1, px, py, pz, FX_ONE);
    let m2: i64 = dot4(&uniforms.model_matrix.r2, px, py, pz, FX_ONE);
    let m3: i64 = dot4(&uniforms.model_matrix.r3, px, py, pz, FX_ONE);
    proof {
        lemma_dot4_mag(uniforms.view_matrix.r0, m0 as int, m1 as int, m2 as int, m3 as int,
            0x10_0000_0000);
        lemma_dot4_mag(uniforms.view_matrix.r1, m0 as int, m1 as int, m2 as int, m3 as int,
            0x10_0000_0000);
        lemma_dot4_mag(uniforms.view_matrix.r2, m0 as int, m1 as int, m2 as int, m3 as int,
            0x10_0000_0000);
        lemma_dot4_mag(uniforms.view_matrix.r3, m0 as int, m1 as int, m2 as int, m3 as int,
            0x10_0000_0000);
    }
    let v0: i64 = dot4(&uniforms.view_matrix.r0, m0, m1, m2, m3);
    let v1: i64 = dot4(&uniforms.view_matrix.r1, m0, m1, m2, m3);
    let v2: i64 = dot4(&uniforms.view_matrix.r2, m0, m1, m2, m3);
    let v3: i64 = dot4(&uniforms.view_matrix.r3, m0, m1, m2, m3);
    let c0: i64 = dot4(&uniforms.projection_matrix.r0, v0, v1, v2, v3);
    let c1: i64 = dot4(&uniforms.projection_matrix.r1, v0, v1, v2, v3);
    let c2: i64 = dot4(&uniforms.projection_matrix.r2, v0, v1, v2, v3);
    let c3: i64 = dot4(&uniforms.projection_matrix.r3, v0, v1, v2, v3);
    if c3 < W_EPS {
        return None;
    }
    let nx: i128 = crate::fixed::wide_fx_div(c0, c3);
    let ny: i128 = crate::fixed::wide_fx_div(c1, c3);
    let nz: i128 = crate::fixed::wide_fx_div(c2, c3);
    let guard: i128 = NDC_GUARD as i128;
    if nx < -guard || nx > guard || ny < -guard || ny > guard || nz < -guard || nz > guard {
        return None;
    }
    let gx: i64 = nx as i64;
    let gy: i64 = ny as i64;
    let gz: i64 = nz as i64;
    proof {
        lemma_dot4_mag(uniforms.viewport_matrix.r0, gx as int, gy as int, gz as int, 65536,
            0x4_0000);
        lemma_dot4_mag(uniforms.viewport_matrix.r1, gx as int, gy as int, gz as int, 65536,
            0x4_0000);
        lemma_dot4_mag(uniforms.viewport_matrix.r2, gx as int, gy as int, gz as int, 65536,
            0x4_0000);
    }
    let sx: i64 = dot4(&uniforms.viewport_matrix.r0, gx, gy, gz, FX_ONE);
    let sy: i64 = dot4(&uniforms.viewport_matrix.r1, gx, gy, gz, FX_ONE);
    let sz: i64 = dot4(&uniforms.viewport_matrix.r2, gx, gy, gz, FX_ONE);
    let rows: (Vec3Fx, Vec3Fx, Vec3Fx) = normal_rows(&uniforms.model_matrix);
    let tnx: i64 = dot3(&rows.0, vertex.normal.x, vertex.normal.y, vertex.normal.z);
    let tny: i64 = dot3(&rows.1, vertex.normal.x, vertex.normal.y, vertex.normal.z);
    let tnz: i64 = dot3(&rows.2, vertex.normal.x, vertex.normal.y, vertex.normal.z);
    Some(Vertex {
        position: vertex.position,
        normal: vertex.normal,
        tex_coords: vertex.tex_coords,
        color: vertex.color,
        transformed_position: Vec3Fx { x: sx, y: sy, z: sz },
        transformed_normal: Vec3Fx { x: tnx, y: tny, z: tnz },
    })
}

} // verus!
