//! The triangle rasterizer.
//!
//! A transformed triangle is turned into one fragment per covered pixel.
//! A pixel is covered exactly when all three barycentric weights of its
//! sample point are nonnegative — edge pixels included — and a triangle
//! with zero signed area produces nothing. Each fragment carries the
//! barycentrically interpolated depth, model-space position and
//! Lambertian intensity of its pixel. The contract pins all of it: the
//! fragment list holds exactly the covered pixels inside the framebuffer,
//! each once, each with its exact interpolated record.

use vstd::prelude::*;
use vstd::arithmetic::div_mod::lemma_div_is_ordered;
use crate::fixed::{
    fx_clamp, spec_clamp, floor_div_long, lemma_div_of_multiple, FX_ONE,
};
use crate::geom::{Vertex, Vec3Fx, SCREEN_MAX, TN_MAX};
use crate::trig::{isqrt, spec_isqrt, lemma_isqrt_char};

verus! {

/// One covered pixel with its interpolated attributes.
#[derive(Clone, Copy, PartialEq, Eq, Structural, Debug)]
pub struct Fragment {
    /// Pixel column.
    pub x: usize,
    /// Pixel row.
    pub y: usize,
    /// The model-space position, barycentrically blended.
    pub vertex_position: Vec3Fx,
    /// The Lambertian shading intensity, in [0, 65536].
    pub intensity: i64,
    /// The interpolated depth.
    pub depth: i64,
}

/// A vertex as the rasterizer expects it: the bounds the vertex stage
/// guarantees for every vertex it emits.
pub open spec fn raster_in(v: Vertex) -> bool {
    &&& -SCREEN_MAX <= v.transformed_position.x <= SCREEN_MAX
    &&& -SCREEN_MAX <= v.transformed_position.y <= SCREEN_MAX
    &&& -SCREEN_MAX <= v.transformed_position.z <= SCREEN_MAX
    &&& -TN_MAX <= v.transformed_normal.x <= TN_MAX
    &&& -TN_MAX <= v.transformed_normal.y <= TN_MAX
    &&& -TN_MAX <= v.transformed_normal.z <= TN_MAX
    &&& v.position.wf()
}

/// Twice the signed area of the triangle a, b, p in the screen plane.
pub open spec fn spec_edge(ax: int, ay: int, bx: int, by: int, px: int, py: int) -> int {
    (bx - ax) * (py - ay) - (by - ay) * (px - ax)
}

/// Twice the signed area of the triangle's screen footprint.
pub open spec fn spec_area2(v0: Vertex, v1: Vertex, v2: Vertex) -> int {
    spec_edge(
        v0.transformed_position.x as int,
        v0.transformed_position.y as int,
        v1.transformed_position.x as int,
        v1.transformed_position.y as int,
        v2.transformed_position.x as int,
        v2.transformed_position.y as int,
    )
}

/// The three unnormalized barycentric weights of the sample point of
/// pixel (px, py), one per edge.
pub open spec fn spec_weights(v0: Vertex, v1: Vertex, v2: Vertex, px: int, py: int) -> (
    int,
    int,
    int,
) {
    let sx = px * (FX_ONE as int);
    let sy = py * (FX_ONE as int);
    (
        spec_edge(
            v1.transformed_position.x as int,
            v1.transformed_position.y as int,
            v2.transformed_position.x as int,
            v2.transformed_position.y as int,
            sx,
            sy,
        ),
        spec_edge(
            v2.transformed_position.x as int,
            v2.transformed_position.y as int,
            v0.transformed_position.x as int,
            v0.transformed_position.y as int,
            sx,
            sy,
        ),
        spec_edge(
            v0.transformed_position.x as int,
            v0.transformed_position.y as int,
            v1.transformed_position.x as int,
            v1.transformed_position.y as int,
            sx,
            sy,
        ),
    )
}

/// The orientation sign of the triangle: weights are compared against
/// zero after this sign is applied, so edge pixels are included for
/// either winding.
pub open spec fn spec_sgn(v0: Vertex, v1: Vertex, v2: Vertex) -> int {
    if spec_area2(v0, v1, v2) < 0 {
        -1
    } else {
        1
    }
}

/// A pixel is covered when the triangle is not degenerate and all three
/// sign-adjusted barycentric weights are nonnegative.
pub open spec fn covered(v0: Vertex, v1: Vertex, v2: Vertex, px: int, py: int) -> bool {
    let w = spec_weights(v0, v1, v2, px, py);
    let s = spec_sgn(v0, v1, v2);
    &&& spec_area2(v0, v1, v2) != 0
    &&& s * w.0 >= 0
    &&& s * w.1 >= 0
    &&& s * w.2 >= 0
}

/// One interpolated attribute: the weighted blend of the three vertex
/// values over the absolute area.
pub open spec fn spec_blend(w0: int, w1: int, w2: int, area: int, a0: int, a1: int, a2: int)
    -> int {
    (w0 * a0 + w1 * a1 + w2 * a2) / area
}

/// The exact fragment of a covered pixel.
pub open spec fn spec_fragment_at(v0: Vertex, v1: Vertex, v2: Vertex, px: int, py: int)
    -> Fragment {
    let w = spec_weights(v0, v1, v2, px, py);
    let s = spec_sgn(v0, v1, v2);
    let w0 = s * w.0;
    let w1 = s * w.1;
    let w2 = s * w.2;
    let area = s * spec_area2(v0, v1, v2);
    let depth = spec_blend(w0, w1, w2, area, v0.transformed_position.z as int,
        v1.transformed_position.z as int, v2.transformed_position.z as int);
    let vpx = spec_blend(w0, w1, w2, area, v0.position.x as int, v1.position.x as int,
        v2.position.x as int);
    let vpy = spec_blend(w0, w1, w2, area, v0.position.y as int, v1.position.y as int,
        v2.position.y as int);
    let vpz = spec_blend(w0, w1, w2, area, v0.position.z as int, v1.position.z as int,
        v2.position.z as int);
    let nx = spec_blend(w0, w1, w2, area, v0.transformed_normal.x as int,
        v1.transformed_normal.x as int, v2.transformed_normal.x as int);
    let ny = spec_blend(w0, w1, w2, area, v0.transformed_normal.y as int,
        v1.transformed_normal.y as int, v2.transformed_normal.y as int);
    let nz = spec_blend(w0, w1, w2, area, v0.transformed_normal.z as int,
        v1.transformed_normal.z as int, v2.transformed_normal.z as int);
    let norm2 = nx * nx + ny * ny + nz * nz;
    let intensity = if norm2 == 0 {
        0
    } else {
        spec_clamp(nz * (FX_ONE as int) / spec_isqrt(norm2), 0, FX_ONE as int)
    };
    Fragment {
        x: px as usize,
        y: py as usize,
        vertex_position: Vec3Fx { x: vpx as i64, y: vpy as i64, z: vpz as i64 },
        intensity: intensity as i64,
        depth: depth as i64,
    }
}

/// An edge weight expanded into its monomials.
proof fn lemma_edge_expand(ax: int, ay: int, bx: int, by: int, px: int, py: int)
    ensures
        spec_edge(ax, ay, bx, by, px, py) == bx * py - bx * ay - ax * py - by * px + by * ax
            + ay * px,
{
    assert((bx - ax) * (py - ay) - (by - ay) * (px - ax) == bx * py - bx * ay - ax * py
        - by * px + by * ax + ay * px) by (nonlinear_arith);
}

/// The three edge weights of any sample point sum to twice the signed
/// area, whichever the point.
proof fn lemma_weights_sum(v0: Vertex, v1: Vertex, v2: Vertex, px: int, py: int)
    ensures
        ({
            let w = spec_weights(v0, v1, v2, px, py);
            w.0 + w.1 + w.2 == spec_area2(v0, v1, v2)
        }),
{
    let x0 = v0.transformed_position.x as int;
    let y0 = v0.transformed_position.y as int;
    let x1 = v1.transformed_position.x as int;
    let y1 = v1.transformed_position.y as int;
    let x2 = v2.transformed_position.x as int;
    let y2 = v2.transformed_position.y as int;
    let sx = px * (FX_ONE as int);
    let sy = py * (FX_ONE as int);
    let e0 = spec_edge(x1, y1, x2, y2, sx, sy);
    let e1 = spec_edge(x2, y2, x0, y0, sx, sy);
    let e2 = spec_edge(x0, y0, x1, y1, sx, sy);
    let ea = spec_edge(x0, y0, x1, y1, x2, y2);
    lemma_edge_expand(x1, y1, x2, y2, sx, sy);
    lemma_edge_expand(x2, y2, x0, y0, sx, sy);
    lemma_edge_expand(x0, y0, x1, y1, sx, sy);
    lemma_edge_expand(x0, y0, x1, y1, x2, y2);
    assert(x1 * y2 == y2 * x1 && x2 * y1 == y1 * x2) by (nonlinear_arith);
    assert(e0 + e1 + e2 == ea);
    assert(spec_weights(v0, v1, v2, px, py).0 == e0);
    assert(spec_weights(v0, v1, v2, px, py).1 == e1);
    assert(spec_weights(v0, v1, v2, px, py).2 == e2);
    assert(spec_area2(v0, v1, v2) == ea);
}

/// A weighted blend of bounded attributes stays between the smallest and
/// the largest of them.
proof fn lemma_blend_between(w0: int, w1: int, w2: int, area: int, a0: int, a1: int, a2: int,
    lo: int, hi: int)
    requires
        w0 >= 0,
        w1 >= 0,
        w2 >= 0,
        area > 0,
        w0 + w1 + w2 == area,
        lo <= a0 <= hi,
        lo <= a1 <= hi,
        lo <= a2 <= hi,
    ensures
        lo <= spec_blend(w0, w1, w2, area, a0, a1, a2) <= hi,
{
    assert(area * lo <= w0 * a0 + w1 * a1 + w2 * a2 <= area * hi) by (nonlinear_arith)
        requires
            w0 >= 0, w1 >= 0, w2 >= 0, area == w0 + w1 + w2,
            lo <= a0 <= hi, lo <= a1 <= hi, lo <= a2 <= hi;
    lemma_div_is_ordered(area * lo, w0 * a0 + w1 * a1 + w2 * a2, area);
    lemma_div_is_ordered(w0 * a0 + w1 * a1 + w2 * a2, area * hi, area);
    assert(area * lo == lo * area && area * hi == hi * area) by (nonlinear_arith);
    lemma_div_of_multiple(lo, area);
    lemma_div_of_multiple(hi, area);
}


/// The smallest of three values.
pub open spec fn min3(a: int, b: int, c: int) -> int {
    if a <= b && a <= c { a } else if b <= c { b } else { c }
}

/// The largest of three values.
pub open spec fn max3(a: int, b: int, c: int) -> int {
    if a >= b && a >= c { a } else if b >= c { b } else { c }
}

/// One edge weight, computed wide.
fn edge_i128(ax: i64, ay: i64, bx: i64, by: i64, px: i64, py: i64) -> (e: i128)
    requires
        -0x1_0000_0000 <= ax <= 0x1_0000_0000,
        -0x1_0000_0000 <= ay <= 0x1_0000_0000,
        -0x1_0000_0000 <= bx <= 0x1_0000_0000,
        -0x1_0000_0000 <= by <= 0x1_0000_0000,
        -0x1_0000_0000 <= px <= 0x1_0000_0000,
        -0x1_0000_0000 <= py <= 0x1_0000_0000,
    ensures
        e == spec_edge(ax as int, ay as int, bx as int, by as int, px as int, py as int),
        -0x10_0000_0000_0000_0000 <= e <= 0x10_0000_0000_0000_0000,
{
    let d0: i128 = (bx as i128) - (ax as i128);
    let d1: i128 = (py as i128) - (ay as i128);
    let d2: i128 = (by as i128) - (ay as i128);
    let d3: i128 = (px as i128) - (ax as i128);
    proof {
        lemma_prod128(d0 as int, d1 as int);
        lemma_prod128(d2 as int, d3 as int);
    }
    d0 * d1 - d2 * d3
}

/// A product of two doubly-bounded differences stays within the wide
/// bound.
proof fn lemma_prod128(a: int, b: int)
    requires
        -0x2_0000_0000 <= a <= 0x2_0000_0000,
        -0x2_0000_0000 <= b <= 0x2_0000_0000,
    ensures
        -0x8_0000_0000_0000_0000 <= a * b <= 0x8_0000_0000_0000_0000,
{
    assert(-0x8_0000_0000_0000_0000int <= a * b <= 0x8_0000_0000_0000_0000int)
        by (nonlinear_arith)
        requires -0x2_0000_0000 <= a <= 0x2_0000_0000, -0x2_0000_0000 <= b <= 0x2_0000_0000;
}

/// The square of a transformed-normal component is nonnegative and small.
proof fn lemma_square_bound(a: int)
    requires
        -0x3000_0000 <= a <= 0x3000_0000,
    ensures
        0 <= a * a <= 0x900_0000_0000_0000,
{
    assert(0 <= a * a <= 0x3000_0000int * 0x3000_0000) by (nonlinear_arith)
        requires -0x3000_0000 <= a <= 0x3000_0000;
}

/// One barycentrically blended attribute, between its three sources.
fn blend3(w0: i128, w1: i128, w2: i128, area: i128, a0: i64, a1: i64, a2: i64) -> (d: i64)
    requires
        0 <= w0,
        0 <= w1,
        0 <= w2,
        w0 + w1 + w2 == area,
        0 < area <= 0x40_0000_0000_0000_0000,
        -0x1_0000_0000 <= a0 <= 0x1_0000_0000,
        -0x1_0000_0000 <= a1 <= 0x1_0000_0000,
        -0x1_0000_0000 <= a2 <= 0x1_0000_0000,
    ensures
        d == spec_blend(w0 as int, w1 as int, w2 as int, area as int, a0 as int, a1 as int,
            a2 as int),
        min3(a0 as int, a1 as int, a2 as int) <= d <= max3(a0 as int, a1 as int, a2 as int),
{
    proof {
        lemma_wide_prod(w0 as int, a0 as int);
        lemma_wide_prod(w1 as int, a1 as int);
        lemma_wide_prod(w2 as int, a2 as int);
    }
    let s: i128 = w0 * (a0 as i128) + w1 * (a1 as i128) + w2 * (a2 as i128);
    let q: i128 = crate::fixed::floor_div_i128(s, area);
    proof {
        lemma_blend_between(w0 as int, w1 as int, w2 as int, area as int, a0 as int,
            a1 as int, a2 as int, min3(a0 as int, a1 as int, a2 as int),
            max3(a0 as int, a1 as int, a2 as int));
    }
    q as i64
}

/// A weight-attribute product stays within the wide bound.
proof fn lemma_wide_prod(w: int, a: int)
    requires
        0 <= w <= 0x40_0000_0000_0000_0000,
        -0x1_0000_0000 <= a <= 0x1_0000_0000,
    ensures
        -0x40_0000_0000_0000_0000_0000_0000 <= w * a <= 0x40_0000_0000_0000_0000_0000_0000,
{
    assert(-0x40_0000_0000_0000_0000_0000_0000int <= w * a
        <= 0x40_0000_0000_0000_0000_0000_0000int) by (nonlinear_arith)
        requires 0 <= w <= 0x40_0000_0000_0000_0000, -0x1_0000_0000 <= a <= 0x1_0000_0000;
}

/// The exact fragment of one covered pixel.
fn fragment_at(v0: &Vertex, v1: &Vertex, v2: &Vertex, px: usize, py: usize) -> (f: Fragment)
    requires
        raster_in(*v0),
        raster_in(*v1),
        raster_in(*v2),
        px <= 0x8000,
        py <= 0x8000,
        covered(*v0, *v1, *v2, px as int, py as int),
    ensures
        f == spec_fragment_at(*v0, *v1, *v2, px as int, py as int),
        f.x == px,
        f.y == py,
        f.vertex_position.wf(),
        0 <= f.intensity <= FX_ONE,
        -SCREEN_MAX <= f.depth <= SCREEN_MAX,
{
    let sx: i64 = (px as i64) * 65536;
    let sy: i64 = (py as i64) * 65536;
    let p0 = &v0.transformed_position;
    let p1 = &v1.transformed_position;
    let p2 = &v2.transformed_position;
    let e0: i128 = edge_i128(p1.x, p1.y, p2.x, p2.y, sx, sy);
    let e1: i128 = edge_i128(p2.x, p2.y, p0.x, p0.y, sx, sy);
    let e2: i128 = edge_i128(p0.x, p0.y, p1.x, p1.y, sx, sy);
    let ea: i128 = edge_i128(p0.x, p0.y, p1.x, p1.y, p2.x, p2.y);
    proof {
        lemma_weights_sum(*v0, *v1, *v2, px as int, py as int);
        if ea < 0 {
            assert((-1int) * (e0 as int) == -(e0 as int) && (-1int) * (e1 as int)
                == -(e1 as int) && (-1int) * (e2 as int) == -(e2 as int)
                && (-1int) * (ea as int) == -(ea as int)) by (nonlinear_arith);
        } else {
            assert((1int) * (e0 as int) == e0 as int && (1int) * (e1 as int) == e1 as int
                && (1int) * (e2 as int) == e2 as int && (1int) * (ea as int) == ea as int)
                by (nonlinear_arith);
        }
    }
    let (w0, w1, w2, area): (i128, i128, i128, i128) = if ea < 0 {
        (-e0, -e1, -e2, -ea)
    } else {
        (e0, e1, e2, ea)
    };
    let depth: i64 = blend3(w0, w1, w2, area, p0.z, p1.z, p2.z);
    let vpx: i64 = blend3(w0, w1, w2, area, v0.position.x, v1.position.x, v2.position.x);
    let vpy: i64 = blend3(w0, w1, w2, area, v0.position.y, v1.position.y, v2.position.y);
    let vpz: i64 = blend3(w0, w1, w2, area, v0.position.z, v1.position.z, v2.position.z);
    let nx: i64 = blend3(w0, w1, w2, area, v0.transformed_normal.x, v1.transformed_normal.x,
        v2.transformed_normal.x);
    let ny: i64 = blend3(w0, w1, w2, area, v0.transformed_normal.y, v1.transformed_normal.y,
        v2.transformed_normal.y);
    let nz: i64 = blend3(w0, w1, w2, area, v0.transformed_normal.z, v1.transformed_normal.z,
        v2.transformed_normal.z);
    proof {
        lemma_square_bound(nx as int);
        lemma_square_bound(ny as int);
        lemma_square_bound(nz as int);
    }
    let norm2: i128 = (nx as i128) * (nx as i128) + (ny as i128) * (ny as i128)
        + (nz as i128) * (nz as i128);
    let intensity: i64 = if norm2 == 0 {
        0
    } else {
        let nlen: u64 = isqrt(norm2 as u64);
        proof {
            lemma_isqrt_char(norm2 as int);
            crate::fixed::lemma_div_is_ordered_by_one(norm2 as int, 1);
            assert(spec_isqrt(norm2 as int) * spec_isqrt(norm2 as int) <= norm2 as int);
            assert(0 < spec_isqrt(norm2 as int)) by (nonlinear_arith)
                requires
                    0 < norm2 as int,
                    (norm2 as int) < (spec_isqrt(norm2 as int) + 1) * (spec_isqrt(
                        norm2 as int,
                    ) + 1),
                    0 <= spec_isqrt(norm2 as int);
            assert(spec_isqrt(norm2 as int) <= norm2 as int) by (nonlinear_arith)
                requires
                    spec_isqrt(norm2 as int) * spec_isqrt(norm2 as int) <= norm2 as int,
                    1 <= spec_isqrt(norm2 as int);
        }
        let scaled: i64 = nz * 65536;
        let q: i64 = floor_div_long(scaled, nlen as i64);
        fx_clamp(q, 0, FX_ONE)
    };
    Fragment {
        x: px,
        y: py,
        vertex_position: Vec3Fx { x: vpx, y: vpy, z: vpz },
        intensity,
        depth,
    }
}

/// Rasterize one triangle against a target of the given size. The
/// fragments are exactly the covered pixels of the target, in row-major
/// order, each carrying its exact interpolated record; a degenerate
/// triangle yields none.
pub fn triangle(v0: &Vertex, v1: &Vertex, v2: &Vertex, width: usize, height: usize) -> (r:
    Vec<Fragment>)
    requires
        raster_in(*v0),
        raster_in(*v1),
        raster_in(*v2),
        width <= 0x8000,
        height <= 0x8000,
    ensures
        forall|k: int|
            0 <= k < r@.len() ==> ({
                let f = #[trigger] r@[k];
                &&& f.x < width
                &&& f.y < height
                &&& covered(*v0, *v1, *v2, f.x as int, f.y as int)
                &&& f == spec_fragment_at(*v0, *v1, *v2, f.x as int, f.y as int)
                &&& f.vertex_position.wf()
                &&& 0 <= f.intensity <= FX_ONE
                &&& -SCREEN_MAX <= f.depth <= SCREEN_MAX
            }),
        forall|px: int, py: int|
            0 <= px < width && 0 <= py < height && #[trigger] covered(*v0, *v1, *v2, px, py)
                ==> exists|k: int|
                0 <= k < r@.len() && (#[trigger] r@[k]).x == px && r@[k].y == py,
        forall|k1: int, k2: int|
            0 <= k1 < k2 < r@.len() ==> !((#[trigger] r@[k1]).x == (#[trigger] r@[k2]).x
                && r@[k1].y == r@[k2].y),
{
    let mut frags: Vec<Fragment> = Vec::new();
    let mut py: usize = 0;
    while py < height
        invariant
            raster_in(*v0),
            raster_in(*v1),
            raster_in(*v2),
            width <= 0x8000,
            height <= 0x8000,
            py <= height,
            forall|k: int|
                0 <= k < frags@.len() ==> ({
                    let f = #[trigger] frags@[k];
                    &&& f.x < width
                    &&& f.y < height
                    &&& (f.y as int) < py
                    &&& covered(*v0, *v1, *v2, f.x as int, f.y as int)
                    &&& f == spec_fragment_at(*v0, *v1, *v2, f.x as int, f.y as int)
                    &&& f.vertex_position.wf()
                    &&& 0 <= f.intensity <= FX_ONE
                    &&& -SCREEN_MAX <= f.depth <= SCREEN_MAX
                }),
            forall|qx: int, qy: int|
                0 <= qx < width && 0 <= qy < py && #[trigger] covered(*v0, *v1, *v2, qx, qy)
                    ==> exists|k: int|
                    0 <= k < frags@.len() && (#[trigger] frags@[k]).x == qx
                        && frags@[k].y == qy,
            forall|k1: int, k2: int|
                0 <= k1 < k2 < frags@.len() ==> ({
                    let f1 = #[trigger] frags@[k1];
                    let f2 = #[trigger] frags@[k2];
                    (f1.y as int) < f2.y as int || ((f1.y == f2.y) && (f1.x as int)
                        < f2.x as int)
                }),
        decreases height - py,
    {
        let mut px: usize = 0;
        while px < width
            invariant
                raster_in(*v0),
                raster_in(*v1),
                raster_in(*v2),
                width <= 0x8000,
                height <= 0x8000,
                py < height,
                px <= width,
                forall|k: int|
                    0 <= k < frags@.len() ==> ({
                        let f = #[trigger] frags@[k];
                        &&& f.x < width
                        &&& f.y < height
                        &&& ((f.y as int) < py || (f.y as int == py && (f.x as int) < px))
                        &&& covered(*v0, *v1, *v2, f.x as int, f.y as int)
                        &&& f == spec_fragment_at(*v0, *v1, *v2, f.x as int, f.y as int)
                        &&& f.vertex_position.wf()
                        &&& 0 <= f.intensity <= FX_ONE
                        &&& -SCREEN_MAX <= f.depth <= SCREEN_MAX
                    }),
                forall|qx: int, qy: int|
                    0 <= qx < width && 0 <= qy < py && #[trigger] covered(
                        *v0, *v1, *v2, qx, qy,
                    ) ==> exists|k: int|
                        0 <= k < frags@.len() && (#[trigger] frags@[k]).x == qx
                            && frags@[k].y == qy,
                forall|qx: int|
                    0 <= qx < px && #[trigger] covered(*v0, *v1, *v2, qx, py as int)
                        ==> exists|k: int|
                        0 <= k < frags@.len() && (#[trigger] frags@[k]).x == qx
                            && frags@[k].y == py,
                forall|k1: int, k2: int|
                    0 <= k1 < k2 < frags@.len() ==> ({
                        let f1 = #[trigger] frags@[k1];
                        let f2 = #[trigger] frags@[k2];
                        (f1.y as int) < f2.y as int || ((f1.y == f2.y) && (f1.x as int)
                            < f2.x as int)
                    }),
            decreases width - px,
        {
            let sx: i64 = (px as i64) * 65536;
            let sy: i64 = (py as i64) * 65536;
            let p0 = &v0.transformed_position;
            let p1 = &v1.transformed_position;
            let p2 = &v2.transformed_position;
            let e0: i128 = edge_i128(p1.x, p1.y, p2.x, p2.y, sx, sy);
            let e1: i128 = edge_i128(p2.x, p2.y, p0.x, p0.y, sx, sy);
            let e2: i128 = edge_i128(p0.x, p0.y, p1.x, p1.y, sx, sy);
            let ea: i128 = edge_i128(p0.x, p0.y, p1.x, p1.y, p2.x, p2.y);
            let hit: bool = if ea > 0 {
                e0 >= 0 && e1 >= 0 && e2 >= 0
            } else if ea < 0 {
                e0 <= 0 && e1 <= 0 && e2 <= 0
            } else {
                false
            };
            proof {
                if ea < 0 {
                    assert((-1int) * (e0 as int) == -(e0 as int) && (-1int) * (e1 as int)
                        == -(e1 as int) && (-1int) * (e2 as int) == -(e2 as int))
                        by (nonlinear_arith);
                } else {
                    assert((1int) * (e0 as int) == e0 as int && (1int) * (e1 as int)
                        == e1 as int && (1int) * (e2 as int) == e2 as int)
                        by (nonlinear_arith);
                }
                assert(hit == covered(*v0, *v1, *v2, px as int, py as int));
            }
            let ghost pre = frags@;
            if hit {
                let f: Fragment = fragment_at(v0, v1, v2, px, py);
                frags.push(f);
                proof {
                    assert(frags@ == pre.push(f));
                    assert(frags@[pre.len() as int] == f);
                    assert(forall|k: int| 0 <= k < pre.len() ==> frags@[k] == pre[k]);
                }
            }
            proof {
                assert forall|qx: int, qy: int|
                    0 <= qx < width && 0 <= qy < py && #[trigger] covered(
                        *v0, *v1, *v2, qx, qy,
                    ) implies exists|k: int|
                        0 <= k < frags@.len() && (#[trigger] frags@[k]).x == qx
                            && frags@[k].y == qy by {
                    let k0 = choose|k: int|
                        0 <= k < pre.len() && (#[trigger] pre[k]).x == qx && pre[k].y == qy;
                    assert(frags@[k0].x == qx && frags@[k0].y == qy);
                }
                assert forall|qx: int|
                    0 <= qx < px + 1 && #[trigger] covered(*v0, *v1, *v2, qx, py as int)
                        implies exists|k: int|
                        0 <= k < frags@.len() && (#[trigger] frags@[k]).x == qx
                            && frags@[k].y == py by {
                    if qx < px {
                        let k0 = choose|k: int|
                            0 <= k < pre.len() && (#[trigger] pre[k]).x == qx
                                && pre[k].y == py;
                        assert(frags@[k0].x == qx && frags@[k0].y == py);
                    } else {
                        assert(frags@[frags@.len() - 1].x == qx
                            && frags@[frags@.len() - 1].y == py);
                    }
                }
            }
            px = px + 1;
        }
        py = py + 1;
    }
    frags
}

} // verus!
