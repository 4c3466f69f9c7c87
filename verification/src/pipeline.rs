//! Frame assembly: triangles taken three vertices at a time through the
//! vertex stage, rasterized, shaded, depth-tested into the framebuffer,
//! and the emission plane composited into the color plane afterwards.

use vstd::prelude::*;
use crate::color::{Color, spec_pack};
use crate::framebuffer::{Framebuffer, min_depth};
use crate::geom::{Uniforms, Vertex, vertex_shader};
use crate::raster::{Fragment, triangle};
use crate::shaders::{
    sun_shader, earth_shader, mars_shader, jupiter_shader, moon_shader, saturn_shader,
    comet_shader, shader_in, spec_sun_shader, spec_earth_shader, spec_mars_shader,
    spec_jupiter_shader, spec_moon_shader, spec_saturn_shader, spec_comet_shader,
};

verus! {

/// One channel of the glow blend: 80% color, 20% emission, rounded to the
/// nearest value and clamped at the channel maximum.
pub open spec fn spec_blend_channel(c: int, e: int) -> int {
    let v = (8 * c + 2 * e + 5) / 10;
    if v > 255 {
        255
    } else {
        v
    }
}

/// A packed color with its packed emission blended in, channel by channel.
pub open spec fn spec_blend_emission(color: int, emission: int) -> int {
    spec_pack(
        spec_blend_channel((color / 0x10000) % 0x100, (emission / 0x10000) % 0x100),
        spec_blend_channel((color / 0x100) % 0x100, (emission / 0x100) % 0x100),
        spec_blend_channel(color % 0x100, emission % 0x100),
    )
}

/// One channel of the glow blend.
fn blend_channel(c: u32, e: u32) -> (r: u32)
    requires
        c < 0x100,
        e < 0x100,
    ensures
        r == spec_blend_channel(c as int, e as int),
        r < 0x100,
{
    let v: u32 = (8 * c + 2 * e + 5) / 10;
    if v > 255 {
        255
    } else {
        v
    }
}

/// Blend a packed emission value into a packed color: per channel, 80%
/// of the color plus 20% of the emission, rounded, saturating at the
/// channel maximum.
pub fn blend_emission(color: u32, emission: u32) -> (r: u32)
    ensures
        r == spec_blend_emission(color as int, emission as int),
        r < 0x1000000,
{
    let r1: u32 = (color / 0x10000) % 0x100;
    let g1: u32 = (color / 0x100) % 0x100;
    let b1: u32 = color % 0x100;
    let r2: u32 = (emission / 0x10000) % 0x100;
    let g2: u32 = (emission / 0x100) % 0x100;
    let b2: u32 = emission % 0x100;
    let r0: u32 = blend_channel(r1, r2);
    let g0: u32 = blend_channel(g1, g2);
    let b0: u32 = blend_channel(b1, b2);
    r0 * 0x10000 + g0 * 0x100 + b0
}

/// The post-process compositor: one full pass that blends each pixel's
/// stored emission into its color. A pixel with zero emission keeps its
/// color untouched; nothing else in the framebuffer changes.
pub fn post_process(framebuffer: &mut Framebuffer)
    requires
        old(framebuffer).wf(),
    ensures
        final(framebuffer).wf(),
        final(framebuffer).width == old(framebuffer).width,
        final(framebuffer).height == old(framebuffer).height,
        final(framebuffer).background_color == old(framebuffer).background_color,
        final(framebuffer).current_color == old(framebuffer).current_color,
        final(framebuffer).zbuffer@ == old(framebuffer).zbuffer@,
        final(framebuffer).emission_buffer@ == old(framebuffer).emission_buffer@,
        final(framebuffer).buffer@.len() == old(framebuffer).buffer@.len(),
        forall|i: int|
            0 <= i < old(framebuffer).buffer@.len()
                && old(framebuffer).emission_buffer@[i] == 0
                ==> final(framebuffer).buffer@[i] == old(framebuffer).buffer@[i],
        forall|i: int|
            0 <= i < old(framebuffer).buffer@.len()
                && old(framebuffer).emission_buffer@[i] != 0
                ==> final(framebuffer).buffer@[i] == spec_blend_emission(
                old(framebuffer).buffer@[i] as int,
                old(framebuffer).emission_buffer@[i] as int,
            ),
{
    let n: usize = framebuffer.buffer.len();
    let mut i: usize = 0;
    while i < n
        invariant
            framebuffer.wf(),
            n == framebuffer.buffer@.len(),
            i <= n,
            framebuffer.width == old(framebuffer).width,
            framebuffer.height == old(framebuffer).height,
            framebuffer.background_color == old(framebuffer).background_color,
            framebuffer.current_color == old(framebuffer).current_color,
            framebuffer.zbuffer@ == old(framebuffer).zbuffer@,
            framebuffer.emission_buffer@ == old(framebuffer).emission_buffer@,
            framebuffer.buffer@.len() == old(framebuffer).buffer@.len(),
            forall|j: int| i <= j < n ==> framebuffer.buffer@[j] == old(framebuffer).buffer@[j],
            forall|j: int|
                0 <= j < i && old(framebuffer).emission_buffer@[j] == 0
                    ==> framebuffer.buffer@[j] == old(framebuffer).buffer@[j],
            forall|j: int|
                0 <= j < i && old(framebuffer).emission_buffer@[j] != 0
                    ==> framebuffer.buffer@[j] == spec_blend_emission(
                    old(framebuffer).buffer@[j] as int,
                    old(framebuffer).emission_buffer@[j] as int,
                ),
        decreases n - i,
    {
        let e: u32 = framebuffer.emission_buffer[i];
        if e != 0 {
            let c: u32 = framebuffer.buffer[i];
            let b: u32 = blend_emission(c, e);
            framebuffer.buffer[i] = b;
        }
        i = i + 1;
    }
}

/// The color and emission one fragment gets from the selected body: the
/// sun's color doubles as its emission, every other body emits nothing,
/// and an index past the last body paints black.
#[verifier::opaque]
pub open spec fn spec_shade(index: int, f: Fragment, u: Uniforms) -> (Color, int) {
    if index == 0 {
        let c = spec_sun_shader(u);
        (c, spec_pack(c.r as int, c.g as int, c.b as int))
    } else if index == 1 {
        (spec_earth_shader(f, u), 0)
    } else if index == 2 {
        (spec_mars_shader(f, u), 0)
    } else if index == 3 {
        (spec_jupiter_shader(f, u), 0)
    } else if index == 4 {
        (spec_moon_shader(f, u), 0)
    } else if index == 5 {
        (spec_saturn_shader(f, u), 0)
    } else if index == 6 {
        (spec_comet_shader(f, u), 0)
    } else {
        (Color { r: 0, g: 0, b: 0 }, 0)
    }
}

/// Shade one fragment with the body selected by index.
fn shade(index: usize, f: &Fragment, u: &Uniforms) -> (r: (Color, u32))
    requires
        shader_in(*f),
    ensures
        r.0 == spec_shade(index as int, *f, *u).0,
        r.1 == spec_shade(index as int, *f, *u).1,
{
    proof {
        reveal(spec_shade);
    }
    if index == 0 {
        let c: Color = sun_shader(u);
        (c, c.to_hex())
    } else if index == 1 {
        (earth_shader(f, u), 0)
    } else if index == 2 {
        (mars_shader(f, u), 0)
    } else if index == 3 {
        (jupiter_shader(f, u), 0)
    } else if index == 4 {
        (moon_shader(f, u), 0)
    } else if index == 5 {
        (saturn_shader(f, u), 0)
    } else if index == 6 {
        (comet_shader(f, u), 0)
    } else {
        (Color::black(), 0)
    }
}

/// One depth-tested write as a pixel sees it: the incoming depth, packed
/// color and packed emission land exactly when the depth is strictly
/// nearer than the stored one.
pub open spec fn spec_pixel_write(s: (int, int, int), w: (int, int, int)) -> (int, int, int) {
    if w.0 < s.0 {
        w
    } else {
        s
    }
}

/// A pixel's depth, color and emission after a sequence of depth-tested
/// writes, applied in order.
pub open spec fn spec_pixel_after(s: (int, int, int), ws: Seq<(int, int, int)>) -> (
    int,
    int,
    int,
)
    decreases ws.len(),
{
    if ws.len() == 0 {
        s
    } else {
        spec_pixel_after(spec_pixel_write(s, ws[0]), ws.drop_first())
    }
}

/// Prepending one write folds as one step.
proof fn lemma_pixel_after_cons(s: (int, int, int), w: (int, int, int), rest: Seq<(
    int,
    int,
    int,
)>)
    ensures
        spec_pixel_after(s, seq![w] + rest) == spec_pixel_after(spec_pixel_write(s, w), rest),
{
    let ws = seq![w] + rest;
    assert(ws[0] == w);
    assert(ws.drop_first() =~= rest);
}

/// The vertex stage accepts all three vertices of triple `t`.
pub open spec fn spec_triple_accepted(u: Uniforms, vs: Seq<Vertex>, t: int) -> bool {
    &&& crate::geom::vs_accepts(vs[3 * t], u)
    &&& crate::geom::vs_accepts(vs[3 * t + 1], u)
    &&& crate::geom::vs_accepts(vs[3 * t + 2], u)
}

/// The write one transformed triangle makes at one pixel: the
/// interpolated depth, the packed color of the selected body's shader for
/// that fragment, and its packed emission.
pub open spec fn spec_triangle_write(
    index: int,
    w0: Vertex,
    w1: Vertex,
    w2: Vertex,
    u: Uniforms,
    px: int,
    py: int,
) -> (int, int, int) {
    let f = crate::raster::spec_fragment_at(w0, w1, w2, px, py);
    let sh = spec_shade(index, f, u);
    (f.depth as int, spec_pack(sh.0.r as int, sh.0.g as int, sh.0.b as int), sh.1)
}

/// The sequence of depth-tested writes pixel (px, py) sees from vertex
/// triple `t` to the end of the stream: one write for each accepted
/// triple whose transformed triangle covers the pixel, in stream order.
pub open spec fn spec_writes_from(
    index: int,
    u: Uniforms,
    vs: Seq<Vertex>,
    px: int,
    py: int,
    t: nat,
) -> Seq<(int, int, int)>
    decreases vs.len() - 3 * t,
{
    if 3 * t + 3 > vs.len() {
        Seq::empty()
    } else {
        let w0 = crate::geom::spec_vertex_out(vs[3 * (t as int)], u);
        let w1 = crate::geom::spec_vertex_out(vs[3 * (t as int) + 1], u);
        let w2 = crate::geom::spec_vertex_out(vs[3 * (t as int) + 2], u);
        let rest = spec_writes_from(index, u, vs, px, py, t + 1);
        if spec_triple_accepted(u, vs, t as int) && crate::raster::covered(w0, w1, w2, px, py) {
            seq![spec_triangle_write(index, w0, w1, w2, u, px, py)] + rest
        } else {
            rest
        }
    }
}

/// One of the first `bound` fragments of the list lands on pixel
/// (px, py).
pub open spec fn spec_frag_written(frags: Seq<Fragment>, bound: int, px: int, py: int) -> bool {
    exists|q: int| 0 <= q < bound && (#[trigger] frags[q]).x == px && frags[q].y == py
}

/// The per-pixel bookkeeping of one triangle's rasterization: a pixel
/// whose fragment stands among the first `bound` of the fragment list
/// already holds the triangle's depth-tested write over the snapshot;
/// every other pixel still holds the snapshot.
pub open spec fn spec_triple_progress(
    z: Seq<i64>,
    b: Seq<u32>,
    e: Seq<u32>,
    zs: Seq<i64>,
    bs: Seq<u32>,
    es: Seq<u32>,
    idx: int,
    ta: Vertex,
    tb: Vertex,
    tc: Vertex,
    u: Uniforms,
    wd: int,
    hd: int,
    frags: Seq<Fragment>,
    bound: int,
) -> bool {
    forall|px: int, py: int|
        #![trigger crate::raster::covered(ta, tb, tc, px, py)]
        0 <= px < wd && 0 <= py < hd ==> ({
            let i = py * wd + px;
            if crate::raster::covered(ta, tb, tc, px, py) && spec_frag_written(frags, bound,
                px, py) {
                (z[i] as int, b[i] as int, e[i] as int) == spec_pixel_write(
                    (zs[i] as int, bs[i] as int, es[i] as int),
                    spec_triangle_write(idx, ta, tb, tc, u, px, py),
                )
            } else {
                z[i] == zs[i] && b[i] == bs[i] && e[i] == es[i]
            }
        })
}

/// Only the sun emits: a shaded fragment of any other body carries zero
/// emission, and for the sun the emission is exactly its packed color —
/// one value shared by every fragment of the frame, since the sun's
/// shader reads no fragment.
pub proof fn lemma_shade_emission(index: int, f: Fragment, u: Uniforms)
    ensures
        index != 0 ==> spec_shade(index, f, u).1 == 0,
        index == 0 ==> ({
            let c = spec_sun_shader(u);
            spec_shade(index, f, u).0 == c && spec_shade(index, f, u).1 == spec_pack(
                c.r as int, c.g as int, c.b as int)
        }),
{
    reveal(spec_shade);
}

/// A stream of fewer than three vertices forms no triangle: no pixel
/// sees any write, so a render of it leaves every plane as it was.
pub proof fn lemma_no_triple_no_writes(
    index: int,
    u: Uniforms,
    vs: Seq<Vertex>,
    px: int,
    py: int,
    s: (int, int, int),
)
    requires
        vs.len() < 3,
    ensures
        spec_writes_from(index, u, vs, px, py, 0) == Seq::<(int, int, int)>::empty(),
        spec_pixel_after(s, spec_writes_from(index, u, vs, px, py, 0)) == s,
{
}

/// One pixel's view of the triangle-progress bookkeeping.
proof fn lemma_progress_instance(
    z: Seq<i64>,
    b: Seq<u32>,
    e: Seq<u32>,
    zs: Seq<i64>,
    bs: Seq<u32>,
    es: Seq<u32>,
    idx: int,
    ta: Vertex,
    tb: Vertex,
    tc: Vertex,
    u: Uniforms,
    wd: int,
    hd: int,
    frags: Seq<Fragment>,
    bound: int,
    px: int,
    py: int,
)
    requires
        spec_triple_progress(z, b, e, zs, bs, es, idx, ta, tb, tc, u, wd, hd, frags, bound),
        0 <= px < wd,
        0 <= py < hd,
    ensures
        ({
            let i = py * wd + px;
            if crate::raster::covered(ta, tb, tc, px, py) && spec_frag_written(frags, bound,
                px, py) {
                (z[i] as int, b[i] as int, e[i] as int) == spec_pixel_write(
                    (zs[i] as int, bs[i] as int, es[i] as int),
                    spec_triangle_write(idx, ta, tb, tc, u, px, py),
                )
            } else {
                z[i] == zs[i] && b[i] == bs[i] && e[i] == es[i]
            }
        }),
{
}

/// An in-range pixel's row-major index lies inside the plane.
proof fn lemma_pixel_index_range(w: int, h: int, px: int, py: int)
    requires
        0 <= px < w,
        0 <= py < h,
    ensures
        0 <= py * w + px < w * h,
{
    assert(0 <= py * w + px < w * h) by (nonlinear_arith)
        requires 0 <= px < w, 0 <= py < h;
}

/// Two distinct in-range pixels never share a row-major index.
proof fn lemma_pixel_index_distinct(w: int, x1: int, y1: int, x2: int, y2: int)
    requires
        0 <= x1 < w,
        0 <= x2 < w,
        0 <= y1,
        0 <= y2,
        !(x1 == x2 && y1 == y2),
    ensures
        y1 * w + x1 != y2 * w + x2,
{
    if y1 == y2 {
        assert(y1 * w == y2 * w);
    } else if y1 < y2 {
        assert((y1 + 1) * w <= y2 * w && (y1 + 1) * w == y1 * w + w) by (nonlinear_arith)
            requires y1 + 1 <= y2, 0 < w;
    } else {
        assert((y2 + 1) * w <= y1 * w && (y2 + 1) * w == y2 * w + w) by (nonlinear_arith)
            requires y2 + 1 <= y1, 0 < w;
    }
}

/// Render one frame's worth of vertices: every full group of three is a
/// triangle (a trailing group of fewer is dropped), each triangle is
/// transformed, rasterized and shaded, and every covered pixel goes
/// through the depth-tested write. The contract pins the whole frame:
/// every pixel ends in exactly the state reached by folding the
/// depth-tested writes of the accepted, covering triangles over its
/// starting state, in stream order — so untouched pixels keep their
/// color, emission and depth, the nearest fragment's color and emission
/// win with the first writer keeping ties, and no stored depth ever
/// grows.
#[verifier::rlimit(100)]
pub fn render(
    framebuffer: &mut Framebuffer,
    uniforms: &Uniforms,
    vertex_array: &Vec<Vertex>,
    shader_index: usize,
)
    requires
        old(framebuffer).wf(),
        old(framebuffer).width <= 0x8000,
        old(framebuffer).height <= 0x8000,
        uniforms.wf(),
        forall|i: int| 0 <= i < vertex_array@.len() ==> (#[trigger] vertex_array@[i]).wf(),
    ensures
        final(framebuffer).wf(),
        final(framebuffer).width == old(framebuffer).width,
        final(framebuffer).height == old(framebuffer).height,
        final(framebuffer).background_color == old(framebuffer).background_color,
        final(framebuffer).buffer@.len() == old(framebuffer).buffer@.len(),
        forall|px: int, py: int|
            #![trigger spec_writes_from(shader_index as int, *uniforms, vertex_array@, px, py, 0)]
            0 <= px < old(framebuffer).width && 0 <= py < old(framebuffer).height ==> ({
                let i = py * (old(framebuffer).width as int) + px;
                let s = spec_pixel_after(
                    (
                        old(framebuffer).zbuffer@[i] as int,
                        old(framebuffer).buffer@[i] as int,
                        old(framebuffer).emission_buffer@[i] as int,
                    ),
                    spec_writes_from(shader_index as int, *uniforms, vertex_array@, px, py, 0),
                );
                &&& final(framebuffer).zbuffer@[i] as int == s.0
                &&& final(framebuffer).buffer@[i] as int == s.1
                &&& final(framebuffer).emission_buffer@[i] as int == s.2
            }),
        forall|j: int|
            0 <= j < old(framebuffer).zbuffer@.len()
                ==> final(framebuffer).zbuffer@[j] <= old(framebuffer).zbuffer@[j],
{
    let ghost vs = vertex_array@;
    let ghost u = *uniforms;
    let ghost idx = shader_index as int;
    let ghost wd = old(framebuffer).width as int;
    let ghost hd = old(framebuffer).height as int;
    let n: usize = vertex_array.len();
    let nt: usize = n / 3;
    proof {
        vstd::arithmetic::div_mod::lemma_fundamental_div_mod(n as int, 3);
    }
    let mut t: usize = 0;
    while t < nt
        invariant
            t <= nt,
            nt == n / 3,
            n == vs.len(),
            vs == vertex_array@,
            u == *uniforms,
            idx == shader_index as int,
            wd == old(framebuffer).width as int,
            hd == old(framebuffer).height as int,
            old(framebuffer).wf(),
            framebuffer.wf(),
            framebuffer.width == old(framebuffer).width,
            framebuffer.height == old(framebuffer).height,
            framebuffer.background_color == old(framebuffer).background_color,
            framebuffer.buffer@.len() == old(framebuffer).buffer@.len(),
            framebuffer.width <= 0x8000,
            framebuffer.height <= 0x8000,
            uniforms.wf(),
            forall|q: int| 0 <= q < vs.len() ==> (#[trigger] vs[q]).wf(),
            forall|px: int, py: int|
                #![trigger spec_writes_from(idx, u, vs, px, py, 0)]
                0 <= px < wd && 0 <= py < hd ==> ({
                    let i = py * wd + px;
                    spec_pixel_after(
                        (
                            framebuffer.zbuffer@[i] as int,
                            framebuffer.buffer@[i] as int,
                            framebuffer.emission_buffer@[i] as int,
                        ),
                        spec_writes_from(idx, u, vs, px, py, t as nat),
                    ) == spec_pixel_after(
                        (
                            old(framebuffer).zbuffer@[i] as int,
                            old(framebuffer).buffer@[i] as int,
                            old(framebuffer).emission_buffer@[i] as int,
                        ),
                        spec_writes_from(idx, u, vs, px, py, 0),
                    )
                }),
            forall|j: int|
                0 <= j < old(framebuffer).zbuffer@.len()
                    ==> framebuffer.zbuffer@[j] <= old(framebuffer).zbuffer@[j],
        decreases nt - t,
    {
        proof {
            vstd::arithmetic::div_mod::lemma_fundamental_div_mod(n as int, 3);
        }
        let a: Option<Vertex> = vertex_shader(&vertex_array[3 * t], uniforms);
        let b: Option<Vertex> = vertex_shader(&vertex_array[3 * t + 1], uniforms);
        let c: Option<Vertex> = vertex_shader(&vertex_array[3 * t + 2], uniforms);
        let ghost zs = framebuffer.zbuffer@;
        let ghost bs = framebuffer.buffer@;
        let ghost es = framebuffer.emission_buffer@;
        if let (Some(ta), Some(tb), Some(tc)) = (a, b, c) {
            let frags: Vec<Fragment> = triangle(&ta, &tb, &tc, framebuffer.width,
                framebuffer.height);
            let m: usize = frags.len();
            let mut k: usize = 0;
            while k < m
                invariant
                    old(framebuffer).wf(),
                    framebuffer.wf(),
                    framebuffer.width == old(framebuffer).width,
                    framebuffer.height == old(framebuffer).height,
                    framebuffer.background_color == old(framebuffer).background_color,
                    framebuffer.buffer@.len() == old(framebuffer).buffer@.len(),
                    wd == old(framebuffer).width as int,
                    hd == old(framebuffer).height as int,
                    u == *uniforms,
                    idx == shader_index as int,
                    uniforms.wf(),
                    framebuffer.width <= 0x8000,
                    framebuffer.height <= 0x8000,
                    k <= m,
                    m == frags@.len(),
                    zs.len() == old(framebuffer).zbuffer@.len(),
                    bs.len() == old(framebuffer).buffer@.len(),
                    es.len() == old(framebuffer).emission_buffer@.len(),
                    framebuffer.buffer@.len() as int == wd * hd,
                    framebuffer.zbuffer@.len() as int == wd * hd,
                    framebuffer.emission_buffer@.len() as int == wd * hd,
                    forall|j: int| 0 <= j < zs.len() ==> zs[j] <= old(framebuffer).zbuffer@[j],
                    forall|q: int|
                        0 <= q < frags@.len() ==> ({
                            let f = #[trigger] frags@[q];
                            &&& shader_in(f)
                            &&& f.x < framebuffer.width
                            &&& f.y < framebuffer.height
                            &&& crate::raster::covered(ta, tb, tc, f.x as int, f.y as int)
                            &&& f == crate::raster::spec_fragment_at(ta, tb, tc, f.x as int,
                                f.y as int)
                        }),
                    forall|px: int, py: int|
                        0 <= px < wd && 0 <= py < hd && #[trigger] crate::raster::covered(
                            ta, tb, tc, px, py,
                        ) ==> exists|q: int|
                            0 <= q < frags@.len() && (#[trigger] frags@[q]).x == px
                                && frags@[q].y == py,
                    forall|k1: int, k2: int|
                        0 <= k1 < k2 < frags@.len() ==> !((#[trigger] frags@[k1]).x
                            == (#[trigger] frags@[k2]).x && frags@[k1].y == frags@[k2].y),
                    spec_triple_progress(
                        framebuffer.zbuffer@, framebuffer.buffer@,
                        framebuffer.emission_buffer@, zs, bs, es, idx, ta, tb, tc, u, wd, hd,
                        frags@, k as int,
                    ),
                    forall|j: int|
                        0 <= j < old(framebuffer).zbuffer@.len()
                            ==> framebuffer.zbuffer@[j] <= old(framebuffer).zbuffer@[j],
                decreases m - k,
            {
                let f: Fragment = frags[k];
                let shaded: (Color, u32) = shade(shader_index, &f, uniforms);
                framebuffer.set_current_color(shaded.0.to_hex());
                let ghost zpre = framebuffer.zbuffer@;
                let ghost bpre = framebuffer.buffer@;
                let ghost epre = framebuffer.emission_buffer@;
                framebuffer.point_with_emission(f.x, f.y, f.depth, shaded.1);
                proof {
                    let ghost kprev = k as int;
                    assert(f == frags@[kprev]);
                    assert(spec_triple_progress(zpre, bpre, epre, zs, bs, es, idx, ta, tb,
                        tc, u, wd, hd, frags@, kprev));
                    let fx = f.x as int;
                    let fy = f.y as int;
                    let i0 = fy * wd + fx;
                    let wexec = framebuffer.width;
                    assert(i0 == (f.y * wexec + f.x) as int) by (nonlinear_arith)
                        requires
                            fx == f.x as int,
                            fy == f.y as int,
                            wd == wexec as int,
                            i0 == fy * wd + fx,
                            f.x < wexec,
                            f.y <= 0x8000,
                            wexec <= 0x8000;
                    assert forall|j: int|
                        0 <= j < zpre.len() implies framebuffer.zbuffer@[j] <= zpre[j] by {
                        if j == i0 {
                            assert(framebuffer.zbuffer@[j] as int == min_depth(
                                zpre[j] as int, f.depth as int));
                        } else {
                            assert(framebuffer.zbuffer@[j] == zpre[j]);
                        }
                    }
                    // The fragment's own pixel was not written before this step.
                    assert(!spec_frag_written(frags@, kprev, f.x as int, f.y as int)) by {
                        if spec_frag_written(frags@, kprev, f.x as int, f.y as int) {
                            let q = choose|q: int|
                                0 <= q < kprev && (#[trigger] frags@[q]).x == f.x
                                    && frags@[q].y == f.y;
                            assert(!(frags@[q].x == frags@[kprev].x
                                && frags@[q].y == frags@[kprev].y));
                        }
                    }
                    let w = spec_triangle_write(idx, ta, tb, tc, u, fx, fy);
                    assert(w.0 == f.depth as int);
                    assert(w.1 == spec_pack(shaded.0.r as int, shaded.0.g as int,
                        shaded.0.b as int));
                    assert(w.2 == shaded.1 as int);
                    assert forall|px: int, py: int|
                        #![trigger crate::raster::covered(ta, tb, tc, px, py)]
                        0 <= px < wd && 0 <= py < hd implies ({
                            let i = py * wd + px;
                            if crate::raster::covered(ta, tb, tc, px, py)
                                && spec_frag_written(frags@, kprev + 1, px, py) {
                                (
                                    framebuffer.zbuffer@[i] as int,
                                    framebuffer.buffer@[i] as int,
                                    framebuffer.emission_buffer@[i] as int,
                                ) == spec_pixel_write(
                                    (zs[i] as int, bs[i] as int, es[i] as int),
                                    spec_triangle_write(idx, ta, tb, tc, u, px, py),
                                )
                            } else {
                                framebuffer.zbuffer@[i] == zs[i]
                                    && framebuffer.buffer@[i] == bs[i]
                                    && framebuffer.emission_buffer@[i] == es[i]
                            }
                        }) by {
                        let i = py * wd + px;
                        lemma_pixel_index_range(wd, hd, px, py);
                        lemma_progress_instance(zpre, bpre, epre, zs, bs, es, idx, ta, tb,
                            tc, u, wd, hd, frags@, kprev, px, py);
                        assert(framebuffer.buffer@.len() as int == wd * hd);
                        if px == fx && py == fy {
                            assert(i == i0);
                            assert(crate::raster::covered(ta, tb, tc, px, py));
                            assert(zpre[i0] == zs[i0] && bpre[i0] == bs[i0]
                                && epre[i0] == es[i0]);
                            assert(framebuffer.zbuffer@[i0] as int == min_depth(
                                zpre[i0] as int, f.depth as int));
                            if zpre[i0] > f.depth {
                                assert(framebuffer.buffer@[i0] as int == w.1
                                    && framebuffer.emission_buffer@[i0] as int == w.2
                                    && framebuffer.zbuffer@[i0] as int == w.0);
                            } else {
                                assert(framebuffer.zbuffer@[i0] == zpre[i0]
                                    && framebuffer.buffer@[i0] == bpre[i0]
                                    && framebuffer.emission_buffer@[i0] == epre[i0]);
                            }
                            assert(spec_frag_written(frags@, kprev + 1, px, py)) by {
                                assert(frags@[kprev].x == px && frags@[kprev].y == py);
                            }
                            assert(spec_triangle_write(idx, ta, tb, tc, u, px, py) == w);
                            assert((
                                framebuffer.zbuffer@[i] as int,
                                framebuffer.buffer@[i] as int,
                                framebuffer.emission_buffer@[i] as int,
                            ) == spec_pixel_write(
                                (zs[i] as int, bs[i] as int, es[i] as int),
                                spec_triangle_write(idx, ta, tb, tc, u, px, py),
                            ));
                        } else {
                            lemma_pixel_index_distinct(wd, px, py, fx, fy);
                            assert(framebuffer.zbuffer@[i] == zpre[i]
                                && framebuffer.buffer@[i] == bpre[i]
                                && framebuffer.emission_buffer@[i] == epre[i]);
                            assert(spec_frag_written(frags@, kprev + 1, px, py)
                                == spec_frag_written(frags@, kprev, px, py)) by {
                                if spec_frag_written(frags@, kprev + 1, px, py) {
                                    let q = choose|q: int|
                                        0 <= q < kprev + 1 && (#[trigger] frags@[q]).x == px
                                            && frags@[q].y == py;
                                    assert(q < kprev);
                                }
                            }
                            if crate::raster::covered(ta, tb, tc, px, py)
                                && spec_frag_written(frags@, kprev, px, py) {
                                assert((zpre[i] as int, bpre[i] as int, epre[i] as int)
                                    == spec_pixel_write(
                                    (zs[i] as int, bs[i] as int, es[i] as int),
                                    spec_triangle_write(idx, ta, tb, tc, u, px, py),
                                ));
                                assert((
                                    framebuffer.zbuffer@[i] as int,
                                    framebuffer.buffer@[i] as int,
                                    framebuffer.emission_buffer@[i] as int,
                                ) == spec_pixel_write(
                                    (zs[i] as int, bs[i] as int, es[i] as int),
                                    spec_triangle_write(idx, ta, tb, tc, u, px, py),
                                ));
                            } else {
                                assert(zpre[i] == zs[i] && bpre[i] == bs[i]
                                    && epre[i] == es[i]);
                                assert(framebuffer.zbuffer@[i] == zs[i]
                                    && framebuffer.buffer@[i] == bs[i]
                                    && framebuffer.emission_buffer@[i] == es[i]);
                            }
                        }
                    }
                    assert(spec_triple_progress(
                        framebuffer.zbuffer@, framebuffer.buffer@,
                        framebuffer.emission_buffer@, zs, bs, es, idx, ta, tb, tc, u, wd, hd,
                        frags@, kprev + 1,
                    ));
                }
                k = k + 1;
            }
            proof {
                assert forall|px: int, py: int|
                    #![trigger crate::raster::covered(ta, tb, tc, px, py)]
                    0 <= px < wd && 0 <= py < hd implies ({
                        let i = py * wd + px;
                        if crate::raster::covered(ta, tb, tc, px, py) {
                            (
                                framebuffer.zbuffer@[i] as int,
                                framebuffer.buffer@[i] as int,
                                framebuffer.emission_buffer@[i] as int,
                            ) == spec_pixel_write(
                                (zs[i] as int, bs[i] as int, es[i] as int),
                                spec_triangle_write(idx, ta, tb, tc, u, px, py),
                            )
                        } else {
                            framebuffer.zbuffer@[i] == zs[i] && framebuffer.buffer@[i]
                                == bs[i] && framebuffer.emission_buffer@[i] == es[i]
                        }
                    }) by {
                    if crate::raster::covered(ta, tb, tc, px, py) {
                        assert(spec_frag_written(frags@, m as int, px, py)) by {
                            let q = choose|q: int|
                                0 <= q < frags@.len() && (#[trigger] frags@[q]).x == px
                                    && frags@[q].y == py;
                            assert(0 <= q < m as int && frags@[q].x == px
                                && frags@[q].y == py);
                        }
                    }
                }
                lemma_triple_step(framebuffer, old(framebuffer), zs, bs, es, idx, u, vs,
                    t as nat, ta, tb, tc, wd, hd);
            }
        } else {
            proof {
                assert(!spec_triple_accepted(u, vs, t as int));
                assert forall|px: int, py: int|
                    #![trigger spec_writes_from(idx, u, vs, px, py, t as nat)]
                    0 <= px < wd && 0 <= py < hd implies
                    spec_writes_from(idx, u, vs, px, py, t as nat) == spec_writes_from(
                        idx, u, vs, px, py, (t + 1) as nat,
                    ) by {
                    assert(3 * (t as nat) + 3 <= vs.len());
                }
            }
        }
        t = t + 1;
    }
    proof {
        vstd::arithmetic::div_mod::lemma_fundamental_div_mod(n as int, 3);
        assert(3 * (nt as int) + 3 > n as int);
        assert forall|px: int, py: int|
            #![trigger spec_writes_from(idx, u, vs, px, py, nt as nat)]
            0 <= px < wd && 0 <= py < hd implies spec_writes_from(idx, u, vs, px, py, nt as nat)
            =~= Seq::<(int, int, int)>::empty() by {}
    }
}

/// One accepted triangle advances the per-pixel fold by exactly its own
/// write at the pixels it covers, and by nothing elsewhere.
proof fn lemma_triple_step(
    fb: &Framebuffer,
    fb0: &Framebuffer,
    zs: Seq<i64>,
    bs: Seq<u32>,
    es: Seq<u32>,
    idx: int,
    u: Uniforms,
    vs: Seq<Vertex>,
    t: nat,
    ta: Vertex,
    tb: Vertex,
    tc: Vertex,
    wd: int,
    hd: int,
)
    requires
        3 * t + 3 <= vs.len(),
        spec_triple_accepted(u, vs, t as int),
        ta == crate::geom::spec_vertex_out(vs[3 * (t as int)], u),
        tb == crate::geom::spec_vertex_out(vs[3 * (t as int) + 1], u),
        tc == crate::geom::spec_vertex_out(vs[3 * (t as int) + 2], u),
        forall|px: int, py: int|
            #![trigger crate::raster::covered(ta, tb, tc, px, py)]
            0 <= px < wd && 0 <= py < hd ==> ({
                let i = py * wd + px;
                if crate::raster::covered(ta, tb, tc, px, py) {
                    (
                        fb.zbuffer@[i] as int,
                        fb.buffer@[i] as int,
                        fb.emission_buffer@[i] as int,
                    ) == spec_pixel_write(
                        (zs[i] as int, bs[i] as int, es[i] as int),
                        spec_triangle_write(idx, ta, tb, tc, u, px, py),
                    )
                } else {
                    fb.zbuffer@[i] == zs[i] && fb.buffer@[i] == bs[i]
                        && fb.emission_buffer@[i] == es[i]
                }
            }),
    ensures
        forall|px: int, py: int|
            #![trigger spec_writes_from(idx, u, vs, px, py, t)]
            0 <= px < wd && 0 <= py < hd ==> ({
                let i = py * wd + px;
                spec_pixel_after(
                    (fb.zbuffer@[i] as int, fb.buffer@[i] as int, fb.emission_buffer@[i] as int),
                    spec_writes_from(idx, u, vs, px, py, t + 1),
                ) == spec_pixel_after(
                    (zs[i] as int, bs[i] as int, es[i] as int),
                    spec_writes_from(idx, u, vs, px, py, t),
                )
            }),
{
    assert forall|px: int, py: int|
        #![trigger spec_writes_from(idx, u, vs, px, py, t)]
        0 <= px < wd && 0 <= py < hd implies ({
        let i = py * wd + px;
        spec_pixel_after(
            (fb.zbuffer@[i] as int, fb.buffer@[i] as int, fb.emission_buffer@[i] as int),
            spec_writes_from(idx, u, vs, px, py, t + 1),
        ) == spec_pixel_after(
            (zs[i] as int, bs[i] as int, es[i] as int),
            spec_writes_from(idx, u, vs, px, py, t),
        )
    }) by {
        let i = py * wd + px;
        let rest = spec_writes_from(idx, u, vs, px, py, t + 1);
        if crate::raster::covered(ta, tb, tc, px, py) {
            let w = spec_triangle_write(idx, ta, tb, tc, u, px, py);
            assert(spec_writes_from(idx, u, vs, px, py, t) == seq![w] + rest);
            lemma_pixel_after_cons((zs[i] as int, bs[i] as int, es[i] as int), w, rest);
        } else {
            assert(spec_writes_from(idx, u, vs, px, py, t) == rest);
        }
    }
}

} // verus!
