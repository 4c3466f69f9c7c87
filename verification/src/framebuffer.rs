//! The framebuffer: color, depth and emission planes with a depth-tested
//! write.
//!
//! The three planes have the same length and are indexed by `y * width + x`.
//! Depth is a fixed-point scalar; smaller means nearer, and a cleared pixel
//! holds [`DEPTH_FAR`]. The only mutator that touches a pixel is the
//! depth-tested [`Framebuffer::point_with_emission`], whose contract states
//! that the stored depth after a call is exactly the minimum of the stored
//! and the incoming depth, with ties keeping the earlier write.

use vstd::prelude::*;

verus! {

/// The depth a cleared pixel holds; every finite write is nearer.
pub const DEPTH_FAR: i64 = 0x7FFF_FFFF_FFFF_FFFF;

/// Color, depth and emission planes of one image.
pub struct Framebuffer {
    pub width: usize,
    pub height: usize,
    /// Packed 24-bit color per pixel.
    pub buffer: Vec<u32>,
    /// Fixed-point depth per pixel; smaller is nearer.
    pub zbuffer: Vec<i64>,
    /// Packed 24-bit self-glow per pixel; zero means none.
    pub emission_buffer: Vec<u32>,
    /// The color `clear` paints every pixel with.
    pub background_color: u32,
    /// The color the next depth-tested write stores.
    pub current_color: u32,
}

/// The smaller of a stored and an incoming depth; the stored one wins ties.
pub open spec fn min_depth(stored: int, incoming: int) -> int {
    if incoming < stored {
        incoming
    } else {
        stored
    }
}

impl Framebuffer {
    /// The three planes cover exactly `width * height` pixels.
    pub open spec fn wf(&self) -> bool {
        &&& self.buffer@.len() == self.width * self.height
        &&& self.zbuffer@.len() == self.width * self.height
        &&& self.emission_buffer@.len() == self.width * self.height
    }

    /// Every pixel of `fb` holds the cleared defaults, and its configuration
    /// and dimensions agree with `of`.
    pub open spec fn is_cleared(fb: Framebuffer, of: Framebuffer) -> bool {
        &&& fb.wf()
        &&& fb.width == of.width
        &&& fb.height == of.height
        &&& fb.background_color == of.background_color
        &&& fb.current_color == of.current_color
        &&& forall|i: int|
            0 <= i < fb.buffer@.len() ==> fb.buffer@[i] == fb.background_color
        &&& forall|i: int| 0 <= i < fb.zbuffer@.len() ==> fb.zbuffer@[i] == DEPTH_FAR
        &&& forall|i: int|
            0 <= i < fb.emission_buffer@.len() ==> fb.emission_buffer@[i] == 0
    }

    /// A framebuffer of the given size: black pixels, far depth, no
    /// emission, black background, white draw color.
    pub fn new(width: usize, height: usize) -> (fb: Framebuffer)
        requires
            width * height <= usize::MAX,
        ensures
            fb.wf(),
            fb.width == width,
            fb.height == height,
            fb.background_color == 0x000000,
            fb.current_color == 0xFFFFFF,
            forall|i: int| 0 <= i < fb.buffer@.len() ==> fb.buffer@[i] == 0,
            forall|i: int| 0 <= i < fb.zbuffer@.len() ==> fb.zbuffer@[i] == DEPTH_FAR,
            forall|i: int|
                0 <= i < fb.emission_buffer@.len() ==> fb.emission_buffer@[i] == 0,
    {
        let n: usize = width * height;
        Framebuffer {
            width,
            height,
            buffer: filled_u32(n, 0),
            zbuffer: filled_i64(n, DEPTH_FAR),
            emission_buffer: filled_u32(n, 0),
            background_color: 0x000000,
            current_color: 0xFFFFFF,
        }
    }

    /// Reset every pixel to the background color, the far depth and zero
    /// emission. Running it twice leaves the very state one run leaves;
    /// see [`lemma_clear_idempotent`].
    pub fn clear(&mut self)
        requires
            old(self).wf(),
        ensures
            Framebuffer::is_cleared(*final(self), *old(self)),
    {
        let n: usize = self.buffer.len();
        let bg: u32 = self.background_color;
        self.buffer = filled_u32(n, bg);
        let nz: usize = self.zbuffer.len();
        self.zbuffer = filled_i64(nz, DEPTH_FAR);
        let ne: usize = self.emission_buffer.len();
        self.emission_buffer = filled_u32(ne, 0);
    }

    /// Choose the color `clear` paints with.
    pub fn set_background_color(&mut self, color: u32)
        ensures
            *final(self) == (Framebuffer { background_color: color, ..*old(self) }),
    {
        self.background_color = color;
    }

    /// Choose the color the next depth-tested write stores.
    pub fn set_current_color(&mut self, color: u32)
        ensures
            *final(self) == (Framebuffer { current_color: color, ..*old(self) }),
    {
        self.current_color = color;
    }

    /// The depth-tested write. Out-of-range coordinates leave every plane
    /// untouched. In range, the write lands only when the incoming depth is
    /// strictly nearer than the stored one, so the stored depth afterwards
    /// is exactly `min_depth` of the two and never grows; an equal depth
    /// keeps the first writer's pixel.
    pub fn point_with_emission(&mut self, x: usize, y: usize, depth: i64, emission: u32)
        requires
            old(self).wf(),
        ensures
            final(self).wf(),
            final(self).width == old(self).width,
            final(self).height == old(self).height,
            final(self).background_color == old(self).background_color,
            final(self).current_color == old(self).current_color,
            !(x < old(self).width && y < old(self).height) ==> *final(self) == *old(self),
            x < old(self).width && y < old(self).height ==> ({
                let i = y * old(self).width + x;
                &&& final(self).zbuffer@[i as int] as int
                    == min_depth(old(self).zbuffer@[i as int] as int, depth as int)
                &&& old(self).zbuffer@[i as int] > depth ==> {
                    &&& final(self).buffer@[i as int] == old(self).current_color
                    &&& final(self).emission_buffer@[i as int] == emission
                }
                &&& old(self).zbuffer@[i as int] <= depth ==> {
                    &&& final(self).buffer@[i as int] == old(self).buffer@[i as int]
                    &&& final(self).emission_buffer@[i as int]
                        == old(self).emission_buffer@[i as int]
                }
                &&& forall|j: int|
                    0 <= j < old(self).buffer@.len() && j != i ==> {
                        &&& final(self).buffer@[j] == old(self).buffer@[j]
                        &&& final(self).zbuffer@[j] == old(self).zbuffer@[j]
                        &&& final(self).emission_buffer@[j] == old(self).emission_buffer@[j]
                    }
            }),
    {
        if x < self.width && y < self.height {
            let n: usize = self.buffer.len();
            proof {
                let w = self.width as int;
                let h = self.height as int;
                assert((y as int) * w + (x as int) < w * h) by (nonlinear_arith)
                    requires
                        (x as int) < w,
                        (y as int) < h,
                        0 <= x as int,
                        0 <= y as int;
            }
            let index: usize = y * self.width + x;
            if self.zbuffer[index] > depth {
                let c: u32 = self.current_color;
                self.buffer[index] = c;
                self.emission_buffer[index] = emission;
                self.zbuffer[index] = depth;
            }
        }
    }
}

/// Clearing is idempotent: a second clear reproduces, plane by plane and
/// pixel by pixel, the state the first one left.
pub proof fn lemma_clear_idempotent(start: Framebuffer, once: Framebuffer, twice: Framebuffer)
    requires
        Framebuffer::is_cleared(once, start),
        Framebuffer::is_cleared(twice, once),
    ensures
        twice.width == once.width,
        twice.height == once.height,
        twice.background_color == once.background_color,
        twice.current_color == once.current_color,
        twice.buffer@ == once.buffer@,
        twice.zbuffer@ == once.zbuffer@,
        twice.emission_buffer@ == once.emission_buffer@,
{
    assert(twice.buffer@ =~= once.buffer@);
    assert(twice.zbuffer@ =~= once.zbuffer@);
    assert(twice.emission_buffer@ =~= once.emission_buffer@);
}

/// The depth one pixel holds after a sequence of depth-tested writes, each
/// applying [`min_depth`] as the contract of
/// [`Framebuffer::point_with_emission`] states.
pub open spec fn depth_after(d0: int, ds: Seq<int>) -> int
    decreases ds.len(),
{
    if ds.len() == 0 {
        d0
    } else {
        depth_after(min_depth(d0, ds[0]), ds.drop_first())
    }
}

/// Depth-test monotonicity: after any sequence of depth-tested writes to
/// one pixel, the stored depth is the minimum of the starting depth and
/// every depth written — it never grows, and it is one of them.
pub proof fn lemma_depth_after_is_min(d0: int, ds: Seq<int>)
    ensures
        depth_after(d0, ds) <= d0,
        forall|k: int| 0 <= k < ds.len() ==> depth_after(d0, ds) <= ds[k],
        depth_after(d0, ds) == d0 || exists|k: int|
            0 <= k < ds.len() && depth_after(d0, ds) == ds[k],
    decreases ds.len(),
{
    if ds.len() > 0 {
        let d1 = min_depth(d0, ds[0]);
        let tail = ds.drop_first();
        lemma_depth_after_is_min(d1, tail);
        assert(forall|k: int| 0 <= k < tail.len() ==> tail[k] == ds[k + 1]);
        assert forall|k: int| 0 <= k < ds.len() implies depth_after(d0, ds) <= ds[k] by {
            if k == 0 {
                assert(depth_after(d0, ds) <= d1 <= ds[0]);
            } else {
                assert(depth_after(d1, tail) <= tail[k - 1]);
            }
        }
        if depth_after(d1, tail) == d1 {
            if d1 == ds[0] {
                assert(depth_after(d0, ds) == ds[0]);
            }
        } else {
            let k = choose|k: int| 0 <= k < tail.len() && depth_after(d1, tail) == tail[k];
            assert(depth_after(d0, ds) == ds[k + 1]);
        }
    }
}

/// A vector of `n` copies of a 32-bit value.
fn filled_u32(n: usize, v: u32) -> (r: Vec<u32>)
    ensures
        r@.len() == n,
        forall|i: int| 0 <= i < n ==> r@[i] == v,
{
    let mut r: Vec<u32> = Vec::new();
    let mut k: usize = 0;
    while k < n
        invariant
            k <= n,
            r@.len() == k,
            forall|i: int| 0 <= i < k ==> r@[i] == v,
        decreases n - k,
    {
        r.push(v);
        k = k + 1;
    }
    r
}

/// A vector of `n` copies of a 64-bit value.
fn filled_i64(n: usize, v: i64) -> (r: Vec<i64>)
    ensures
        r@.len() == n,
        forall|i: int| 0 <= i < n ==> r@[i] == v,
{
    let mut r: Vec<i64> = Vec::new();
    let mut k: usize = 0;
    while k < n
        invariant
            k <= n,
            r@.len() == k,
            forall|i: int| 0 <= i < k ==> r@[i] == v,
        decreases n - k,
    {
        r.push(v);
        k = k + 1;
    }
    r
}

} // verus!
