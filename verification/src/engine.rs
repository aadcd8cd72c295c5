//! The software rasteriser: a frame of pixels with a depth buffer, and the
//! scanline fill of triangles into it.
//!
//! The depth buffer stores the inverse depth `w = 1/z` of what each pixel
//! shows, so a larger value is nearer. A textured triangle writes a pixel
//! only where its own `w` is greater than the stored one.

use crate::geometry::UV;
use crate::pixel::Pixel;
use crate::scalar::{ceil_raw, div_raw, mul_raw, trunc_raw, Scalar, ONE_RAW};
use crate::sprite::Sprite;
use crate::util::Vf2d;
use vstd::arithmetic::div_mod::lemma_fundamental_div_mod_converse;
use vstd::prelude::*;

verus! {

/// A frame: the viewport's size, the image that is drawn into, and one
/// depth value for each pixel.
#[derive(Debug)]
pub struct OLCEngine {
    pub pixels_w: u32,
    pub pixels_h: u32,
    pub draw_target: Sprite,
    pub depth_buffer: Vec<Scalar>,
}

/// The three corners of a triangle on the screen with their texture coordinates.
#[derive(Clone, Copy, PartialEq, Eq, Structural, Debug)]
pub struct Corners {
    pub pos1: Vf2d,
    pub pos2: Vf2d,
    pub pos3: Vf2d,
    pub uv1: UV,
    pub uv2: UV,
    pub uv3: UV,
}

/// One scanline's share of a triangle: where it starts and ends, and the
/// texture coordinates at both ends.
#[derive(Clone, Copy, PartialEq, Eq, Structural, Debug)]
pub struct Span {
    pub start_x: Scalar,
    pub end_x: Scalar,
    pub start_uv: UV,
    pub end_uv: UV,
}

/// The position of the pixel `(x, y)` in a buffer of rows of `width` pixels.
pub open spec fn pixel_index(width: int, x: int, y: int) -> int {
    y * width + x
}

/// The `x` at height `y` on the line through `l` and `r`.
pub open spec fn interpolate_spec(l: Vf2d, r: Vf2d, y: Scalar) -> Scalar {
    let m = r.x.sub_spec(l.x).div_spec(r.y.sub_spec(l.y));
    m.mul_spec(y.sub_spec(l.y)).add_spec(l.x)
}

/// The texture coordinates at the share `p` of the way from `l` to `r`.
pub open spec fn interpolate_uv_spec(l: UV, r: UV, p: Scalar) -> UV {
    UV {
        u: r.u.sub_spec(l.u).mul_spec(p).add_spec(l.u),
        v: r.v.sub_spec(l.v).mul_spec(p).add_spec(l.v),
        w: r.w.sub_spec(l.w).mul_spec(p).add_spec(l.w),
    }
}

/// The share of the way from height `from` to height `to` at which `y` lies.
pub open spec fn share_spec(from: Scalar, to: Scalar, y: Scalar) -> Scalar {
    y.sub_spec(from).div_spec(to.sub_spec(from))
}

impl Corners {
    /// The corners with the first two exchanged.
    pub open spec fn swap12(self) -> Corners {
        Corners { pos1: self.pos2, pos2: self.pos1, uv1: self.uv2, uv2: self.uv1, ..self }
    }

    /// The corners with the first and the last exchanged.
    pub open spec fn swap13(self) -> Corners {
        Corners { pos1: self.pos3, pos3: self.pos1, uv1: self.uv3, uv3: self.uv1, ..self }
    }

    /// The corners with the last two exchanged.
    pub open spec fn swap23(self) -> Corners {
        Corners { pos2: self.pos3, pos3: self.pos2, uv2: self.uv3, uv3: self.uv2, ..self }
    }

    /// The corners in ascending order of `y`, by three exchanges.
    pub open spec fn sorted_spec(self) -> Corners {
        let a = if self.pos2.y@ < self.pos1.y@ {
            self.swap12()
        } else {
            self
        };
        let b = if a.pos3.y@ < a.pos1.y@ {
            a.swap13()
        } else {
            a
        };
        if b.pos3.y@ < b.pos2.y@ {
            b.swap23()
        } else {
            b
        }
    }

    /// The corners with every position limited to the viewport.
    pub open spec fn clamped_spec(self, width: u32, height: u32) -> Corners {
        let w = Scalar::whole_spec(width as nat);
        let h = Scalar::whole_spec(height as nat);
        Corners {
            pos1: self.pos1.clamp_spec(w, h),
            pos2: self.pos2.clamp_spec(w, h),
            pos3: self.pos3.clamp_spec(w, h),
            ..self
        }
    }

    /// The corners as the scan uses them: sorted, then limited to the viewport.
    pub open spec fn prepared_spec(self, width: u32, height: u32) -> Corners {
        self.sorted_spec().clamped_spec(width, height)
    }

    /// The corners are in ascending order of `y` and lie in the viewport.
    pub open spec fn is_prepared(self, width: u32, height: u32) -> bool {
        let w = Scalar::whole_spec(width as nat);
        let h = Scalar::whole_spec(height as nat);
        &&& self.pos1.y@ <= self.pos2.y@ <= self.pos3.y@
        &&& 0 <= self.pos1.x@ <= w@ && 0 <= self.pos2.x@ <= w@ && 0 <= self.pos3.x@ <= w@
        &&& 0 <= self.pos1.y@ <= h@ && 0 <= self.pos2.y@ <= h@ && 0 <= self.pos3.y@ <= h@
    }

    /// The first scanline of the triangle.
    pub open spec fn first_row(self) -> int {
        ceil_raw(self.pos1.y@)
    }

    /// The scanline after the last one of the triangle.
    pub open spec fn end_row(self) -> int {
        ceil_raw(self.pos3.y@)
    }

    /// The share of the scanline `y`. Above the middle corner the span runs
    /// between the edges from the first corner; from the middle corner on,
    /// between the edge from the middle to the last corner and the long
    /// edge. The ends are exchanged where the span would run right to left.
    pub open spec fn span_spec(self, y: int) -> Span {
        let ys = Scalar::int_spec(y);
        let top = y < ceil_raw(self.pos2.y@);
        let start_x = if top {
            interpolate_spec(self.pos1, self.pos2, ys)
        } else {
            interpolate_spec(self.pos2, self.pos3, ys)
        };
        let end_x = interpolate_spec(self.pos1, self.pos3, ys);
        let start_uv = if top {
            interpolate_uv_spec(self.uv1, self.uv2, share_spec(self.pos1.y, self.pos2.y, ys))
        } else {
            interpolate_uv_spec(self.uv2, self.uv3, share_spec(self.pos2.y, self.pos3.y, ys))
        };
        let end_uv = interpolate_uv_spec(self.uv1, self.uv3, share_spec(self.pos1.y, self.pos3.y, ys));
        if end_x.sub_spec(start_x)@ < 0 {
            Span { start_x: end_x, end_x: start_x, start_uv: end_uv, end_uv: start_uv }
        } else {
            Span { start_x, end_x, start_uv, end_uv }
        }
    }

    /// Whether the scan of the triangle visits the pixel `(x, y)`.
    pub open spec fn covers(self, x: int, y: int) -> bool {
        let span = self.span_spec(y);
        &&& self.first_row() <= y < self.end_row()
        &&& trunc_raw(span.start_x@) <= x < trunc_raw(span.end_x@)
    }
}

impl Span {
    /// What the triangle shows at the pixel `x` of the span: with the share
    /// `r = 1 - (end_x - x) / (end_x - start_x)`, the inverse depth `w` is
    /// interpolated linearly, and so are `u` and `v`, which are then
    /// divided by that `w`.
    pub open spec fn fragment_spec(self, x: int) -> UV {
        let xs = Scalar::int_spec(x);
        let r = Scalar::one_spec().sub_spec(
            self.end_x.sub_spec(xs).div_spec(self.end_x.sub_spec(self.start_x)),
        );
        let d = self.end_uv.sub_spec(self.start_uv);
        let w = self.start_uv.w.add_spec(d.w.mul_spec(r));
        UV {
            u: self.start_uv.u.add_spec(d.u.mul_spec(r)).div_spec(w),
            v: self.start_uv.v.add_spec(d.v.mul_spec(r)).div_spec(w),
            w,
        }
    }
}

/// The colour of a fragment: the texel at its texture coordinates, or the
/// flat colour where there is no texture.
pub open spec fn shade_spec(spr: Option<&Sprite>, tp: Pixel, f: UV) -> Pixel {
    match spr {
        Some(s) => s.sample_spec(f.u, f.v),
        None => tp,
    }
}

/// What a frame holds: its size, and the colour and the stored inverse
/// depth of every pixel, row after row.
pub struct Frame {
    pub width: nat,
    pub height: nat,
    pub pixels: Seq<Pixel>,
    pub depth: Seq<Scalar>,
}

impl Frame {
    /// Both buffers hold one entry for each pixel.
    pub open spec fn wf(self) -> bool {
        &&& self.pixels.len() == self.width * self.height
        &&& self.depth.len() == self.width * self.height
    }

    /// The colour of the pixel `(x, y)`.
    pub open spec fn pixel_at(self, x: int, y: int) -> Pixel {
        self.pixels[pixel_index(self.width as int, x, y)]
    }

    /// The stored inverse depth of the pixel `(x, y)`.
    pub open spec fn depth_at(self, x: int, y: int) -> Scalar {
        self.depth[pixel_index(self.width as int, x, y)]
    }

    /// Whether a triangle with the prepared corners `c` writes the pixel
    /// `(x, y)`: its scan visits the pixel, and, where depth is tested, its
    /// inverse depth there is greater than the stored one.
    pub open spec fn writes(self, c: Corners, depth_test: bool, x: int, y: int) -> bool {
        &&& c.covers(x, y)
        &&& depth_test ==> c.span_spec(y).fragment_spec(x).w@ > self.depth_at(x, y)@
    }

    /// The colour of the pixel `(x, y)` after the triangle is drawn.
    pub open spec fn pixel_after(
        self,
        c: Corners,
        spr: Option<&Sprite>,
        tp: Pixel,
        depth_test: bool,
        x: int,
        y: int,
    ) -> Pixel {
        if self.writes(c, depth_test, x, y) {
            shade_spec(spr, tp, c.span_spec(y).fragment_spec(x))
        } else {
            self.pixel_at(x, y)
        }
    }

    /// The stored inverse depth of the pixel `(x, y)` after the triangle is drawn.
    pub open spec fn depth_after(self, c: Corners, depth_test: bool, x: int, y: int) -> Scalar {
        if depth_test && self.writes(c, depth_test, x, y) {
            c.span_spec(y).fragment_spec(x).w
        } else {
            self.depth_at(x, y)
        }
    }

    /// The frame with the triangle drawn: each pixel takes the colour and
    /// the depth that the triangle gives it.
    pub open spec fn drawn(
        self,
        c: Corners,
        spr: Option<&Sprite>,
        tp: Pixel,
        depth_test: bool,
    ) -> Frame {
        let w = self.width as int;
        Frame {
            width: self.width,
            height: self.height,
            pixels: Seq::new(
                self.pixels.len(),
                |i: int| self.pixel_after(c, spr, tp, depth_test, i % w, i / w),
            ),
            depth: Seq::new(self.depth.len(), |i: int| self.depth_after(c, depth_test, i % w, i / w)),
        }
    }
}

impl View for OLCEngine {
    type V = Frame;

    open spec fn view(&self) -> Frame {
        Frame {
            width: self.pixels_w as nat,
            height: self.pixels_h as nat,
            pixels: self.draw_target.col_data@,
            depth: self.depth_buffer@,
        }
    }
}

impl OLCEngine {
    /// The image and the depth buffer both have the viewport's size.
    pub open spec fn wf(self) -> bool {
        &&& self.draw_target.wf()
        &&& self.draw_target.width == self.pixels_w
        &&& self.draw_target.height == self.pixels_h
        &&& self.depth_buffer@.len() == self.pixels_w * self.pixels_h
    }

    /// The colour of the pixel `(x, y)`.
    pub open spec fn pixel_at(self, x: int, y: int) -> Pixel {
        self@.pixel_at(x, y)
    }

    /// The stored inverse depth of the pixel `(x, y)`.
    pub open spec fn depth_at(self, x: int, y: int) -> Scalar {
        self@.depth_at(x, y)
    }

    /// This frame and `before` have the same size, and both are well formed.
    pub open spec fn same_frame(self, before: OLCEngine) -> bool {
        &&& self.wf()
        &&& before.wf()
        &&& self.pixels_w == before.pixels_w
        &&& self.pixels_h == before.pixels_h
        &&& self.draw_target.mode_sample == before.draw_target.mode_sample
    }

    /// This frame is `before` with the triangle drawn, pixel by pixel.
    pub open spec fn is_drawn(
        self,
        before: OLCEngine,
        c: Corners,
        spr: Option<&Sprite>,
        tp: Pixel,
        depth_test: bool,
    ) -> bool {
        &&& self.same_frame(before)
        &&& forall|x: int, y: int|
            #![trigger self.pixel_at(x, y)]
            #![trigger self.depth_at(x, y)]
            0 <= x < self.pixels_w && 0 <= y < self.pixels_h ==> {
                &&& self.pixel_at(x, y) == before@.pixel_after(c, spr, tp, depth_test, x, y)
                &&& self.depth_at(x, y) == before@.depth_after(c, depth_test, x, y)
            }
    }

    /// A frame that is `before` with the triangle drawn pixel by pixel has
    /// the contents that [`Frame::drawn`] names.
    pub proof fn lemma_is_drawn(
        self,
        before: OLCEngine,
        c: Corners,
        spr: Option<&Sprite>,
        tp: Pixel,
        depth_test: bool,
    )
        requires
            self.is_drawn(before, c, spr, tp, depth_test),
        ensures
            self@ == before@.drawn(c, spr, tp, depth_test),
    {
        let w = self.pixels_w as int;
        let h = self.pixels_h as int;
        let target = before@.drawn(c, spr, tp, depth_test);
        assert forall|i: int| 0 <= i < self@.pixels.len() implies self@.pixels[i]
            == target.pixels[i] by {
            lemma_pixel_index_split(w, h, i);
            assert(self.pixel_at(i % w, i / w) == self@.pixels[i]);
        }
        assert forall|i: int| 0 <= i < self@.depth.len() implies self@.depth[i]
            == target.depth[i] by {
            lemma_pixel_index_split(w, h, i);
            assert(self.depth_at(i % w, i / w) == self@.depth[i]);
        }
        assert(self@.pixels =~= target.pixels);
        assert(self@.depth =~= target.depth);
    }
}

/// Between the heights of `l` and `r`, the interpolated `x` lies between
/// the `x` of `l` and the `x` of `r`.
pub proof fn lemma_interpolate_between(l: Vf2d, r: Vf2d, y: Scalar)
    requires
        0 <= l.x@,
        0 <= r.x@,
        0 <= l.y@,
        l.y@ <= y@ < r.y@,
    ensures
        l.x@ <= r.x@ ==> l.x@ <= interpolate_spec(l, r, y)@ <= r.x@,
        r.x@ <= l.x@ ==> r.x@ <= interpolate_spec(l, r, y)@ <= l.x@,
{
    reveal(Scalar::sub_spec);
    reveal(Scalar::add_spec);
    reveal(Scalar::mul_spec);
    reveal(Scalar::div_spec);
    let one = ONE_RAW as int;
    let dx = r.x@ - l.x@;
    let dy = r.y@ - l.y@;
    let t = y@ - l.y@;
    let m = div_raw(dx, dy);
    let prod = mul_raw(m, t);
    assert(r.x.sub_spec(l.x)@ == dx);
    assert(r.y.sub_spec(l.y)@ == dy);
    assert(y.sub_spec(l.y)@ == t);
    if dx >= 0 {
        let q = (dx * one) / dy;
        assert(0 <= q && q * dy <= dx * one) by (nonlinear_arith)
            requires
                q == (dx * one) / dy,
                dx * one >= 0,
                dy > 0,
        ;
        assert(0 <= m <= q);
        assert(0 <= m * t <= q * dy) by (nonlinear_arith)
            requires
                0 <= m <= q,
                0 <= t <= dy,
        ;
        assert(0 <= (m * t) / one <= dx);
        assert(0 <= prod <= dx);
    } else {
        let n = -dx;
        let q = (n * one) / dy;
        assert(0 <= q && q * dy <= n * one) by (nonlinear_arith)
            requires
                q == (n * one) / dy,
                n * one >= 0,
                dy > 0,
        ;
        assert(-q <= m <= 0);
        assert(0 <= (-m) * t <= q * dy && (-m) * t == -(m * t)) by (nonlinear_arith)
            requires
                0 <= -m <= q,
                0 <= t <= dy,
        ;
        assert(0 <= (-(m * t)) / one <= n);
        assert(dx <= prod <= 0);
    }
}

/// Two different pixels of a frame have different positions in its buffers.
pub proof fn lemma_pixel_index_distinct(width: int, x1: int, y1: int, x2: int, y2: int)
    requires
        0 <= x1 < width,
        0 <= x2 < width,
        x1 != x2 || y1 != y2,
    ensures
        pixel_index(width, x1, y1) != pixel_index(width, x2, y2),
{
    if y1 < y2 {
        assert(y2 * width >= y1 * width + width) by (nonlinear_arith)
            requires
                y1 + 1 <= y2,
                width > 0,
        ;
    } else if y2 < y1 {
        assert(y1 * width >= y2 * width + width) by (nonlinear_arith)
            requires
                y2 + 1 <= y1,
                width > 0,
        ;
    }
}

/// A pixel of the viewport has its position inside the buffers.
pub proof fn lemma_pixel_index_bound(width: int, height: int, x: int, y: int)
    requires
        0 <= x < width,
        0 <= y < height,
    ensures
        0 <= pixel_index(width, x, y) < width * height,
{
    assert(0 <= y * width && y * width + width <= width * height) by (nonlinear_arith)
        requires
            0 <= y,
            y + 1 <= height,
            width > 0,
    ;
}

/// The `x` at height `y` on the line through `l` and `r`.
fn interpolate(l: &Vf2d, r: &Vf2d, y: Scalar) -> (x: Scalar)
    ensures
        x == interpolate_spec(*l, *r, y),
{
    let m = r.x.sub(l.x).div(r.y.sub(l.y));
    m.mul(y.sub(l.y)).add(l.x)
}

/// The texture coordinates at the share `p` of the way from `l` to `r`.
fn interpolate_uv(l: &UV, r: &UV, p: Scalar) -> (uv: UV)
    ensures
        uv == interpolate_uv_spec(*l, *r, p),
{
    UV {
        u: r.u.sub(l.u).mul(p).add(l.u),
        v: r.v.sub(l.v).mul(p).add(l.v),
        w: r.w.sub(l.w).mul(p).add(l.w),
    }
}

impl Corners {
    /// The corners in ascending order of `y`.
    pub fn sorted(&self) -> (c: Corners)
        ensures
            c == self.sorted_spec(),
            c.pos1.y@ <= c.pos2.y@ <= c.pos3.y@,
    {
        let mut c = *self;
        if c.pos2.y.raw < c.pos1.y.raw {
            c = Corners { pos1: c.pos2, pos2: c.pos1, uv1: c.uv2, uv2: c.uv1, pos3: c.pos3, uv3: c.uv3 };
        }
        if c.pos3.y.raw < c.pos1.y.raw {
            c = Corners { pos1: c.pos3, pos3: c.pos1, uv1: c.uv3, uv3: c.uv1, pos2: c.pos2, uv2: c.uv2 };
        }
        if c.pos3.y.raw < c.pos2.y.raw {
            c = Corners { pos2: c.pos3, pos3: c.pos2, uv2: c.uv3, uv3: c.uv2, pos1: c.pos1, uv1: c.uv1 };
        }
        c
    }

    /// The corners as the scan uses them: sorted by `y`, then every
    /// position limited to the viewport.
    pub fn prepared(&self, width: u32, height: u32) -> (c: Corners)
        ensures
            c == self.prepared_spec(width, height),
            c.is_prepared(width, height),
    {
        let s = self.sorted();
        let w = Scalar::from_u32(width);
        let h = Scalar::from_u32(height);
        Corners { pos1: s.pos1.clamp(w, h), pos2: s.pos2.clamp(w, h), pos3: s.pos3.clamp(w, h), ..s }
    }

    /// The share of the scanline `y`.
    pub fn span(&self, y: i32) -> (span: Span)
        ensures
            span == self.span_spec(y as int),
    {
        let ys = Scalar::from_int(y);
        let top = (y as i64) < self.pos2.y.ceil();
        let start_x = if top {
            interpolate(&self.pos1, &self.pos2, ys)
        } else {
            interpolate(&self.pos2, &self.pos3, ys)
        };
        let end_x = interpolate(&self.pos1, &self.pos3, ys);
        let start_uv = if top {
            interpolate_uv(&self.uv1, &self.uv2, ys.sub(self.pos1.y).div(self.pos2.y.sub(self.pos1.y)))
        } else {
            interpolate_uv(&self.uv2, &self.uv3, ys.sub(self.pos2.y).div(self.pos3.y.sub(self.pos2.y)))
        };
        let end_uv = interpolate_uv(
            &self.uv1,
            &self.uv3,
            ys.sub(self.pos1.y).div(self.pos3.y.sub(self.pos1.y)),
        );
        if end_x.sub(start_x).raw < 0 {
            Span { start_x: end_x, end_x: start_x, start_uv: end_uv, end_uv: start_uv }
        } else {
            Span { start_x, end_x, start_uv, end_uv }
        }
    }

    /// Inside the rows of a prepared triangle, both ends of a span lie in
    /// the viewport.
    pub proof fn lemma_span_in_viewport(self, width: u32, height: u32, y: int)
        requires
            self.is_prepared(width, height),
            self.first_row() <= y < self.end_row(),
        ensures
            0 <= y < height,
            0 <= trunc_raw(self.span_spec(y).start_x@) <= width,
            0 <= trunc_raw(self.span_spec(y).end_x@) <= width,
    {
        let ys = Scalar::int_spec(y);
        assert(ys@ == y * ONE_RAW);
        assert(self.pos1.y@ <= ys@ < self.pos3.y@);
        lemma_interpolate_between(self.pos1, self.pos3, ys);
        if y < ceil_raw(self.pos2.y@) {
            assert(ys@ < self.pos2.y@);
            lemma_interpolate_between(self.pos1, self.pos2, ys);
        } else {
            assert(self.pos2.y@ <= ys@);
            lemma_interpolate_between(self.pos2, self.pos3, ys);
        }
    }
}

impl Span {
    /// What the triangle shows at the pixel `x` of the span.
    pub fn fragment(&self, x: i32) -> (f: UV)
        ensures
            f == self.fragment_spec(x as int),
    {
        let xs = Scalar::from_int(x);
        let r = Scalar::one().sub(self.end_x.sub(xs).div(self.end_x.sub(self.start_x)));
        let d = self.end_uv.sub(self.start_uv);
        let w = self.start_uv.w.add(d.w.mul(r));
        UV {
            u: self.start_uv.u.add(d.u.mul(r)).div(w),
            v: self.start_uv.v.add(d.v.mul(r)).div(w),
            w,
        }
    }
}

impl OLCEngine {
    /// A frame of the given size: every pixel transparent black, every
    /// stored inverse depth zero.
    pub fn new(width: u32, height: u32) -> (e: OLCEngine)
        requires
            width * height <= usize::MAX,
        ensures
            e.wf(),
            e.pixels_w == width,
            e.pixels_h == height,
            forall|x: int, y: int|
                #![trigger e.pixel_at(x, y)]
                #![trigger e.depth_at(x, y)]
                0 <= x < width && 0 <= y < height ==> {
                    &&& e.pixel_at(x, y) == Pixel::rgba_spec(0, 0, 0, 0)
                    &&& e.depth_at(x, y) == Scalar::zero_spec()
                },
    {
        let mut e = OLCEngine {
            pixels_w: width,
            pixels_h: height,
            draw_target: Sprite::new(width, height),
            depth_buffer: Vec::new(),
        };
        e.clear_depth_buffer();
        assert forall|x: int, y: int|
            #![trigger e.pixel_at(x, y)]
            #![trigger e.depth_at(x, y)]
            0 <= x < width && 0 <= y < height implies {
            &&& e.pixel_at(x, y) == Pixel::rgba_spec(0, 0, 0, 0)
            &&& e.depth_at(x, y) == Scalar::zero_spec()
        } by {
            lemma_pixel_index_bound(width as int, height as int, x, y);
            let i = pixel_index(width as int, x, y);
            assert(e.draw_target.col_data@[i] == Pixel::rgba_spec(0, 0, 0, 0));
            assert(e.depth_buffer@[i] == Scalar::zero_spec());
        }
        e
    }

    /// Sets the stored inverse depth of every pixel to zero, which is
    /// farther than anything in front of the camera.
    pub fn clear_depth_buffer(&mut self)
        requires
            old(self).pixels_w * old(self).pixels_h <= usize::MAX,
        ensures
            final(self).pixels_w == old(self).pixels_w,
            final(self).pixels_h == old(self).pixels_h,
            final(self).draw_target == old(self).draw_target,
            final(self).depth_buffer@.len() == old(self).pixels_w * old(self).pixels_h,
            forall|i: int|
                0 <= i < final(self).depth_buffer@.len() ==> final(self).depth_buffer@[i]
                    == Scalar::zero_spec(),
    {
        assert(self.pixels_w * self.pixels_h >= 0) by (nonlinear_arith)
            requires
                self.pixels_w >= 0,
                self.pixels_h >= 0,
        ;
        let size: usize = (self.pixels_w as usize) * (self.pixels_h as usize);
        let mut depth: Vec<Scalar> = Vec::new();
        let mut i: usize = 0;
        while i < size
            invariant
                i <= size,
                depth@.len() == i,
                forall|k: int| 0 <= k < i ==> depth@[k] == Scalar::zero_spec(),
            decreases size - i,
        {
            depth.push(Scalar::zero());
            i += 1;
        }
        self.depth_buffer = depth;
    }

    /// Stores the inverse depth `d` at the position `i` of the depth buffer.
    pub fn update_depth_buffer(&mut self, i: usize, d: Scalar)
        requires
            i < old(self).depth_buffer@.len(),
        ensures
            final(self).pixels_w == old(self).pixels_w,
            final(self).pixels_h == old(self).pixels_h,
            final(self).draw_target == old(self).draw_target,
            final(self).depth_buffer@ == old(self).depth_buffer@.update(i as int, d),
    {
        self.depth_buffer[i] = d;
    }

    /// The inverse depth stored at the position `i` of the depth buffer.
    pub fn check_depth_buffer(&self, i: usize) -> (d: Scalar)
        requires
            i < self.depth_buffer@.len(),
        ensures
            d == self.depth_buffer@[i as int],
    {
        self.depth_buffer[i]
    }

    /// Sets the pixel `(x, y)` to `p`; outside the viewport nothing is drawn.
    pub fn draw(&mut self, x: i32, y: i32, p: Pixel)
        requires
            old(self).wf(),
        ensures
            final(self).same_frame(*old(self)),
            final(self).depth_buffer@ == old(self).depth_buffer@,
            0 <= x < old(self).pixels_w && 0 <= y < old(self).pixels_h
                ==> final(self).draw_target.col_data@ == old(self).draw_target.col_data@.update(
                pixel_index(old(self).pixels_w as int, x as int, y as int),
                p,
            ),
            !(0 <= x < old(self).pixels_w && 0 <= y < old(self).pixels_h)
                ==> final(self).draw_target.col_data@ == old(self).draw_target.col_data@,
    {
        if x >= 0 && y >= 0 {
            self.draw_target.set_pixel(x as u32, y as u32, p);
        }
    }

    /// Sets every pixel of the image to `p`.
    pub fn clear(&mut self, p: Pixel)
        requires
            old(self).wf(),
        ensures
            final(self).same_frame(*old(self)),
            final(self).depth_buffer@ == old(self).depth_buffer@,
            forall|i: int|
                0 <= i < final(self).draw_target.col_data@.len()
                    ==> final(self).draw_target.col_data@[i] == p,
    {
        self.draw_target.clear(p);
    }

    /// Draws the triangle with the prepared corners `c`, scanline by
    /// scanline and pixel by pixel.
    fn raster(&mut self, c: &Corners, spr: Option<&Sprite>, tp: Pixel, depth_test: bool)
        requires
            old(self).wf(),
            c.is_prepared(old(self).pixels_w, old(self).pixels_h),
            spr.is_some() ==> spr.unwrap().wf(),
        ensures
            final(self).is_drawn(*old(self), *c, spr, tp, depth_test),
    {
        let ghost before = *self;
        let ghost w = self.pixels_w as int;
        let ghost h = self.pixels_h as int;
        let y_start: i64 = c.pos1.y.ceil();
        let y_end: i64 = c.pos3.y.ceil();
        let mut y: i64 = y_start;
        while y < y_end
            invariant
                y_start == c.first_row(),
                y_end == c.end_row(),
                y_start <= y,
                w == before.pixels_w,
                h == before.pixels_h,
                c.is_prepared(before.pixels_w, before.pixels_h),
                spr.is_some() ==> spr.unwrap().wf(),
                self.same_frame(before),
                forall|x2: int, y2: int|
                    #![trigger self.pixel_at(x2, y2)]
                    #![trigger self.depth_at(x2, y2)]
                    0 <= x2 < w && 0 <= y2 < h ==> {
                        &&& self.pixel_at(x2, y2) == if y2 < y {
                            before@.pixel_after(*c, spr, tp, depth_test, x2, y2)
                        } else {
                            before.pixel_at(x2, y2)
                        }
                        &&& self.depth_at(x2, y2) == if y2 < y {
                            before@.depth_after(*c, depth_test, x2, y2)
                        } else {
                            before.depth_at(x2, y2)
                        }
                    },
            decreases y_end - y,
        {
            proof {
                c.lemma_span_in_viewport(before.pixels_w, before.pixels_h, y as int);
            }
            let row: i32 = y as i32;
            let span = c.span(row);
            let x_start: i64 = span.start_x.trunc();
            let x_end: i64 = span.end_x.trunc();
            let mut x: i64 = x_start;
            while x < x_end
                invariant
                    y_start == c.first_row(),
                    y_end == c.end_row(),
                    y_start <= y < y_end,
                    0 <= y < h,
                    row == y,
                    w == before.pixels_w,
                    h == before.pixels_h,
                    span == c.span_spec(y as int),
                    x_start == trunc_raw(span.start_x@),
                    x_end == trunc_raw(span.end_x@),
                    0 <= x_start <= x,
                    x_end <= w,
                    spr.is_some() ==> spr.unwrap().wf(),
                    self.same_frame(before),
                    forall|x2: int, y2: int|
                        #![trigger self.pixel_at(x2, y2)]
                        #![trigger self.depth_at(x2, y2)]
                        0 <= x2 < w && 0 <= y2 < h ==> {
                            &&& self.pixel_at(x2, y2) == if y2 < y || (y2 == y && x2
                                < x) {
                                before@.pixel_after(*c, spr, tp, depth_test, x2, y2)
                            } else {
                                before.pixel_at(x2, y2)
                            }
                            &&& self.depth_at(x2, y2) == if y2 < y || (y2 == y && x2 < x) {
                                before@.depth_after(*c, depth_test, x2, y2)
                            } else {
                                before.depth_at(x2, y2)
                            }
                        },
                decreases x_end - x,
            {
                let ghost mid = *self;
                let col: i32 = x as i32;
                let f = span.fragment(col);
                proof {
                    lemma_pixel_index_bound(w, h, x as int, y as int);
                    assert(self.depth_buffer@.len() == self.depth_buffer.len());
                    assert(0 <= y * w) by (nonlinear_arith)
                        requires
                            0 <= y,
                            0 <= w,
                    ;
                }
                let i: usize = (y as usize) * (self.pixels_w as usize) + (x as usize);
                assert(i == pixel_index(w, x as int, y as int));
                assert(mid.depth_at(x as int, y as int) == before.depth_at(x as int, y as int));
                let hit = !depth_test || f.w.raw > self.depth_buffer[i].raw;
                if hit {
                    let p = match spr {
                        Some(sprite) => sprite.sample(f.u, f.v),
                        None => tp,
                    };
                    self.draw_target.set_pixel(col as u32, row as u32, p);
                    if depth_test {
                        self.depth_buffer[i] = f.w;
                    }
                }
                proof {
                    assert(hit == before@.writes(*c, depth_test, x as int, y as int));
                    assert forall|x2: int, y2: int|
                        #![trigger self.pixel_at(x2, y2)]
                        #![trigger self.depth_at(x2, y2)]
                        0 <= x2 < w && 0 <= y2 < h implies {
                        &&& self.pixel_at(x2, y2) == if y2 < y || (y2 == y && x2 < x
                            + 1) {
                            before@.pixel_after(*c, spr, tp, depth_test, x2, y2)
                        } else {
                            before.pixel_at(x2, y2)
                        }
                        &&& self.depth_at(x2, y2) == if y2 < y || (y2 == y && x2 < x + 1) {
                            before@.depth_after(*c, depth_test, x2, y2)
                        } else {
                            before.depth_at(x2, y2)
                        }
                    } by {
                        lemma_pixel_index_bound(w, h, x2, y2);
                        if x2 != x || y2 != y {
                            lemma_pixel_index_distinct(w, x2, y2, x as int, y as int);
                            assert(self.pixel_at(x2, y2) == mid.pixel_at(x2, y2));
                            assert(self.depth_at(x2, y2) == mid.depth_at(x2, y2));
                        }
                    }
                }
                x += 1;
            }
            y += 1;
        }
    }

    /// Fills a triangle with the colour `p`. The corners are sorted by `y`
    /// and limited to the viewport; every pixel that the scan visits takes
    /// the colour, and the depth buffer is neither read nor written.
    pub fn fill_triangle(&mut self, pos1: Vf2d, pos2: Vf2d, pos3: Vf2d, p: Pixel)
        requires
            old(self).wf(),
        ensures
            final(self).same_frame(*old(self)),
            final(self)@ == old(self)@.drawn(
                flat_corners_spec(pos1, pos2, pos3).prepared_spec(
                    old(self).pixels_w,
                    old(self).pixels_h,
                ),
                None,
                p,
                false,
            ),
            final(self).depth_buffer@ == old(self).depth_buffer@,
    {
        let uv = UV { u: Scalar::zero(), v: Scalar::zero(), w: Scalar::zero() };
        let c = Corners { pos1: pos1, pos2: pos2, pos3: pos3, uv1: uv, uv2: uv, uv3: uv }.prepared(
            self.pixels_w,
            self.pixels_h,
        );
        self.raster(&c, None, p, false);
        proof {
            self.lemma_is_drawn(*old(self), c, None, p, false);
            let ghost w = self.pixels_w as int;
            let ghost h = self.pixels_h as int;
            assert forall|i: int| 0 <= i < self.depth_buffer@.len() implies self.depth_buffer@[i]
                == old(self).depth_buffer@[i] by {
                lemma_pixel_index_split(w, h, i);
                assert(self.depth_at(i % w, i / w) == old(self).depth_at(i % w, i / w));
            }
            assert(self.depth_buffer@ =~= old(self).depth_buffer@);
        }
    }

    /// Draws a textured triangle with a depth test. The corners are sorted
    /// by `y`, with their texture coordinates, and limited to the viewport.
    /// At every pixel that the scan visits, the inverse depth `w` is
    /// interpolated; where it is greater than the stored one, the pixel
    /// takes the texel at the perspective-correct texture coordinates (or
    /// the colour `tp` where there is no texture) and the depth buffer takes
    /// `w`. All other pixels and depths stay as they are.
    pub fn texture_triangle(
        &mut self,
        pos1: Vf2d,
        pos2: Vf2d,
        pos3: Vf2d,
        uv1: UV,
        uv2: UV,
        uv3: UV,
        spr: Option<&Sprite>,
        tp: Pixel,
    )
        requires
            old(self).wf(),
            spr.is_some() ==> spr.unwrap().wf(),
        ensures
            final(self).same_frame(*old(self)),
            final(self)@ == old(self)@.drawn(
                (Corners { pos1: pos1, pos2: pos2, pos3: pos3, uv1, uv2, uv3 }).prepared_spec(
                    old(self).pixels_w,
                    old(self).pixels_h,
                ),
                spr,
                tp,
                true,
            ),
    {
        let c = Corners { pos1: pos1, pos2: pos2, pos3: pos3, uv1, uv2, uv3 }.prepared(
            self.pixels_w,
            self.pixels_h,
        );
        self.raster(&c, spr, tp, true);
        proof {
            self.lemma_is_drawn(*old(self), c, spr, tp, true);
        }
    }
}

/// The corners of a triangle without texture.
pub open spec fn flat_corners_spec(pos1: Vf2d, pos2: Vf2d, pos3: Vf2d) -> Corners {
    let uv = UV { u: Scalar::zero_spec(), v: Scalar::zero_spec(), w: Scalar::zero_spec() };
    Corners { pos1: pos1, pos2: pos2, pos3: pos3, uv1: uv, uv2: uv, uv3: uv }
}

/// Every position in the buffers belongs to a pixel of the viewport.
pub proof fn lemma_pixel_index_split(width: int, height: int, i: int)
    requires
        0 <= i < width * height,
        0 <= width,
        0 <= height,
    ensures
        width > 0,
        0 <= i % width < width,
        0 <= i / width < height,
        pixel_index(width, i % width, i / width) == i,
{
    assert(width > 0) by (nonlinear_arith)
        requires
            0 <= i < width * height,
            0 <= width,
    ;
    assert(i == (i / width) * width + i % width && 0 <= i % width < width && 0 <= i / width)
        by (nonlinear_arith)
        requires
            width > 0,
            0 <= i,
    ;
    assert(i / width < height) by (nonlinear_arith)
        requires
            i == (i / width) * width + i % width,
            0 <= i % width,
            i < width * height,
            width > 0,
    ;
}

/// After a triangle is drawn, a pixel of the viewport has the colour and
/// the depth that [`Frame::pixel_after`] and [`Frame::depth_after`] name.
pub proof fn lemma_drawn_at(
    frame: Frame,
    c: Corners,
    spr: Option<&Sprite>,
    tp: Pixel,
    depth_test: bool,
    x: int,
    y: int,
)
    requires
        frame.wf(),
        0 <= x < frame.width,
        0 <= y < frame.height,
    ensures
        frame.drawn(c, spr, tp, depth_test).wf(),
        frame.drawn(c, spr, tp, depth_test).pixel_at(x, y) == frame.pixel_after(
            c,
            spr,
            tp,
            depth_test,
            x,
            y,
        ),
        frame.drawn(c, spr, tp, depth_test).depth_at(x, y) == frame.depth_after(
            c,
            depth_test,
            x,
            y,
        ),
{
    let w = frame.width as int;
    let i = pixel_index(w, x, y);
    lemma_pixel_index_bound(w, frame.height as int, x, y);
    lemma_fundamental_div_mod_converse(i, w, y, x);
}

/// Drawing two triangles with the depth test gives every pixel the same
/// depth in either order, and the same colour, unless both triangles
/// offer the pixel one and the same inverse depth.
pub proof fn lemma_depth_test_order_independent(
    frame: Frame,
    a: Corners,
    spr_a: Option<&Sprite>,
    tp_a: Pixel,
    b: Corners,
    spr_b: Option<&Sprite>,
    tp_b: Pixel,
    x: int,
    y: int,
)
    requires
        frame.wf(),
        0 <= x < frame.width,
        0 <= y < frame.height,
    ensures
        frame.drawn(a, spr_a, tp_a, true).drawn(b, spr_b, tp_b, true).depth_at(x, y)
            == frame.drawn(b, spr_b, tp_b, true).drawn(a, spr_a, tp_a, true).depth_at(x, y),
        !(a.covers(x, y) && b.covers(x, y) && a.span_spec(y).fragment_spec(x).w
            == b.span_spec(y).fragment_spec(x).w) ==> frame.drawn(a, spr_a, tp_a, true).drawn(
            b,
            spr_b,
            tp_b,
            true,
        ).pixel_at(x, y) == frame.drawn(b, spr_b, tp_b, true).drawn(a, spr_a, tp_a, true).pixel_at(
            x,
            y,
        ),
{
    lemma_drawn_at(frame, a, spr_a, tp_a, true, x, y);
    lemma_drawn_at(frame, b, spr_b, tp_b, true, x, y);
    lemma_drawn_at(frame.drawn(a, spr_a, tp_a, true), b, spr_b, tp_b, true, x, y);
    lemma_drawn_at(frame.drawn(b, spr_b, tp_b, true), a, spr_a, tp_a, true, x, y);
}

/// With the depth test, a stored inverse depth never gets smaller.
pub proof fn lemma_depth_never_decreases(
    frame: Frame,
    c: Corners,
    spr: Option<&Sprite>,
    tp: Pixel,
    x: int,
    y: int,
)
    requires
        frame.wf(),
        0 <= x < frame.width,
        0 <= y < frame.height,
    ensures
        frame.drawn(c, spr, tp, true).depth_at(x, y)@ >= frame.depth_at(x, y)@,
{
    lemma_drawn_at(frame, c, spr, tp, true, x, y);
}

/// Sorting the corners and limiting them to the viewport prepares them
/// for the scan, whatever they were.
pub proof fn lemma_prepared_is_prepared(c: Corners, width: u32, height: u32)
    ensures
        c.prepared_spec(width, height).is_prepared(width, height),
{
}

/// Every pixel that the scan of a prepared triangle visits lies in the
/// viewport, and between the least and the greatest `x` of the corners.
pub proof fn lemma_scan_in_bounding_box(c: Corners, width: u32, height: u32, x: int, y: int)
    requires
        c.is_prepared(width, height),
        c.covers(x, y),
    ensures
        0 <= x < width,
        0 <= y < height,
        trunc_raw(c.pos1.x.min_spec(c.pos2.x).min_spec(c.pos3.x)@) <= x,
        x < trunc_raw(c.pos1.x.max_spec(c.pos2.x).max_spec(c.pos3.x)@),
{
    c.lemma_span_in_viewport(width, height, y);
    let ys = Scalar::int_spec(y);
    lemma_interpolate_between(c.pos1, c.pos3, ys);
    if y < ceil_raw(c.pos2.y@) {
        lemma_interpolate_between(c.pos1, c.pos2, ys);
    } else {
        lemma_interpolate_between(c.pos2, c.pos3, ys);
    }
}

/// Where the first two corners of a prepared triangle share their height
/// and a scanline lies exactly at that height, the scan visits no pixel
/// of that scanline outside the extent of the edge between the two.
pub proof fn lemma_flat_top_scanline(c: Corners, width: u32, height: u32, x: int, y: int)
    requires
        c.is_prepared(width, height),
        c.pos1.y == c.pos2.y,
        Scalar::int_spec(y) == c.pos1.y,
        c.covers(x, y),
    ensures
        trunc_raw(c.pos1.x.min_spec(c.pos2.x)@) <= x < trunc_raw(c.pos1.x.max_spec(c.pos2.x)@),
{
    reveal(Scalar::sub_spec);
    reveal(Scalar::add_spec);
    reveal(Scalar::mul_spec);
    let ys = Scalar::int_spec(y);
    let m1 = c.pos3.x.sub_spec(c.pos2.x).div_spec(c.pos3.y.sub_spec(c.pos2.y));
    let m2 = c.pos3.x.sub_spec(c.pos1.x).div_spec(c.pos3.y.sub_spec(c.pos1.y));
    assert(m1@ * 0 == 0 && m2@ * 0 == 0) by (nonlinear_arith);
    assert(interpolate_spec(c.pos2, c.pos3, ys) == c.pos2.x);
    assert(interpolate_spec(c.pos1, c.pos3, ys) == c.pos1.x);
}

/// Where the last two corners of a prepared triangle share their height,
/// the scan visits no pixel of a scanline at that height.
pub proof fn lemma_flat_bottom_scanline(c: Corners, width: u32, height: u32, x: int, y: int)
    requires
        c.is_prepared(width, height),
        c.pos2.y == c.pos3.y,
        Scalar::int_spec(y) == c.pos3.y,
    ensures
        !c.covers(x, y),
{
}

/// Two triangles offer a pixel one and the same inverse depth.
pub open spec fn ties_at(a: Corners, b: Corners, x: int, y: int) -> bool {
    &&& a.covers(x, y)
    &&& b.covers(x, y)
    &&& a.span_spec(y).fragment_spec(x).w == b.span_spec(y).fragment_spec(x).w
}

/// Drawing two triangles with the depth test gives the same frame in
/// either order, provided that they do not offer any pixel of the viewport
/// one and the same inverse depth.
pub proof fn lemma_draw_order_independent(
    frame: Frame,
    a: Corners,
    spr_a: Option<&Sprite>,
    tp_a: Pixel,
    b: Corners,
    spr_b: Option<&Sprite>,
    tp_b: Pixel,
)
    requires
        frame.wf(),
        forall|x: int, y: int|
            0 <= x < frame.width && 0 <= y < frame.height ==> !#[trigger] ties_at(a, b, x, y),
    ensures
        frame.drawn(a, spr_a, tp_a, true).drawn(b, spr_b, tp_b, true) == frame.drawn(
            b,
            spr_b,
            tp_b,
            true,
        ).drawn(a, spr_a, tp_a, true),
{
    let w = frame.width as int;
    let h = frame.height as int;
    let ab = frame.drawn(a, spr_a, tp_a, true).drawn(b, spr_b, tp_b, true);
    let ba = frame.drawn(b, spr_b, tp_b, true).drawn(a, spr_a, tp_a, true);
    assert forall|i: int| 0 <= i < ab.pixels.len() implies ab.pixels[i] == ba.pixels[i] by {
        lemma_pixel_index_split(w, h, i);
        assert(!ties_at(a, b, i % w, i / w));
        lemma_depth_test_order_independent(frame, a, spr_a, tp_a, b, spr_b, tp_b, i % w, i / w);
    }
    assert forall|i: int| 0 <= i < ab.depth.len() implies ab.depth[i] == ba.depth[i] by {
        lemma_pixel_index_split(w, h, i);
        lemma_depth_test_order_independent(frame, a, spr_a, tp_a, b, spr_b, tp_b, i % w, i / w);
    }
    assert(ab.pixels =~= ba.pixels);
    assert(ab.depth =~= ba.depth);
}

} // verus!
