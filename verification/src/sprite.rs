//! Images in memory, and nearest-neighbour sampling of them as textures.

use crate::pixel::Pixel;
use crate::scalar::{trunc_raw, Scalar};
use vstd::prelude::*;

verus! {

/// What a read outside an image gives.
#[derive(Clone, Copy, PartialEq, Eq, Structural, Debug)]
pub enum SpriteMode {
    /// Opaque black.
    Normal,
    /// The image repeats in both directions.
    Periodic,
}

/// An image: `width * height` pixels, row after row.
#[derive(Clone, Debug)]
pub struct Sprite {
    pub mode_sample: SpriteMode,
    pub width: u32,
    pub height: u32,
    pub col_data: Vec<Pixel>,
}

/// The texel column or row that the coordinate `t` in `[0, 1]` selects of
/// `size` texels: `t * size` truncated, not below zero and not above `size - 1`.
pub open spec fn texel_spec(t: Scalar, size: u32) -> int {
    let scaled = trunc_raw(t.mul_spec(Scalar::whole_spec(size as nat))@);
    if scaled < 0 {
        0
    } else if scaled > size - 1 {
        size - 1
    } else {
        scaled
    }
}

impl Sprite {
    /// The pixel data has one entry for each pixel.
    pub open spec fn wf(self) -> bool {
        self.col_data@.len() == self.width * self.height
    }

    /// The pixel at `(x, y)`, which lies inside the image.
    pub open spec fn at(self, x: int, y: int) -> Pixel {
        self.col_data@[y * self.width + x]
    }

    /// The pixel that a read at `(x, y)` gives.
    pub open spec fn get_pixel_spec(self, x: int, y: int) -> Pixel {
        match self.mode_sample {
            SpriteMode::Normal => {
                if x < self.width && y < self.height {
                    self.at(x, y)
                } else {
                    Pixel::rgb_spec(0, 0, 0)
                }
            },
            SpriteMode::Periodic => self.at(x % (self.width as int), y % (self.height as int)),
        }
    }

    /// The texel nearest to the texture coordinates `(u, v)`. An image
    /// without pixels gives opaque black.
    pub open spec fn sample_spec(self, u: Scalar, v: Scalar) -> Pixel {
        if self.width == 0 || self.height == 0 {
            Pixel::rgb_spec(0, 0, 0)
        } else {
            self.at(texel_spec(u, self.width), texel_spec(v, self.height))
        }
    }

    /// An image of the given size, every pixel transparent black.
    pub fn new(width: u32, height: u32) -> (s: Sprite)
        requires
            width * height <= usize::MAX,
        ensures
            s.wf(),
            s.width == width,
            s.height == height,
            s.mode_sample == SpriteMode::Normal,
            forall|i: int| 0 <= i < width * height ==> s.col_data@[i] == Pixel::rgba_spec(0, 0, 0, 0),
    {
        assert(width * height >= 0) by (nonlinear_arith)
            requires
                width >= 0,
                height >= 0,
        ;
        let image_size: usize = (width as usize) * (height as usize);
        let mut col_data: Vec<Pixel> = Vec::new();
        let mut i: usize = 0;
        while i < image_size
            invariant
                i <= image_size,
                col_data@.len() == i,
                forall|k: int| 0 <= k < i ==> col_data@[k] == Pixel::rgba_spec(0, 0, 0, 0),
            decreases image_size - i,
        {
            col_data.push(Pixel::blank());
            i += 1;
        }
        Sprite { mode_sample: SpriteMode::Normal, width, height, col_data }
    }

    /// An image of the given size over the given pixels, if they are as
    /// many as the size asks for.
    pub fn new_with_data(width: u32, height: u32, col_data: Vec<Pixel>) -> (s: Option<Sprite>)
        ensures
            s.is_some() <==> col_data@.len() == width * height,
            s.is_some() ==> s.unwrap().wf() && s.unwrap().width == width && s.unwrap().height
                == height && s.unwrap().col_data@ == col_data@ && s.unwrap().mode_sample
                == SpriteMode::Normal,
    {
        assert(0 <= width * height <= 0xffff_ffff * 0xffff_ffff) by (nonlinear_arith)
            requires
                0 <= width <= 0xffff_ffff,
                0 <= height <= 0xffff_ffff,
        ;
        let size: u64 = (width as u64) * (height as u64);
        if col_data.len() as u64 == size {
            Some(Sprite { mode_sample: SpriteMode::Normal, width, height, col_data })
        } else {
            None
        }
    }

    /// The index of the pixel `(x, y)` in the pixel data.
    fn index_of(&self, x: u32, y: u32) -> (i: usize)
        requires
            self.wf(),
            x < self.width,
            y < self.height,
        ensures
            i == y * self.width + x,
            i < self.col_data@.len(),
    {
        let w = self.width as usize;
        let h = self.height as usize;
        let row = y as usize;
        assert(0 <= row * w && row * w + x < w * h) by (nonlinear_arith)
            requires
                0 <= x < w,
                0 <= row < h,
        ;
        assert(self.col_data@.len() == self.col_data.len());
        row * w + (x as usize)
    }

    /// The pixel at `(x, y)`; outside the image, what the mode says.
    pub fn get_pixel(&self, x: u32, y: u32) -> (p: Pixel)
        requires
            self.wf(),
            self.mode_sample == SpriteMode::Periodic ==> self.width > 0 && self.height > 0,
        ensures
            p == self.get_pixel_spec(x as int, y as int),
    {
        match self.mode_sample {
            SpriteMode::Normal => {
                if x < self.width && y < self.height {
                    self.col_data[self.index_of(x, y)]
                } else {
                    Pixel::rgb(0, 0, 0)
                }
            },
            SpriteMode::Periodic => {
                self.col_data[self.index_of(x % self.width, y % self.height)]
            },
        }
    }

    /// Writes the pixel at `(x, y)` and says whether `(x, y)` lies inside
    /// the image; outside, nothing is written.
    pub fn set_pixel(&mut self, x: u32, y: u32, p: Pixel) -> (inside: bool)
        requires
            old(self).wf(),
        ensures
            final(self).wf(),
            final(self).width == old(self).width,
            final(self).height == old(self).height,
            final(self).mode_sample == old(self).mode_sample,
            inside == (x < old(self).width && y < old(self).height),
            inside ==> final(self).col_data@ == old(self).col_data@.update(
                y * old(self).width + x,
                p,
            ),
            !inside ==> final(self).col_data@ == old(self).col_data@,
    {
        if x < self.width && y < self.height {
            let i = self.index_of(x, y);
            self.col_data[i] = p;
            true
        } else {
            false
        }
    }

    /// The texel column or row for one texture coordinate.
    fn texel(t: Scalar, size: u32) -> (r: u32)
        requires
            size > 0,
        ensures
            r == texel_spec(t, size),
            r < size,
    {
        let scaled: i64 = t.mul(Scalar::from_u32(size)).trunc();
        if scaled < 0 {
            0
        } else if scaled > (size - 1) as i64 {
            size - 1
        } else {
            scaled as u32
        }
    }

    /// The texel nearest to the texture coordinates `(u, v)`, which run
    /// from zero to one over the image; coordinates outside are clamped.
    pub fn sample(&self, u: Scalar, v: Scalar) -> (p: Pixel)
        requires
            self.wf(),
        ensures
            p == self.sample_spec(u, v),
    {
        if self.width == 0 || self.height == 0 {
            Pixel::rgb(0, 0, 0)
        } else {
            let sx = Sprite::texel(u, self.width);
            let sy = Sprite::texel(v, self.height);
            self.col_data[self.index_of(sx, sy)]
        }
    }

    /// Sets every pixel to `p`.
    pub fn clear(&mut self, p: Pixel)
        ensures
            final(self).width == old(self).width,
            final(self).height == old(self).height,
            final(self).mode_sample == old(self).mode_sample,
            final(self).col_data@.len() == old(self).col_data@.len(),
            forall|i: int| 0 <= i < final(self).col_data@.len() ==> final(self).col_data@[i] == p,
    {
        let n = self.col_data.len();
        let mut i: usize = 0;
        while i < n
            invariant
                i <= n,
                n == self.col_data@.len(),
                self.width == old(self).width,
                self.height == old(self).height,
                self.mode_sample == old(self).mode_sample,
                forall|k: int| 0 <= k < i ==> self.col_data@[k] == p,
            decreases n - i,
        {
            self.col_data[i] = p;
            i += 1;
        }
    }
}

} // verus!
