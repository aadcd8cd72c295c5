//! Colours with four 8-bit channels.

use crate::scalar::{trunc_raw, Scalar};
use vstd::prelude::*;

verus! {

/// Alpha of an opaque colour.
pub const DEFAULT_ALPHA: u8 = 0xFF;

/// A colour: red, green, blue and alpha.
#[derive(Clone, Copy, PartialEq, Eq, Structural, Debug)]
pub struct Pixel {
    pub r: u8,
    pub g: u8,
    pub b: u8,
    pub a: u8,
}

/// One channel `c` lit by the factor `l`: the product, cut off at 255,
/// truncated to an integer, and not below zero.
pub open spec fn channel_scale_spec(c: u8, l: Scalar) -> u8 {
    let cut = Scalar::int_spec(c as int).mul_spec(l).min_spec(Scalar::int_spec(255));
    if cut@ < 0 {
        0u8
    } else {
        trunc_raw(cut@) as u8
    }
}

/// One channel `c` lit by the factor `l`.
pub fn channel_scale(c: u8, l: Scalar) -> (r: u8)
    ensures
        r == channel_scale_spec(c, l),
{
    let lit = Scalar::from_int(c as i32).mul(l);
    let cut = lit.min(Scalar::from_int(255));
    if cut.raw < 0 {
        0
    } else {
        let whole: i64 = cut.trunc();
        whole as u8
    }
}

impl Pixel {
    pub open spec fn rgba_spec(r: u8, g: u8, b: u8, a: u8) -> Pixel {
        Pixel { r, g, b, a }
    }

    pub open spec fn rgb_spec(r: u8, g: u8, b: u8) -> Pixel {
        Pixel { r, g, b, a: DEFAULT_ALPHA }
    }

    /// The colour channels lit by `l`; alpha is kept.
    pub open spec fn scale_spec(self, l: Scalar) -> Pixel {
        Pixel {
            r: channel_scale_spec(self.r, l),
            g: channel_scale_spec(self.g, l),
            b: channel_scale_spec(self.b, l),
            a: self.a,
        }
    }

    /// The colour with the given channels.
    pub fn rgba(r: u8, g: u8, b: u8, a: u8) -> (p: Pixel)
        ensures
            p == Pixel::rgba_spec(r, g, b, a),
    {
        Pixel { r, g, b, a }
    }

    /// The opaque colour with the given channels.
    pub fn rgb(r: u8, g: u8, b: u8) -> (p: Pixel)
        ensures
            p == Pixel::rgb_spec(r, g, b),
    {
        Pixel { r, g, b, a: DEFAULT_ALPHA }
    }

    /// Opaque black, the colour of an untouched pixel.
    pub fn black() -> (p: Pixel)
        ensures
            p == Pixel::rgb_spec(0, 0, 0),
    {
        Pixel::rgb(0, 0, 0)
    }

    /// Opaque white.
    pub fn white() -> (p: Pixel)
        ensures
            p == Pixel::rgb_spec(255, 255, 255),
    {
        Pixel::rgb(255, 255, 255)
    }

    /// Opaque red.
    pub fn red() -> (p: Pixel)
        ensures
            p == Pixel::rgb_spec(255, 0, 0),
    {
        Pixel::rgb(255, 0, 0)
    }

    /// Opaque green.
    pub fn green() -> (p: Pixel)
        ensures
            p == Pixel::rgb_spec(0, 255, 0),
    {
        Pixel::rgb(0, 255, 0)
    }

    /// Opaque blue.
    pub fn blue() -> (p: Pixel)
        ensures
            p == Pixel::rgb_spec(0, 0, 255),
    {
        Pixel::rgb(0, 0, 255)
    }

    /// Transparent black.
    pub fn blank() -> (p: Pixel)
        ensures
            p == Pixel::rgba_spec(0, 0, 0, 0),
    {
        Pixel::rgba(0, 0, 0, 0)
    }

    /// The red channel.
    pub fn r(&self) -> (c: u8)
        ensures
            c == self.r,
    {
        self.r
    }

    /// The green channel.
    pub fn g(&self) -> (c: u8)
        ensures
            c == self.g,
    {
        self.g
    }

    /// The blue channel.
    pub fn b(&self) -> (c: u8)
        ensures
            c == self.b,
    {
        self.b
    }

    /// The alpha channel.
    pub fn a(&self) -> (c: u8)
        ensures
            c == self.a,
    {
        self.a
    }

    /// The colour channels lit by the factor `l`; alpha is kept.
    pub fn scale(&self, l: Scalar) -> (p: Pixel)
        ensures
            p == self.scale_spec(l),
    {
        Pixel {
            r: channel_scale(self.r, l),
            g: channel_scale(self.g, l),
            b: channel_scale(self.b, l),
            a: self.a,
        }
    }
}

impl Default for Pixel {
    /// Opaque black.
    fn default() -> (p: Pixel)
        ensures
            p == Pixel::rgb_spec(0, 0, 0),
    {
        Pixel::rgb(0, 0, 0)
    }
}

} // verus!
