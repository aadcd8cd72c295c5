//! A software rendering core in fixed-point arithmetic.
//!
//! Triangles in space are turned and moved by rotors of geometric algebra,
//! taken into the frame of a camera, clipped against its near plane,
//! projected with perspective, clipped against the edges of the screen and
//! filled scanline by scanline, with perspective-correct texture
//! coordinates and a depth test on the inverse depth.
//!
//! Every number is a [`scalar::Scalar`]: a signed fixed-point number with
//! 32 fractional bits whose operations round toward zero and saturate, so
//! that every function is total and its result is one definite integer.
//! The modules, leaves first: [`scalar`], [`math_3d`] with [`rotor_laws`],
//! [`math_nd`], [`transform`], [`camera`], [`pixel`], [`sprite`],
//! [`geometry`], [`util`], [`engine`] and [`render`].

pub mod camera;
pub mod engine;
pub mod geometry;
pub mod math_3d;
pub mod math_nd;
pub mod pixel;
pub mod render;
pub mod rotor_laws;
pub mod scalar;
pub mod sprite;
pub mod transform;
pub mod util;
