//! Triangles with texture coordinates, planes, and where a segment meets a plane.

use crate::math_3d::Vector3;
use crate::pixel::Pixel;
use crate::scalar::Scalar;
use vstd::prelude::*;

verus! {

/// Texture coordinates `u` and `v`, and the carried inverse depth `w`.
#[derive(Clone, Copy, PartialEq, Eq, Structural, Debug)]
pub struct UV {
    pub u: Scalar,
    pub v: Scalar,
    pub w: Scalar,
}

/// A triangle: three corners with their texture coordinates, a colour and
/// a lighting term. The order of the corners is the winding.
#[derive(Clone, Copy, Debug)]
pub struct Triangle {
    pub p: [Vector3; 3],
    pub t: [UV; 3],
    pub c: Pixel,
    pub l: Scalar,
}

/// A plane: a point on it and a normal, which need not have unit length.
#[derive(Clone, Copy, PartialEq, Eq, Structural, Debug)]
pub struct Plane {
    pub p: Vector3,
    pub n: Vector3,
}

impl UV {
    pub open spec fn new_spec(u: Scalar, v: Scalar) -> UV {
        UV { u, v, w: Scalar::one_spec() }
    }

    pub open spec fn add_spec(self, rhs: UV) -> UV {
        UV { u: self.u.add_spec(rhs.u), v: self.v.add_spec(rhs.v), w: self.w.add_spec(rhs.w) }
    }

    pub open spec fn sub_spec(self, rhs: UV) -> UV {
        UV { u: self.u.sub_spec(rhs.u), v: self.v.sub_spec(rhs.v), w: self.w.sub_spec(rhs.w) }
    }

    pub open spec fn scale_spec(self, s: Scalar) -> UV {
        UV { u: self.u.mul_spec(s), v: self.v.mul_spec(s), w: self.w.mul_spec(s) }
    }

    /// The point at the share `t` of the way from `self` to `to`, in all
    /// three coordinates: `self + (to - self) * t`.
    #[verifier::opaque]
    pub open spec fn lerp_spec(self, to: UV, t: Scalar) -> UV {
        self.add_spec(to.sub_spec(self).scale_spec(t))
    }

    /// Texture coordinates `(u, v)` with inverse depth one.
    pub fn new(u: Scalar, v: Scalar) -> (r: UV)
        ensures
            r == UV::new_spec(u, v),
    {
        UV { u, v, w: Scalar::one() }
    }

    /// Sum, coordinate by coordinate.
    pub fn add(&self, rhs: UV) -> (r: UV)
        ensures
            r == self.add_spec(rhs),
    {
        UV { u: self.u.add(rhs.u), v: self.v.add(rhs.v), w: self.w.add(rhs.w) }
    }

    /// Difference, coordinate by coordinate.
    pub fn sub(&self, rhs: UV) -> (r: UV)
        ensures
            r == self.sub_spec(rhs),
    {
        UV { u: self.u.sub(rhs.u), v: self.v.sub(rhs.v), w: self.w.sub(rhs.w) }
    }

    /// Every coordinate multiplied by `s`.
    pub fn scale(&self, s: Scalar) -> (r: UV)
        ensures
            r == self.scale_spec(s),
    {
        UV { u: self.u.mul(s), v: self.v.mul(s), w: self.w.mul(s) }
    }

    /// The point at the share `t` of the way from `self` to `to`.
    pub fn lerp(&self, to: UV, t: Scalar) -> (r: UV)
        ensures
            r == self.lerp_spec(to, t),
    {
        reveal(UV::lerp_spec);
        self.add(to.sub(*self).scale(t))
    }
}

impl Triangle {
    /// The triangle with the given corners, texture coordinates zero with
    /// inverse depth one, colour white and lighting one.
    pub open spec fn from_points_spec(a: Vector3, b: Vector3, c: Vector3) -> Triangle {
        let uv = UV::new_spec(Scalar::zero_spec(), Scalar::zero_spec());
        Triangle {
            p: [a, b, c],
            t: [uv, uv, uv],
            c: Pixel::rgb_spec(255, 255, 255),
            l: Scalar::one_spec(),
        }
    }

    /// The triangle with the given corners and default attributes.
    pub fn from_points(a: Vector3, b: Vector3, c: Vector3) -> (r: Triangle)
        ensures
            r == Triangle::from_points_spec(a, b, c),
    {
        let uv = UV::new(Scalar::zero(), Scalar::zero());
        Triangle { p: [a, b, c], t: [uv, uv, uv], c: Pixel::white(), l: Scalar::one() }
    }
}

impl Plane {
    /// Signed distance of `p` from the plane, along the unit normal.
    #[verifier::opaque]
    pub open spec fn distance_spec(self, p: Vector3) -> Scalar {
        let n = self.n.normal_spec();
        n.dot_spec(p).sub_spec(n.dot_spec(self.p))
    }

    /// A point is inside where its distance is not negative; points on the
    /// plane are inside.
    pub open spec fn is_inside(self, p: Vector3) -> bool {
        self.distance_spec(p)@ >= 0
    }

    /// The share of the way from `start` to `end` at which the segment meets the plane.
    #[verifier::opaque]
    pub open spec fn intersect_percent_spec(self, start: Vector3, end: Vector3) -> Scalar {
        let n = self.n.normal_spec();
        let pd = n.dot_spec(self.p);
        let ad = start.dot_spec(n);
        let bd = end.dot_spec(n);
        pd.sub_spec(ad).div_spec(bd.sub_spec(ad))
    }

    /// The point of the segment at the share `t`: `start + (end - start) * t`.
    #[verifier::opaque]
    pub open spec fn point_at_spec(start: Vector3, end: Vector3, t: Scalar) -> Vector3 {
        start.add_spec(end.sub_spec(start).scale_spec(t))
    }

    /// The point at which the segment from `start` to `end` meets the plane.
    pub open spec fn intersect_spec(self, start: Vector3, end: Vector3) -> Vector3 {
        Plane::point_at_spec(start, end, self.intersect_percent_spec(start, end))
    }

    /// Signed distance of `p` from the plane, along the unit normal.
    pub fn distance(&self, p: Vector3) -> (r: Scalar)
        ensures
            r == self.distance_spec(p),
    {
        reveal(Plane::distance_spec);
        let n = self.n.normal();
        n.dot(p).sub(n.dot(self.p))
    }
}

/// The share of the way from `start` to `end` at which the segment meets `plane`.
pub fn intersect_plane_percent(plane: &Plane, start: &Vector3, end: &Vector3) -> (t: Scalar)
    ensures
        t == plane.intersect_percent_spec(*start, *end),
{
    reveal(Plane::intersect_percent_spec);
    let n = plane.n.normal();
    let pd = n.dot(plane.p);
    let ad = start.dot(n);
    let bd = end.dot(n);
    pd.sub(ad).div(bd.sub(ad))
}

/// The point at which the segment from `start` to `end` meets `plane`,
/// together with the share of the way at which it lies. The point is
/// computed from that very share.
pub fn intersect_plane(plane: &Plane, start: &Vector3, end: &Vector3) -> (r: (Vector3, Scalar))
    ensures
        r.1 == plane.intersect_percent_spec(*start, *end),
        r.0 == Plane::point_at_spec(*start, *end, r.1),
        r.0 == plane.intersect_spec(*start, *end),
{
    reveal(Plane::point_at_spec);
    let t = intersect_plane_percent(plane, start, end);
    (start.add(end.sub(*start).scale(t)), t)
}

impl Default for UV {
    /// Texture coordinates zero with inverse depth one.
    fn default() -> (r: UV)
        ensures
            r == UV::new_spec(Scalar::zero_spec(), Scalar::zero_spec()),
    {
        UV::new(Scalar::zero(), Scalar::zero())
    }
}

} // verus!
