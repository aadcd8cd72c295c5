//! Vectors, bivectors and rotors of three-dimensional geometric algebra.
//!
//! A rotor is a scalar together with a bivector. Rotors compose by the
//! geometric product and turn vectors by the sandwich product. All
//! coordinates are fixed-point numbers, and every function here computes
//! exactly the composition of rounded operations that its `_spec` twin names.

use crate::rotor_laws::{is_near_unit, lemma_normal_is_near_unit};
use crate::scalar::{lemma_floor_sqrt_square, Scalar, MAX_RAW, ONE_RAW};
use vstd::prelude::*;

verus! {

/// A point or direction in space.
#[derive(Clone, Copy, PartialEq, Eq, Structural, Debug)]
pub struct Vector3 {
    pub x: Scalar,
    pub y: Scalar,
    pub z: Scalar,
}

/// An oriented plane element, by its three coordinate planes.
#[derive(Clone, Copy, PartialEq, Eq, Structural, Debug)]
pub struct BiVector3 {
    pub b12: Scalar,
    pub b13: Scalar,
    pub b23: Scalar,
}

/// A rotation: the scalar `a` and the bivector `(b12, b13, b23)`.
#[derive(Clone, Copy, PartialEq, Eq, Structural, Debug)]
pub struct Rotor3 {
    pub a: Scalar,
    pub b12: Scalar,
    pub b13: Scalar,
    pub b23: Scalar,
}

impl Vector3 {
    pub open spec fn new_spec(x: Scalar, y: Scalar, z: Scalar) -> Vector3 {
        Vector3 { x, y, z }
    }

    /// The vector of the three integers.
    pub open spec fn ints_spec(x: int, y: int, z: int) -> Vector3 {
        Vector3 { x: Scalar::int_spec(x), y: Scalar::int_spec(y), z: Scalar::int_spec(z) }
    }

    pub open spec fn zero_spec() -> Vector3 {
        Vector3::ints_spec(0, 0, 0)
    }

    pub open spec fn add_spec(self, rhs: Vector3) -> Vector3 {
        Vector3 {
            x: self.x.add_spec(rhs.x),
            y: self.y.add_spec(rhs.y),
            z: self.z.add_spec(rhs.z),
        }
    }

    pub open spec fn sub_spec(self, rhs: Vector3) -> Vector3 {
        Vector3 {
            x: self.x.sub_spec(rhs.x),
            y: self.y.sub_spec(rhs.y),
            z: self.z.sub_spec(rhs.z),
        }
    }

    pub open spec fn scale_spec(self, s: Scalar) -> Vector3 {
        Vector3 { x: self.x.mul_spec(s), y: self.y.mul_spec(s), z: self.z.mul_spec(s) }
    }

    pub open spec fn div_spec(self, s: Scalar) -> Vector3 {
        Vector3 { x: self.x.div_spec(s), y: self.y.div_spec(s), z: self.z.div_spec(s) }
    }

    pub open spec fn mul_components_spec(self, rhs: Vector3) -> Vector3 {
        Vector3 {
            x: self.x.mul_spec(rhs.x),
            y: self.y.mul_spec(rhs.y),
            z: self.z.mul_spec(rhs.z),
        }
    }

    pub open spec fn div_components_spec(self, rhs: Vector3) -> Vector3 {
        Vector3 {
            x: self.x.div_spec(rhs.x),
            y: self.y.div_spec(rhs.y),
            z: self.z.div_spec(rhs.z),
        }
    }

    pub open spec fn dot_spec(self, rhs: Vector3) -> Scalar {
        self.x.mul_spec(rhs.x).add_spec(self.y.mul_spec(rhs.y)).add_spec(self.z.mul_spec(rhs.z))
    }

    pub open spec fn cross_spec(self, rhs: Vector3) -> Vector3 {
        Vector3 {
            x: self.y.mul_spec(rhs.z).sub_spec(self.z.mul_spec(rhs.y)),
            y: self.z.mul_spec(rhs.x).sub_spec(self.x.mul_spec(rhs.z)),
            z: self.x.mul_spec(rhs.y).sub_spec(self.y.mul_spec(rhs.x)),
        }
    }

    pub open spec fn length_sqrd_spec(self) -> Scalar {
        self.dot_spec(self)
    }

    /// The Euclidean norm: the exact root of the exact sum of squares, rounded down.
    pub open spec fn length_spec(self) -> Scalar {
        Scalar::norm3_spec(self.x, self.y, self.z)
    }

    /// This vector divided by its length. The zero vector stays zero.
    pub open spec fn normal_spec(self) -> Vector3 {
        self.div_spec(self.length_spec())
    }

    /// The vector `(x, y, z)`.
    pub fn new(x: Scalar, y: Scalar, z: Scalar) -> (r: Vector3)
        ensures
            r == Vector3::new_spec(x, y, z),
    {
        Vector3 { x, y, z }
    }

    /// The vector with the three integers as coordinates.
    pub fn from_ints(x: i32, y: i32, z: i32) -> (r: Vector3)
        ensures
            r == Vector3::ints_spec(x as int, y as int, z as int),
    {
        Vector3 { x: Scalar::from_int(x), y: Scalar::from_int(y), z: Scalar::from_int(z) }
    }

    /// The unit vector `(-1, 0, 0)`.
    pub fn left() -> (r: Vector3)
        ensures
            r == Vector3::ints_spec(-1, 0, 0),
    {
        Vector3::from_ints(-1, 0, 0)
    }

    /// The unit vector `(1, 0, 0)`.
    pub fn right() -> (r: Vector3)
        ensures
            r == Vector3::ints_spec(1, 0, 0),
    {
        Vector3::from_ints(1, 0, 0)
    }

    /// The unit vector `(0, 1, 0)`.
    pub fn up() -> (r: Vector3)
        ensures
            r == Vector3::ints_spec(0, 1, 0),
    {
        Vector3::from_ints(0, 1, 0)
    }

    /// The unit vector `(0, -1, 0)`.
    pub fn down() -> (r: Vector3)
        ensures
            r == Vector3::ints_spec(0, -1, 0),
    {
        Vector3::from_ints(0, -1, 0)
    }

    /// The unit vector `(0, 0, 1)`.
    pub fn forward() -> (r: Vector3)
        ensures
            r == Vector3::ints_spec(0, 0, 1),
    {
        Vector3::from_ints(0, 0, 1)
    }

    /// The unit vector `(0, 0, -1)`.
    pub fn backward() -> (r: Vector3)
        ensures
            r == Vector3::ints_spec(0, 0, -1),
    {
        Vector3::from_ints(0, 0, -1)
    }

    /// The vector `(1, 1, 1)`.
    pub fn one() -> (r: Vector3)
        ensures
            r == Vector3::ints_spec(1, 1, 1),
    {
        Vector3::from_ints(1, 1, 1)
    }

    /// The vector whose coordinates are all the largest number.
    pub fn max() -> (r: Vector3)
        ensures
            r.x@ == MAX_RAW && r.y@ == MAX_RAW && r.z@ == MAX_RAW,
    {
        let m = Scalar::from_raw(MAX_RAW);
        Vector3 { x: m, y: m, z: m }
    }

    /// Sum, coordinate by coordinate.
    pub fn add(&self, rhs: Vector3) -> (r: Vector3)
        ensures
            r == self.add_spec(rhs),
    {
        Vector3 { x: self.x.add(rhs.x), y: self.y.add(rhs.y), z: self.z.add(rhs.z) }
    }

    /// Difference, coordinate by coordinate.
    pub fn sub(&self, rhs: Vector3) -> (r: Vector3)
        ensures
            r == self.sub_spec(rhs),
    {
        Vector3 { x: self.x.sub(rhs.x), y: self.y.sub(rhs.y), z: self.z.sub(rhs.z) }
    }

    /// Every coordinate multiplied by `s`.
    pub fn scale(&self, s: Scalar) -> (r: Vector3)
        ensures
            r == self.scale_spec(s),
    {
        Vector3 { x: self.x.mul(s), y: self.y.mul(s), z: self.z.mul(s) }
    }

    /// Every coordinate divided by `s`.
    pub fn div(&self, s: Scalar) -> (r: Vector3)
        ensures
            r == self.div_spec(s),
    {
        Vector3 { x: self.x.div(s), y: self.y.div(s), z: self.z.div(s) }
    }

    /// Product, coordinate by coordinate.
    pub fn mul_components(&self, rhs: Vector3) -> (r: Vector3)
        ensures
            r == self.mul_components_spec(rhs),
    {
        Vector3 { x: self.x.mul(rhs.x), y: self.y.mul(rhs.y), z: self.z.mul(rhs.z) }
    }

    /// Quotient, coordinate by coordinate; zero by zero is zero.
    pub fn div_components(&self, rhs: Vector3) -> (r: Vector3)
        ensures
            r == self.div_components_spec(rhs),
    {
        Vector3 { x: self.x.div(rhs.x), y: self.y.div(rhs.y), z: self.z.div(rhs.z) }
    }

    /// Inner product.
    pub fn dot(&self, rhs: Vector3) -> (r: Scalar)
        ensures
            r == self.dot_spec(rhs),
    {
        self.x.mul(rhs.x).add(self.y.mul(rhs.y)).add(self.z.mul(rhs.z))
    }

    /// Cross product.
    pub fn cross(&self, rhs: Vector3) -> (r: Vector3)
        ensures
            r == self.cross_spec(rhs),
    {
        Vector3 {
            x: self.y.mul(rhs.z).sub(self.z.mul(rhs.y)),
            y: self.z.mul(rhs.x).sub(self.x.mul(rhs.z)),
            z: self.x.mul(rhs.y).sub(self.y.mul(rhs.x)),
        }
    }

    /// Squared length.
    pub fn length_sqrd(&self) -> (r: Scalar)
        ensures
            r == self.length_sqrd_spec(),
    {
        self.dot(*self)
    }

    /// Length.
    pub fn length(&self) -> (r: Scalar)
        ensures
            r == self.length_spec(),
    {
        Scalar::norm3(self.x, self.y, self.z)
    }

    /// This vector scaled to unit length; the zero vector stays zero.
    pub fn normal(&self) -> (r: Vector3)
        ensures
            r == self.normal_spec(),
    {
        let l = self.length();
        self.div(l)
    }
}

/// Outer product of two vectors.
pub open spec fn outer_spec(u: Vector3, v: Vector3) -> BiVector3 {
    BiVector3 {
        b12: u.x.mul_spec(v.y).sub_spec(u.y.mul_spec(v.x)),
        b13: u.x.mul_spec(v.z).sub_spec(u.z.mul_spec(v.x)),
        b23: u.y.mul_spec(v.z).sub_spec(u.z.mul_spec(v.y)),
    }
}

/// Outer product of two vectors: the plane element that they span.
pub fn outer(u: Vector3, v: Vector3) -> (r: BiVector3)
    ensures
        r == outer_spec(u, v),
{
    BiVector3 {
        b12: u.x.mul(v.y).sub(u.y.mul(v.x)),
        b13: u.x.mul(v.z).sub(u.z.mul(v.x)),
        b23: u.y.mul(v.z).sub(u.z.mul(v.y)),
    }
}

impl BiVector3 {
    pub open spec fn zero_spec() -> BiVector3 {
        BiVector3 { b12: Scalar::zero_spec(), b13: Scalar::zero_spec(), b23: Scalar::zero_spec() }
    }

    pub open spec fn add_spec(self, rhs: BiVector3) -> BiVector3 {
        BiVector3 {
            b12: self.b12.add_spec(rhs.b12),
            b13: self.b13.add_spec(rhs.b13),
            b23: self.b23.add_spec(rhs.b23),
        }
    }

    pub open spec fn scale_spec(self, s: Scalar) -> BiVector3 {
        BiVector3 {
            b12: self.b12.mul_spec(s),
            b13: self.b13.mul_spec(s),
            b23: self.b23.mul_spec(s),
        }
    }

    pub open spec fn length_sqrd_spec(self) -> Scalar {
        self.b12.mul_spec(self.b12).add_spec(self.b13.mul_spec(self.b13)).add_spec(
            self.b23.mul_spec(self.b23),
        )
    }

    /// The Euclidean norm of the three coordinates, rounded down.
    pub open spec fn length_spec(self) -> Scalar {
        Scalar::norm3_spec(self.b12, self.b13, self.b23)
    }

    pub open spec fn normal_spec(self) -> BiVector3 {
        let l = self.length_spec();
        BiVector3 {
            b12: self.b12.div_spec(l),
            b13: self.b13.div_spec(l),
            b23: self.b23.div_spec(l),
        }
    }

    /// The coordinates `(b23, b13, b23)` read as a vector.
    pub open spec fn as_vector3_spec(self) -> Vector3 {
        Vector3 { x: self.b23, y: self.b13, z: self.b23 }
    }

    /// The bivector `(b12, b13, b23)`.
    pub fn new(b12: Scalar, b13: Scalar, b23: Scalar) -> (r: BiVector3)
        ensures
            r == (BiVector3 { b12, b13, b23 }),
    {
        BiVector3 { b12, b13, b23 }
    }

    /// Sum, coordinate by coordinate.
    pub fn add(&self, rhs: BiVector3) -> (r: BiVector3)
        ensures
            r == self.add_spec(rhs),
    {
        BiVector3 {
            b12: self.b12.add(rhs.b12),
            b13: self.b13.add(rhs.b13),
            b23: self.b23.add(rhs.b23),
        }
    }

    /// Every coordinate multiplied by `s`.
    pub fn scale(&self, s: Scalar) -> (r: BiVector3)
        ensures
            r == self.scale_spec(s),
    {
        BiVector3 { b12: self.b12.mul(s), b13: self.b13.mul(s), b23: self.b23.mul(s) }
    }

    /// Squared length.
    pub fn length_sqrd(&self) -> (r: Scalar)
        ensures
            r == self.length_sqrd_spec(),
    {
        self.b12.mul(self.b12).add(self.b13.mul(self.b13)).add(self.b23.mul(self.b23))
    }

    /// Length.
    pub fn length(&self) -> (r: Scalar)
        ensures
            r == self.length_spec(),
    {
        Scalar::norm3(self.b12, self.b13, self.b23)
    }

    /// Scales this bivector to unit length in place; zero stays zero.
    pub fn normalize(&mut self)
        ensures
            *final(self) == old(self).normal_spec(),
    {
        let l = self.length();
        self.b12 = self.b12.div(l);
        self.b13 = self.b13.div(l);
        self.b23 = self.b23.div(l);
    }

    /// The coordinates `(b23, b13, b23)` read as a vector.
    pub fn as_vector3(&self) -> (r: Vector3)
        ensures
            r == self.as_vector3_spec(),
    {
        Vector3 { x: self.b23, y: self.b13, z: self.b23 }
    }
}

impl Rotor3 {
    /// The rotor that turns nothing: `(1, 0, 0, 0)`.
    pub open spec fn identity_spec() -> Rotor3 {
        Rotor3 {
            a: Scalar::one_spec(),
            b12: Scalar::zero_spec(),
            b13: Scalar::zero_spec(),
            b23: Scalar::zero_spec(),
        }
    }

    /// The bivector part.
    pub open spec fn bivector_spec(self) -> BiVector3 {
        BiVector3 { b12: self.b12, b13: self.b13, b23: self.b23 }
    }

    /// The rotor with scalar `a` and bivector `bv`.
    pub open spec fn parts_spec(a: Scalar, bv: BiVector3) -> Rotor3 {
        Rotor3 { a, b12: bv.b12, b13: bv.b13, b23: bv.b23 }
    }

    /// The reverse: the same scalar, the bivector negated.
    pub open spec fn reverse_spec(self) -> Rotor3 {
        Rotor3 {
            a: self.a,
            b12: self.b12.neg_spec(),
            b13: self.b13.neg_spec(),
            b23: self.b23.neg_spec(),
        }
    }

    pub open spec fn length_sqrd_spec(self) -> Scalar {
        self.a.mul_spec(self.a).add_spec(self.b12.mul_spec(self.b12)).add_spec(
            self.b13.mul_spec(self.b13),
        ).add_spec(self.b23.mul_spec(self.b23))
    }

    /// The Euclidean norm over all four components, rounded down.
    pub open spec fn length_spec(self) -> Scalar {
        Scalar::norm4_spec(self.a, self.b12, self.b13, self.b23)
    }

    /// The squared length of the bivector part.
    pub open spec fn mag_spec(self) -> Scalar {
        self.bivector_spec().length_sqrd_spec()
    }

    /// Every component divided by the length.
    pub open spec fn normal_spec(self) -> Rotor3 {
        let l = self.length_spec();
        Rotor3 {
            a: self.a.div_spec(l),
            b12: self.b12.div_spec(l),
            b13: self.b13.div_spec(l),
            b23: self.b23.div_spec(l),
        }
    }

    /// The geometric product `self * rhs`.
    pub open spec fn mul_spec(self, rhs: Rotor3) -> Rotor3 {
        Rotor3 {
            a: self.a.mul_spec(rhs.a).sub_spec(self.b12.mul_spec(rhs.b12)).sub_spec(
                self.b13.mul_spec(rhs.b13),
            ).sub_spec(self.b23.mul_spec(rhs.b23)),
            b12: self.b12.mul_spec(rhs.a).add_spec(self.a.mul_spec(rhs.b12)).add_spec(
                self.b23.mul_spec(rhs.b13),
            ).sub_spec(self.b13.mul_spec(rhs.b23)),
            b13: self.b13.mul_spec(rhs.a).add_spec(self.a.mul_spec(rhs.b13)).add_spec(
                self.b12.mul_spec(rhs.b23),
            ).sub_spec(self.b23.mul_spec(rhs.b12)),
            b23: self.b23.mul_spec(rhs.a).add_spec(self.a.mul_spec(rhs.b23)).add_spec(
                self.b13.mul_spec(rhs.b12),
            ).sub_spec(self.b12.mul_spec(rhs.b13)),
        }
    }

    /// First half of the sandwich product: the vector part of `self * v`.
    pub open spec fn half_turn_spec(self, v: Vector3) -> Vector3 {
        Vector3 {
            x: self.a.mul_spec(v.x).sub_spec(v.y.mul_spec(self.b12)).sub_spec(
                v.z.mul_spec(self.b13),
            ),
            y: self.a.mul_spec(v.y).add_spec(v.x.mul_spec(self.b12)).sub_spec(
                v.z.mul_spec(self.b23),
            ),
            z: self.a.mul_spec(v.z).add_spec(v.x.mul_spec(self.b13)).add_spec(
                v.y.mul_spec(self.b23),
            ),
        }
    }

    /// First half of the sandwich product: the trivector part of `self * v`.
    pub open spec fn trivector_spec(self, v: Vector3) -> Scalar {
        v.x.mul_spec(self.b23).sub_spec(v.y.mul_spec(self.b13)).add_spec(v.z.mul_spec(self.b12))
    }

    /// Second half of the sandwich product: from the vector part `q` and the
    /// trivector part `q321` of the first half to the turned vector.
    pub open spec fn finish_turn_spec(self, q: Vector3, q321: Scalar) -> Vector3 {
        Vector3 {
            x: self.a.mul_spec(q.x).sub_spec(q.y.mul_spec(self.b12)).sub_spec(
                q.z.mul_spec(self.b13),
            ).add_spec(q321.mul_spec(self.b23)),
            y: self.a.mul_spec(q.y).add_spec(q.x.mul_spec(self.b12)).sub_spec(
                q.z.mul_spec(self.b23),
            ).sub_spec(q321.mul_spec(self.b13)),
            z: self.a.mul_spec(q.z).add_spec(q.x.mul_spec(self.b13)).add_spec(
                q.y.mul_spec(self.b23),
            ).add_spec(q321.mul_spec(self.b12)),
        }
    }

    /// The sandwich product of this rotor with `v`.
    pub open spec fn rotate_vector_spec(self, v: Vector3) -> Vector3 {
        self.finish_turn_spec(self.half_turn_spec(v), self.trivector_spec(v))
    }

    /// The rotor of a bivector: the scalar is one minus the bivector's
    /// length, but not below zero; the whole is then scaled to unit length.
    pub open spec fn from_bivector_spec(bv: BiVector3) -> Rotor3 {
        let a = Scalar::one_spec().sub_spec(bv.length_spec());
        Rotor3::parts_spec(Scalar::zero_spec().max_spec(a), bv).normal_spec()
    }

    /// This rotor's bivector scaled by `s`, made a rotor again.
    pub open spec fn scale_spec(self, s: Scalar) -> Rotor3 {
        Rotor3::from_bivector_spec(self.bivector_spec().scale_spec(s))
    }

    /// The rotor between `from` and `to` before scaling: scalar
    /// `1 + to . from`, bivector `to ^ from`.
    pub open spec fn between_spec(from: Vector3, to: Vector3) -> Rotor3 {
        Rotor3::parts_spec(Scalar::one_spec().add_spec(to.dot_spec(from)), outer_spec(to, from))
    }

    /// A half turn in a plane that holds `from`: the plane spanned with the
    /// first axis, or with the second axis where `from` lies along the first.
    pub open spec fn half_turn_about_spec(from: Vector3) -> Rotor3 {
        let axis = if from.y@ == 0 && from.z@ == 0 {
            Vector3::ints_spec(0, 1, 0)
        } else {
            Vector3::ints_spec(1, 0, 0)
        };
        Rotor3::parts_spec(Scalar::zero_spec(), outer_spec(axis, from).normal_spec())
    }

    /// The rotor between `from` and `to`, of unit length. Its sandwich
    /// product takes the direction `to` to the direction `from`, that of
    /// its reverse takes `from` to `to`. Where the two are opposite, so
    /// that the rotor before scaling has length zero, a half turn about an
    /// axis orthogonal to `from` stands in.
    pub open spec fn from_vectors_spec(from: Vector3, to: Vector3) -> Rotor3 {
        let r = Rotor3::between_spec(from, to);
        if r.length_spec()@ == 0 {
            Rotor3::half_turn_about_spec(from)
        } else {
            r.normal_spec()
        }
    }

    /// The rotor by the cosine and sine of half the angle, in the plane `plane`.
    pub open spec fn from_angle_and_axis_spec(
        cos_half: Scalar,
        sin_half: Scalar,
        plane: BiVector3,
    ) -> Rotor3 {
        let p = plane.normal_spec();
        let s = sin_half.neg_spec();
        Rotor3 { a: cos_half, b12: s.mul_spec(p.b12), b13: s.mul_spec(p.b13), b23: s.mul_spec(p.b23) }
            .normal_spec()
    }

    /// This rotor turned by `r`: `self * r * reverse(self)`, scaled to unit length.
    pub open spec fn rotate_by_rotor_spec(self, r: Rotor3) -> Rotor3 {
        self.mul_spec(r).mul_spec(self.reverse_spec()).normal_spec()
    }

    /// Blend from this rotor toward `to`: the difference rotor
    /// `to * reverse(self)`, scaled by `t` limited to `[0, 1]`, composed with `self`.
    pub open spec fn slerp_spec(self, to: Rotor3, t: Scalar) -> Rotor3 {
        let s = t.clamp_spec(Scalar::zero_spec(), Scalar::one_spec());
        to.mul_spec(self.reverse_spec()).scale_spec(s).mul_spec(self)
    }

    /// The bivectors added, the scalar kept, scaled to unit length.
    pub open spec fn add_spec(self, rhs: Rotor3) -> Rotor3 {
        Rotor3 {
            a: self.a,
            b12: self.b12.add_spec(rhs.b12),
            b13: self.b13.add_spec(rhs.b13),
            b23: self.b23.add_spec(rhs.b23),
        }.normal_spec()
    }

    /// All four components subtracted, scaled to unit length.
    pub open spec fn sub_spec(self, rhs: Rotor3) -> Rotor3 {
        Rotor3 {
            a: self.a.sub_spec(rhs.a),
            b12: self.b12.sub_spec(rhs.b12),
            b13: self.b13.sub_spec(rhs.b13),
            b23: self.b23.sub_spec(rhs.b23),
        }.normal_spec()
    }

    /// This rotor composed with the rotor between its forward direction
    /// and the direction that it gives to `toward`.
    pub open spec fn turn_spec(self, toward: Vector3) -> Rotor3 {
        self.mul_spec(
            Rotor3::from_vectors_spec(
                self.rotate_vector_spec(Vector3::ints_spec(0, 0, 1)),
                self.rotate_vector_spec(toward),
            ),
        )
    }

    /// The rotation matrix of this rotor, as three columns.
    pub open spec fn to_matrix3_spec(self) -> [[Scalar; 3]; 3] {
        let v0 = self.rotate_vector_spec(Vector3::ints_spec(1, 0, 0));
        let v1 = self.rotate_vector_spec(Vector3::ints_spec(0, 1, 0));
        let v2 = self.rotate_vector_spec(Vector3::ints_spec(0, 0, 1));
        [[v0.x, v0.y, v0.z], [v1.x, v1.y, v1.z], [
            v2.x.neg_spec(),
            v2.y.neg_spec(),
            v2.z.neg_spec(),
        ]]
    }

    /// The rotor `(a, b12, b13, b23)`, as given.
    pub fn new(a: Scalar, b12: Scalar, b13: Scalar, b23: Scalar) -> (r: Rotor3)
        ensures
            r == (Rotor3 { a, b12, b13, b23 }),
    {
        Rotor3 { a, b12, b13, b23 }
    }

    /// The rotor that turns nothing.
    pub fn identity() -> (r: Rotor3)
        ensures
            r == Rotor3::identity_spec(),
    {
        Rotor3 { a: Scalar::one(), b12: Scalar::zero(), b13: Scalar::zero(), b23: Scalar::zero() }
    }

    /// The rotation matrix of this rotor, as three columns: what the rotor
    /// gives to the first and to the second axis, and the negative of what
    /// it gives to the third.
    pub fn to_matrix3(&self) -> (m: [[Scalar; 3]; 3])
        ensures
            m == self.to_matrix3_spec(),
    {
        let v0 = self.rotate_vector(Vector3::right());
        let v1 = self.rotate_vector(Vector3::up());
        let v2 = self.rotate_vector(Vector3::forward());
        let m = [[v0.x, v0.y, v0.z], [v1.x, v1.y, v1.z], [v2.x.neg(), v2.y.neg(), v2.z.neg()]];
        proof {
            let s = self.to_matrix3_spec();
            assert(m[0] =~= s[0]);
            assert(m[1] =~= s[1]);
            assert(m[2] =~= s[2]);
            assert(m =~= s);
        }
        m
    }

    /// The rotor from the four numbers of a quaternion `(x, y, z, w)`.
    pub fn from_quat(q: [Scalar; 4]) -> (r: Rotor3)
        ensures
            r == (Rotor3 { a: q@[3], b12: q@[2], b13: q@[1], b23: q@[0] }),
    {
        Rotor3 { a: q[3], b12: q[2], b13: q[1], b23: q[0] }
    }

    /// The bivector part.
    pub fn bivector(&self) -> (r: BiVector3)
        ensures
            r == self.bivector_spec(),
    {
        BiVector3 { b12: self.b12, b13: self.b13, b23: self.b23 }
    }

    /// The reverse, which undoes the turn of a rotor of unit length.
    pub fn reverse(&self) -> (r: Rotor3)
        ensures
            r == self.reverse_spec(),
    {
        Rotor3 { a: self.a, b12: self.b12.neg(), b13: self.b13.neg(), b23: self.b23.neg() }
    }

    /// Squared length over all four components.
    pub fn length_sqrd(&self) -> (r: Scalar)
        ensures
            r == self.length_sqrd_spec(),
    {
        self.a.mul(self.a).add(self.b12.mul(self.b12)).add(self.b13.mul(self.b13)).add(
            self.b23.mul(self.b23),
        )
    }

    /// Length over all four components.
    pub fn length(&self) -> (r: Scalar)
        ensures
            r == self.length_spec(),
    {
        Scalar::norm4(self.a, self.b12, self.b13, self.b23)
    }

    /// Squared length of the bivector part.
    pub fn mag(&self) -> (r: Scalar)
        ensures
            r == self.mag_spec(),
    {
        self.b12.mul(self.b12).add(self.b13.mul(self.b13)).add(self.b23.mul(self.b23))
    }

    /// This rotor scaled to unit length. Unless this rotor is very short or
    /// so long that its length saturates, the result has unit length up to
    /// a millionth.
    pub fn normal(&self) -> (r: Rotor3)
        ensures
            r == self.normal_spec(),
            0x40_0000 <= self.length_spec()@ < MAX_RAW ==> is_near_unit(r),
    {
        proof {
            if 0x40_0000 <= self.length_spec()@ < MAX_RAW {
                lemma_normal_is_near_unit(*self);
            }
        }
        let l = self.length();
        Rotor3 {
            a: self.a.div(l),
            b12: self.b12.div(l),
            b13: self.b13.div(l),
            b23: self.b23.div(l),
        }
    }

    /// Scales this rotor to unit length in place.
    pub fn normalize(&mut self)
        ensures
            *final(self) == old(self).normal_spec(),
            0x40_0000 <= old(self).length_spec()@ < MAX_RAW ==> is_near_unit(*final(self)),
    {
        let n = self.normal();
        self.a = n.a;
        self.b12 = n.b12;
        self.b13 = n.b13;
        self.b23 = n.b23;
    }

    /// The geometric product `self * rhs`; it is not commutative.
    pub fn mul(&self, rhs: Rotor3) -> (r: Rotor3)
        ensures
            r == self.mul_spec(rhs),
    {
        Rotor3 {
            a: self.a.mul(rhs.a).sub(self.b12.mul(rhs.b12)).sub(self.b13.mul(rhs.b13)).sub(
                self.b23.mul(rhs.b23),
            ),
            b12: self.b12.mul(rhs.a).add(self.a.mul(rhs.b12)).add(self.b23.mul(rhs.b13)).sub(
                self.b13.mul(rhs.b23),
            ),
            b13: self.b13.mul(rhs.a).add(self.a.mul(rhs.b13)).add(self.b12.mul(rhs.b23)).sub(
                self.b23.mul(rhs.b12),
            ),
            b23: self.b23.mul(rhs.a).add(self.a.mul(rhs.b23)).add(self.b13.mul(rhs.b12)).sub(
                self.b12.mul(rhs.b13),
            ),
        }
    }

    /// Turns `v` by this rotor, by the sandwich product.
    pub fn rotate_vector(&self, v: Vector3) -> (r: Vector3)
        ensures
            r == self.rotate_vector_spec(v),
    {
        let q = Vector3 {
            x: self.a.mul(v.x).sub(v.y.mul(self.b12)).sub(v.z.mul(self.b13)),
            y: self.a.mul(v.y).add(v.x.mul(self.b12)).sub(v.z.mul(self.b23)),
            z: self.a.mul(v.z).add(v.x.mul(self.b13)).add(v.y.mul(self.b23)),
        };
        let q321 = v.x.mul(self.b23).sub(v.y.mul(self.b13)).add(v.z.mul(self.b12));
        Vector3 {
            x: self.a.mul(q.x).sub(q.y.mul(self.b12)).sub(q.z.mul(self.b13)).add(
                q321.mul(self.b23),
            ),
            y: self.a.mul(q.y).add(q.x.mul(self.b12)).sub(q.z.mul(self.b23)).sub(
                q321.mul(self.b13),
            ),
            z: self.a.mul(q.z).add(q.x.mul(self.b13)).add(q.y.mul(self.b23)).add(
                q321.mul(self.b12),
            ),
        }
    }

    /// The rotor of a bivector.
    pub fn from_bivector(bv: BiVector3) -> (r: Rotor3)
        ensures
            r == Rotor3::from_bivector_spec(bv),
    {
        let a = Scalar::one().sub(bv.length());
        Rotor3 { a: Scalar::zero().max(a), b12: bv.b12, b13: bv.b13, b23: bv.b23 }.normal()
    }

    /// This rotor's bivector scaled by `s`, made a rotor again.
    pub fn scale(&self, s: Scalar) -> (r: Rotor3)
        ensures
            r == self.scale_spec(s),
    {
        Rotor3::from_bivector(self.bivector().scale(s))
    }

    /// The rotor between the directions `from` and `to`: its sandwich
    /// product takes `to` to `from`, that of its reverse takes `from` to
    /// `to`. For opposite directions it is a half turn.
    pub fn from_vectors(from: Vector3, to: Vector3) -> (r: Rotor3)
        ensures
            r == Rotor3::from_vectors_spec(from, to),
            from == to ==> r == Rotor3::identity_spec(),
            0x40_0000 <= Rotor3::between_spec(from, to).length_spec()@ < MAX_RAW ==> is_near_unit(r),
    {
        proof {
            if from == to {
                lemma_rotor_identity(from);
            }
        }
        let minus_b = outer(to, from);
        let between = Rotor3 {
            a: Scalar::one().add(to.dot(from)),
            b12: minus_b.b12,
            b13: minus_b.b13,
            b23: minus_b.b23,
        };
        if between.length().raw == 0 {
            let axis = if from.y.raw == 0 && from.z.raw == 0 {
                Vector3::from_ints(0, 1, 0)
            } else {
                Vector3::from_ints(1, 0, 0)
            };
            let mut plane = outer(axis, from);
            plane.normalize();
            Rotor3 { a: Scalar::zero(), b12: plane.b12, b13: plane.b13, b23: plane.b23 }
        } else {
            between.normal()
        }
    }

    /// The rotor by an angle in the plane `plane`, from the cosine and the
    /// sine of half the angle.
    pub fn from_angle_and_axis(cos_half: Scalar, sin_half: Scalar, plane: BiVector3) -> (r: Rotor3)
        ensures
            r == Rotor3::from_angle_and_axis_spec(cos_half, sin_half, plane),
    {
        let mut p = plane;
        p.normalize();
        let s = sin_half.neg();
        Rotor3 { a: cos_half, b12: s.mul(p.b12), b13: s.mul(p.b13), b23: s.mul(p.b23) }.normal()
    }

    /// Turns this rotor by `r` in place.
    pub fn rotate_by_rotor(&mut self, r: Rotor3)
        ensures
            *final(self) == old(self).rotate_by_rotor_spec(r),
    {
        let rev = self.reverse();
        *self = self.mul(r).mul(rev).normal();
    }

    /// Blend from this rotor toward `to` by the share `t`.
    pub fn slerp(&self, to: Rotor3, t: Scalar) -> (r: Rotor3)
        ensures
            r == self.slerp_spec(to, t),
    {
        let from_rev = self.reverse();
        let s = t.clamp(Scalar::zero(), Scalar::one());
        to.mul(from_rev).scale(s).mul(*self)
    }

    /// The bivectors added, the scalar kept, scaled to unit length.
    pub fn add(&self, rhs: Rotor3) -> (r: Rotor3)
        ensures
            r == self.add_spec(rhs),
    {
        Rotor3 {
            a: self.a,
            b12: self.b12.add(rhs.b12),
            b13: self.b13.add(rhs.b13),
            b23: self.b23.add(rhs.b23),
        }.normal()
    }

    /// All four components subtracted, scaled to unit length.
    pub fn sub(&self, rhs: Rotor3) -> (r: Rotor3)
        ensures
            r == self.sub_spec(rhs),
    {
        Rotor3 {
            a: self.a.sub(rhs.a),
            b12: self.b12.sub(rhs.b12),
            b13: self.b13.sub(rhs.b13),
            b23: self.b23.sub(rhs.b23),
        }.normal()
    }

    /// The direction that this rotor gives to `(-1, 0, 0)`.
    pub fn left(&self) -> (r: Vector3)
        ensures
            r == self.rotate_vector_spec(Vector3::ints_spec(-1, 0, 0)),
    {
        self.rotate_vector(Vector3::left())
    }

    /// The direction that this rotor gives to `(1, 0, 0)`.
    pub fn right(&self) -> (r: Vector3)
        ensures
            r == self.rotate_vector_spec(Vector3::ints_spec(1, 0, 0)),
    {
        self.rotate_vector(Vector3::right())
    }

    /// The direction that this rotor gives to `(0, 1, 0)`.
    pub fn up(&self) -> (r: Vector3)
        ensures
            r == self.rotate_vector_spec(Vector3::ints_spec(0, 1, 0)),
    {
        self.rotate_vector(Vector3::up())
    }

    /// The direction that this rotor gives to `(0, -1, 0)`.
    pub fn down(&self) -> (r: Vector3)
        ensures
            r == self.rotate_vector_spec(Vector3::ints_spec(0, -1, 0)),
    {
        self.rotate_vector(Vector3::down())
    }

    /// The direction that this rotor gives to `(0, 0, 1)`.
    pub fn forward(&self) -> (r: Vector3)
        ensures
            r == self.rotate_vector_spec(Vector3::ints_spec(0, 0, 1)),
    {
        self.rotate_vector(Vector3::forward())
    }

    /// The direction that this rotor gives to `(0, 0, -1)`.
    pub fn backward(&self) -> (r: Vector3)
        ensures
            r == self.rotate_vector_spec(Vector3::ints_spec(0, 0, -1)),
    {
        self.rotate_vector(Vector3::backward())
    }

    /// This rotor composed with the rotor between its forward direction
    /// and its left.
    pub fn turn_left(&self) -> (r: Rotor3)
        ensures
            r == self.turn_spec(Vector3::ints_spec(-1, 0, 0)),
    {
        self.mul(Rotor3::from_vectors(self.forward(), self.left()))
    }

    /// This rotor composed with the rotor between its forward direction
    /// and its right.
    pub fn turn_right(&self) -> (r: Rotor3)
        ensures
            r == self.turn_spec(Vector3::ints_spec(1, 0, 0)),
    {
        self.mul(Rotor3::from_vectors(self.forward(), self.right()))
    }

    /// This rotor composed with the rotor between its forward direction
    /// and its up.
    pub fn turn_up(&self) -> (r: Rotor3)
        ensures
            r == self.turn_spec(Vector3::ints_spec(0, 1, 0)),
    {
        self.mul(Rotor3::from_vectors(self.forward(), self.up()))
    }

    /// This rotor composed with the rotor between its forward direction
    /// and its down.
    pub fn turn_down(&self) -> (r: Rotor3)
        ensures
            r == self.turn_spec(Vector3::ints_spec(0, -1, 0)),
    {
        self.mul(Rotor3::from_vectors(self.forward(), self.down()))
    }
}

/// The tolerance of [`approx_equal`] for `dp` decimal places: one, divided
/// `dp` times by ten, each time rounded down.
pub open spec fn tolerance_spec(dp: nat) -> int
    decreases dp,
{
    if dp == 0 {
        ONE_RAW as int
    } else {
        tolerance_spec((dp - 1) as nat) / 10
    }
}

/// Whether two numbers differ by less than ten to the power of minus `dp`.
pub open spec fn approx_equal_spec(a: Scalar, b: Scalar, dp: u8) -> bool {
    a.sub_spec(b).abs_spec()@ < tolerance_spec(dp as nat)
}

/// Whether two numbers agree to `dp` decimal places: whether they differ by
/// less than ten to the power of minus `dp`. From ten places on the
/// tolerance is below the last place, and no two numbers agree.
pub fn approx_equal(a: Scalar, b: Scalar, dp: u8) -> (r: bool)
    ensures
        r == approx_equal_spec(a, b, dp),
{
    let mut p: i64 = ONE_RAW;
    let mut i: u8 = 0;
    while i < dp
        invariant
            i <= dp,
            0 <= p <= ONE_RAW,
            p == tolerance_spec(i as nat),
        decreases dp - i,
    {
        p = p / 10;
        i += 1;
    }
    a.sub(b).abs().raw < p
}

/// The rounded product does not depend on the order of its factors.
pub proof fn lemma_mul_commutes(a: Scalar, b: Scalar)
    ensures
        a.mul_spec(b) == b.mul_spec(a),
{
    reveal(Scalar::mul_spec);
    assert(a@ * b@ == b@ * a@) by (nonlinear_arith);
}

/// The rounded square of a number is not negative.
pub proof fn lemma_square_not_negative(a: Scalar)
    ensures
        a.mul_spec(a)@ >= 0,
{
    reveal(Scalar::mul_spec);
    assert(a@ * a@ >= 0) by (nonlinear_arith);
    assert((a@ * a@) / (ONE_RAW as int) >= 0) by (nonlinear_arith)
        requires
            a@ * a@ >= 0,
    ;
}

/// A positive number divided by itself is one.
pub proof fn lemma_div_self(a: Scalar)
    requires
        a@ > 0,
    ensures
        a.div_spec(a) == Scalar::one_spec(),
{
    reveal(Scalar::div_spec);
    assert((a@ * ONE_RAW) / a@ == ONE_RAW) by (nonlinear_arith)
        requires
            a@ > 0,
    ;
}

/// The rotor from a direction to itself is the identity, for every vector.
pub proof fn lemma_rotor_identity(v: Vector3)
    ensures
        Rotor3::from_vectors_spec(v, v) == Rotor3::identity_spec(),
{
    reveal(Scalar::add_spec);
    reveal(Scalar::sub_spec);
    reveal(Scalar::norm4_spec);
    lemma_mul_commutes(v.x, v.y);
    lemma_mul_commutes(v.x, v.z);
    lemma_mul_commutes(v.y, v.z);
    lemma_square_not_negative(v.x);
    lemma_square_not_negative(v.y);
    lemma_square_not_negative(v.z);
    let r = Rotor3::between_spec(v, v);
    assert(r.b12@ == 0 && r.b13@ == 0 && r.b23@ == 0);
    assert(r.a@ >= ONE_RAW);
    assert(r.a@ * r.a@ + r.b12@ * r.b12@ + r.b13@ * r.b13@ + r.b23@ * r.b23@ == r.a@ * r.a@)
        by (nonlinear_arith)
        requires
            r.b12@ == 0 && r.b13@ == 0 && r.b23@ == 0,
    ;
    lemma_floor_sqrt_square(r.a@);
    assert(r.length_spec() == r.a);
    lemma_div_self(r.a);
    assert(Scalar::zero_spec().div_spec(r.a) == Scalar::zero_spec()) by {
        reveal(Scalar::div_spec);
        assert(0int / r.a@ == 0) by (nonlinear_arith)
            requires
                r.a@ > 0,
        ;
    }
}

impl Default for Vector3 {
    /// The zero vector.
    fn default() -> (r: Vector3)
        ensures
            r == Vector3::zero_spec(),
    {
        Vector3::from_ints(0, 0, 0)
    }
}

impl Default for BiVector3 {
    /// The zero bivector.
    fn default() -> (r: BiVector3)
        ensures
            r == BiVector3::zero_spec(),
    {
        BiVector3 { b12: Scalar::zero(), b13: Scalar::zero(), b23: Scalar::zero() }
    }
}

impl Default for Rotor3 {
    /// The rotor that turns nothing.
    fn default() -> (r: Rotor3)
        ensures
            r == Rotor3::identity_spec(),
    {
        Rotor3::identity()
    }
}

} // verus!
