//! Poses: a position, a rotation and a scale, and the matrix that a pose stands for.

use crate::math_3d::{Rotor3, Vector3};
use crate::scalar::Scalar;
use vstd::prelude::*;

verus! {

/// A 4x4 matrix, as four columns of four numbers: `m[c][r]` is the entry in
/// column `c` and row `r`.
#[derive(Clone, Copy, Debug)]
pub struct Mat4x4 {
    pub m: [[Scalar; 4]; 4],
}

/// A pose in space.
#[derive(Clone, Copy, PartialEq, Eq, Structural, Debug)]
pub struct Transform3 {
    pub rot: Rotor3,
    pub pos: Vector3,
    pub scale: Vector3,
}

impl Mat4x4 {
    /// The entry of the product `self * rhs` in column `c` and row `r`.
    pub open spec fn mul_entry_spec(self, rhs: Mat4x4, c: int, r: int) -> Scalar {
        self.m[0][r].mul_spec(rhs.m[c][0]).add_spec(self.m[1][r].mul_spec(rhs.m[c][1])).add_spec(
            self.m[2][r].mul_spec(rhs.m[c][2]),
        ).add_spec(self.m[3][r].mul_spec(rhs.m[c][3]))
    }

    /// Column `c` of the product `self * rhs`.
    pub open spec fn mul_column_spec(self, rhs: Mat4x4, c: int) -> [Scalar; 4] {
        [
            self.mul_entry_spec(rhs, c, 0),
            self.mul_entry_spec(rhs, c, 1),
            self.mul_entry_spec(rhs, c, 2),
            self.mul_entry_spec(rhs, c, 3),
        ]
    }

    /// The matrix product `self * rhs`.
    pub open spec fn mul_spec(self, rhs: Mat4x4) -> Mat4x4 {
        Mat4x4 {
            m: [
                self.mul_column_spec(rhs, 0),
                self.mul_column_spec(rhs, 1),
                self.mul_column_spec(rhs, 2),
                self.mul_column_spec(rhs, 3),
            ],
        }
    }

    /// The vector `v`, taken as a row with a fourth entry one, times this
    /// matrix, before the division by the fourth entry of the result.
    pub open spec fn row_spec(self, v: Vector3, r: int) -> Scalar {
        v.x.mul_spec(self.m[0][r]).add_spec(v.y.mul_spec(self.m[1][r])).add_spec(
            v.z.mul_spec(self.m[2][r]),
        ).add_spec(self.m[3][r])
    }

    /// The vector `v` carried through this matrix: the first three entries
    /// of the product, divided by the fourth where that is not zero.
    pub open spec fn multiply_vector_spec(self, v: Vector3) -> Vector3 {
        let w = self.row_spec(v, 3);
        let r = Vector3 { x: self.row_spec(v, 0), y: self.row_spec(v, 1), z: self.row_spec(v, 2) };
        if w@ != 0 {
            r.div_spec(w)
        } else {
            r
        }
    }

    fn row(&self, v: Vector3, r: usize) -> (s: Scalar)
        requires
            r < 4,
        ensures
            s == self.row_spec(v, r as int),
    {
        v.x.mul(self.m[0][r]).add(v.y.mul(self.m[1][r])).add(v.z.mul(self.m[2][r])).add(
            self.m[3][r],
        )
    }

    /// Carries the vector `v` through this matrix.
    pub fn multiply_vector(&self, v: Vector3) -> (r: Vector3)
        ensures
            r == self.multiply_vector_spec(v),
    {
        let w = self.row(v, 3);
        let r = Vector3 { x: self.row(v, 0), y: self.row(v, 1), z: self.row(v, 2) };
        if w.raw != 0 {
            r.div(w)
        } else {
            r
        }
    }

    fn mul_entry(&self, rhs: &Mat4x4, c: usize, r: usize) -> (s: Scalar)
        requires
            c < 4,
            r < 4,
        ensures
            s == self.mul_entry_spec(*rhs, c as int, r as int),
    {
        self.m[0][r].mul(rhs.m[c][0]).add(self.m[1][r].mul(rhs.m[c][1])).add(
            self.m[2][r].mul(rhs.m[c][2]),
        ).add(self.m[3][r].mul(rhs.m[c][3]))
    }

    fn mul_column(&self, rhs: &Mat4x4, c: usize) -> (col: [Scalar; 4])
        requires
            c < 4,
        ensures
            col == self.mul_column_spec(*rhs, c as int),
    {
        let col = [
            self.mul_entry(rhs, c, 0),
            self.mul_entry(rhs, c, 1),
            self.mul_entry(rhs, c, 2),
            self.mul_entry(rhs, c, 3),
        ];
        assert(col =~= self.mul_column_spec(*rhs, c as int));
        col
    }

    /// The matrix product `self * rhs`.
    pub fn mul(&self, rhs: &Mat4x4) -> (p: Mat4x4)
        ensures
            p == self.mul_spec(*rhs),
    {
        let p = Mat4x4 {
            m: [
                self.mul_column(rhs, 0),
                self.mul_column(rhs, 1),
                self.mul_column(rhs, 2),
                self.mul_column(rhs, 3),
            ],
        };
        assert(p.m =~= self.mul_spec(*rhs).m);
        p
    }
}

impl Transform3 {
    /// The pose at the origin, not rotated, with scale one.
    pub open spec fn default_spec() -> Transform3 {
        Transform3 {
            rot: Rotor3::identity_spec(),
            pos: Vector3::zero_spec(),
            scale: Vector3::ints_spec(1, 1, 1),
        }
    }

    /// The pose at `pos` with rotation `rot` and scale one.
    pub open spec fn from_parts_spec(pos: Vector3, rot: Rotor3) -> Transform3 {
        Transform3 { rot, pos, scale: Vector3::ints_spec(1, 1, 1) }
    }

    /// The three axes of the pose: the basis vectors rotated, each scaled by
    /// its own scale.
    pub open spec fn axes_spec(self) -> (Vector3, Vector3, Vector3) {
        (
            self.rot.rotate_vector_spec(Vector3::ints_spec(1, 0, 0)).scale_spec(self.scale.x),
            self.rot.rotate_vector_spec(Vector3::ints_spec(0, 1, 0)).scale_spec(self.scale.y),
            self.rot.rotate_vector_spec(Vector3::ints_spec(0, 0, 1)).scale_spec(self.scale.z),
        )
    }

    /// The view matrix of the pose. The third axis is negated throughout,
    /// except in the last column, which holds `(-pos.v0, -pos.v1, pos.v2, 1)`.
    pub open spec fn to_transform_matrix_spec(self) -> Mat4x4 {
        let (v0, v1, v2) = self.axes_spec();
        let zero = Scalar::zero_spec();
        Mat4x4 {
            m: [
                [v0.x, v1.x, v2.x.neg_spec(), zero],
                [v0.y, v1.y, v2.y.neg_spec(), zero],
                [v0.z, v1.z, v2.z.neg_spec(), zero],
                [
                    self.pos.dot_spec(v0).neg_spec(),
                    self.pos.dot_spec(v1).neg_spec(),
                    self.pos.dot_spec(v2),
                    Scalar::one_spec(),
                ],
            ],
        }
    }

    /// The direction in which the pose looks.
    pub open spec fn forward_spec(self) -> Vector3 {
        self.rot.rotate_vector_spec(Vector3::ints_spec(0, 0, 1))
    }

    /// The pose at the origin, not rotated, with scale one.
    pub fn new() -> (r: Transform3)
        ensures
            r == Transform3::default_spec(),
    {
        Transform3 { rot: Rotor3::identity(), pos: Vector3::from_ints(0, 0, 0), scale: Vector3::one() }
    }

    /// The pose at `pos` with rotation `rot` and scale one.
    pub fn from_parts(pos: Vector3, rot: Rotor3) -> (r: Transform3)
        ensures
            r == Transform3::from_parts_spec(pos, rot),
    {
        Transform3 { rot, pos, scale: Vector3::one() }
    }

    /// The view matrix of the pose.
    pub fn to_transform_matrix(&self) -> (r: Mat4x4)
        ensures
            r == self.to_transform_matrix_spec(),
    {
        let v0 = self.rot.rotate_vector(Vector3::right()).scale(self.scale.x);
        let v1 = self.rot.rotate_vector(Vector3::up()).scale(self.scale.y);
        let v2 = self.rot.rotate_vector(Vector3::forward()).scale(self.scale.z);
        let zero = Scalar::zero();
        let r = Mat4x4 {
            m: [
                [v0.x, v1.x, v2.x.neg(), zero],
                [v0.y, v1.y, v2.y.neg(), zero],
                [v0.z, v1.z, v2.z.neg(), zero],
                [self.pos.dot(v0).neg(), self.pos.dot(v1).neg(), self.pos.dot(v2), Scalar::one()],
            ],
        };
        proof {
            let s = self.to_transform_matrix_spec();
            assert(r.m[0] =~= s.m[0]);
            assert(r.m[1] =~= s.m[1]);
            assert(r.m[2] =~= s.m[2]);
            assert(r.m[3] =~= s.m[3]);
            assert(r.m =~= s.m);
        }
        r
    }

    /// The direction in which the pose looks.
    pub fn forward(&self) -> (r: Vector3)
        ensures
            r == self.forward_spec(),
    {
        self.rot.rotate_vector(Vector3::forward())
    }
}

impl Default for Transform3 {
    fn default() -> (r: Transform3)
        ensures
            r == Transform3::default_spec(),
    {
        Transform3::new()
    }
}

} // verus!
