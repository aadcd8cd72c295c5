//! The camera: a pose, the parameters of its projection, and the matrices
//! that belong to them.

use crate::math_3d::Rotor3;
use crate::scalar::Scalar;
use crate::transform::{Mat4x4, Transform3};
use vstd::prelude::*;

verus! {

/// A camera. `h_w` and `h_h` are half the width and half the height of the
/// viewport; `inv_camera_rot` is kept equal to the reverse of the rotation
/// of `transform`, see [`Camera::wf`].
#[derive(Clone, Copy, PartialEq, Eq, Structural, Debug)]
pub struct Camera {
    pub clip_far: Scalar,
    pub clip_near: Scalar,
    pub h_w: Scalar,
    pub h_h: Scalar,
    pub transform: Transform3,
    pub inv_camera_rot: Rotor3,
    pub aspect: Scalar,
    pub fov: Scalar,
}

/// The matrix that takes depths from `[-1, 1]` to `[0, 1]`.
pub open spec fn opengl_to_wgpu_matrix_spec() -> Mat4x4 {
    let zero = Scalar::zero_spec();
    let one = Scalar::one_spec();
    let half = Scalar::ratio_spec(1, 2);
    Mat4x4 {
        m: [[one, zero, zero, zero], [zero, one, zero, zero], [zero, zero, half, zero], [
            zero,
            zero,
            half,
            one,
        ]],
    }
}

/// The matrix of a perspective projection, from the cotangent of half the
/// vertical opening angle, the aspect ratio and the two clip distances.
pub open spec fn perspective_spec(
    cot_half_fov: Scalar,
    aspect: Scalar,
    near: Scalar,
    far: Scalar,
) -> Mat4x4 {
    let zero = Scalar::zero_spec();
    let two = Scalar::int_spec(2);
    let depth = near.sub_spec(far);
    Mat4x4 {
        m: [
            [cot_half_fov.div_spec(aspect), zero, zero, zero],
            [zero, cot_half_fov, zero, zero],
            [zero, zero, far.add_spec(near).div_spec(depth), Scalar::one_spec().neg_spec()],
            [zero, zero, two.mul_spec(far).mul_spec(near).div_spec(depth), zero],
        ],
    }
}

/// The matrix that takes depths from `[-1, 1]` to `[0, 1]`.
pub fn opengl_to_wgpu_matrix() -> (r: Mat4x4)
    ensures
        r == opengl_to_wgpu_matrix_spec(),
{
    let zero = Scalar::zero();
    let one = Scalar::one();
    let half = Scalar::from_ratio(1, 2);
    let r = Mat4x4 {
        m: [[one, zero, zero, zero], [zero, one, zero, zero], [zero, zero, half, zero], [
            zero,
            zero,
            half,
            one,
        ]],
    };
    proof {
        let s = opengl_to_wgpu_matrix_spec();
        assert(r.m[0] =~= s.m[0]);
        assert(r.m[1] =~= s.m[1]);
        assert(r.m[2] =~= s.m[2]);
        assert(r.m[3] =~= s.m[3]);
        assert(r.m =~= s.m);
    }
    r
}

/// The matrix of a perspective projection.
pub fn perspective(cot_half_fov: Scalar, aspect: Scalar, near: Scalar, far: Scalar) -> (r: Mat4x4)
    ensures
        r == perspective_spec(cot_half_fov, aspect, near, far),
{
    let zero = Scalar::zero();
    let two = Scalar::from_int(2);
    let depth = near.sub(far);
    let r = Mat4x4 {
        m: [
            [cot_half_fov.div(aspect), zero, zero, zero],
            [zero, cot_half_fov, zero, zero],
            [zero, zero, far.add(near).div(depth), Scalar::one().neg()],
            [zero, zero, two.mul(far).mul(near).div(depth), zero],
        ],
    };
    proof {
        let s = perspective_spec(cot_half_fov, aspect, near, far);
        assert(r.m[0] =~= s.m[0]);
        assert(r.m[1] =~= s.m[1]);
        assert(r.m[2] =~= s.m[2]);
        assert(r.m[3] =~= s.m[3]);
        assert(r.m =~= s.m);
    }
    r
}

impl Camera {
    /// The cached inverse rotation is the reverse of the pose's rotation.
    pub open spec fn wf(self) -> bool {
        self.inv_camera_rot == self.transform.rot.reverse_spec()
    }

    /// The camera at the origin: far plane 500, near plane 1, opening 90,
    /// aspect ratio 4/3, and a viewport of no extent.
    pub open spec fn new_spec() -> Camera {
        Camera {
            clip_far: Scalar::int_spec(500),
            clip_near: Scalar::int_spec(1),
            h_w: Scalar::zero_spec(),
            h_h: Scalar::zero_spec(),
            transform: Transform3::default_spec(),
            inv_camera_rot: Rotor3::identity_spec(),
            aspect: Scalar::ratio_spec(4, 3),
            fov: Scalar::int_spec(90),
        }
    }

    /// This camera with the pose `transform`, and the cached inverse
    /// rotation that belongs to it.
    pub open spec fn with_transform_spec(self, transform: Transform3) -> Camera {
        Camera { transform, inv_camera_rot: transform.rot.reverse_spec(), ..self }
    }

    /// The camera at the origin with the default projection.
    pub fn new() -> (r: Camera)
        ensures
            r == Camera::new_spec(),
            r.wf(),
    {
        proof {
            reveal(Scalar::neg_spec);
        }
        Camera {
            clip_far: Scalar::from_int(500),
            clip_near: Scalar::from_int(1),
            h_w: Scalar::zero(),
            h_h: Scalar::zero(),
            transform: Transform3::new(),
            inv_camera_rot: Rotor3::identity(),
            aspect: Scalar::from_ratio(4, 3),
            fov: Scalar::from_int(90),
        }
    }

    /// Moves the camera to the pose `transform` and renews the cached
    /// inverse rotation.
    pub fn set_transform(&mut self, transform: Transform3)
        ensures
            *final(self) == old(self).with_transform_spec(transform),
            final(self).wf(),
    {
        self.transform = transform;
        self.inv_camera_rot = transform.rot.reverse();
    }

    /// The matrix from world space to clip space: the depth remap times the
    /// perspective projection times the view matrix of the pose.
    pub open spec fn build_view_projection_matrix_spec(self, cot_half_fov: Scalar) -> Mat4x4 {
        opengl_to_wgpu_matrix_spec().mul_spec(
            perspective_spec(cot_half_fov, self.aspect, self.clip_near, self.clip_far),
        ).mul_spec(self.transform.to_transform_matrix_spec())
    }

    /// The matrix from world space to clip space. The projection is built
    /// from the cotangent of half the opening angle.
    pub fn build_view_projection_matrix(&self, cot_half_fov: Scalar) -> (r: Mat4x4)
        ensures
            r == self.build_view_projection_matrix_spec(cot_half_fov),
    {
        let proj = perspective(cot_half_fov, self.aspect, self.clip_near, self.clip_far);
        opengl_to_wgpu_matrix().mul(&proj).mul(&self.transform.to_transform_matrix())
    }
}

impl Default for Camera {
    /// The camera at the origin with every parameter of the projection zero.
    fn default() -> (r: Camera)
        ensures
            r.wf(),
            r.transform == Transform3::default_spec(),
            r.inv_camera_rot == Rotor3::identity_spec(),
            r.clip_far@ == 0 && r.clip_near@ == 0 && r.h_w@ == 0 && r.h_h@ == 0 && r.aspect@ == 0
                && r.fov@ == 0,
    {
        proof {
            reveal(Scalar::neg_spec);
        }
        Camera {
            clip_far: Scalar::zero(),
            clip_near: Scalar::zero(),
            h_w: Scalar::zero(),
            h_h: Scalar::zero(),
            transform: Transform3::new(),
            inv_camera_rot: Rotor3::identity(),
            aspect: Scalar::zero(),
            fov: Scalar::zero(),
        }
    }
}

} // verus!
