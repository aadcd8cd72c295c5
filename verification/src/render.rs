//! From a triangle in the world to pixels: clipping of a triangle against
//! a plane, and around it the pose of the object, lighting, the back-face
//! test, the camera, the near plane, the perspective division, the four
//! edges of the screen, and the hand-over to the rasteriser.

use crate::camera::Camera;
use crate::engine::{Corners, Frame, OLCEngine};
use crate::geometry::{intersect_plane, Plane, Triangle, UV};
use crate::math_3d::Vector3;
use crate::pixel::Pixel;
use crate::scalar::{div_raw, lemma_floor_sqrt_square, mul_raw, Scalar, ONE_RAW};
use crate::sprite::Sprite;
use crate::transform::Transform3;
use crate::util::Vf2d;
use vstd::prelude::*;

verus! {

/// The new corner on the edge from the inside corner `i` to the outside
/// corner `j`: the point where the edge meets the plane, and the texture
/// coordinates at the same share of the way.
pub open spec fn cut_corner_spec(tri: Triangle, plane: Plane, i: int, j: int) -> (Vector3, UV) {
    let t = plane.intersect_percent_spec(tri.p[i], tri.p[j]);
    (Plane::point_at_spec(tri.p[i], tri.p[j], t), tri.t[i].lerp_spec(tri.t[j], t))
}

/// What is left of a triangle whose corner `i` alone is inside: the corner
/// and the two cuts of its edges toward `j` and `k`.
pub open spec fn clip_one_inside_spec(tri: Triangle, plane: Plane, i: int, j: int, k: int) -> Triangle {
    let x0 = cut_corner_spec(tri, plane, i, j);
    let x1 = cut_corner_spec(tri, plane, i, k);
    Triangle { p: [tri.p[i], x0.0, x1.0], t: [tri.t[i], x0.1, x1.1], c: tri.c, l: tri.l }
}

/// What is left of a triangle whose corners `i` and `j` are inside and
/// whose corner `k` is outside: the two triangles of the remaining quad.
pub open spec fn clip_two_inside_spec(tri: Triangle, plane: Plane, i: int, j: int, k: int) -> Seq<
    Triangle,
> {
    let x0 = cut_corner_spec(tri, plane, i, k);
    let x1 = cut_corner_spec(tri, plane, j, k);
    seq![
        Triangle { p: [tri.p[i], tri.p[j], x0.0], t: [tri.t[i], tri.t[j], x0.1], c: tri.c, l: tri.l },
        Triangle { p: [tri.p[j], x0.0, x1.0], t: [tri.t[j], x0.1, x1.1], c: tri.c, l: tri.l },
    ]
}

/// How many corners of the triangle are inside the plane.
pub open spec fn inside_count(tri: Triangle, plane: Plane) -> int {
    (if plane.is_inside(tri.p[0]) {
        1int
    } else {
        0int
    }) + (if plane.is_inside(tri.p[1]) {
        1int
    } else {
        0int
    }) + (if plane.is_inside(tri.p[2]) {
        1int
    } else {
        0int
    })
}

/// The part of a triangle on the inside of a plane, as zero, one or two
/// triangles. Inside and outside corners keep their order.
pub open spec fn clip_spec(tri: Triangle, plane: Plane) -> Seq<Triangle> {
    let in0 = plane.is_inside(tri.p[0]);
    let in1 = plane.is_inside(tri.p[1]);
    let in2 = plane.is_inside(tri.p[2]);
    if in0 && in1 && in2 {
        seq![tri]
    } else if !in0 && !in1 && !in2 {
        Seq::empty()
    } else if in0 && !in1 && !in2 {
        seq![clip_one_inside_spec(tri, plane, 0, 1, 2)]
    } else if !in0 && in1 && !in2 {
        seq![clip_one_inside_spec(tri, plane, 1, 0, 2)]
    } else if !in0 && !in1 && in2 {
        seq![clip_one_inside_spec(tri, plane, 2, 0, 1)]
    } else if in0 && in1 && !in2 {
        clip_two_inside_spec(tri, plane, 0, 1, 2)
    } else if in0 && !in1 && in2 {
        clip_two_inside_spec(tri, plane, 0, 2, 1)
    } else {
        clip_two_inside_spec(tri, plane, 1, 2, 0)
    }
}

/// Cuts the edge from the inside corner `i` to the outside corner `j`.
fn cut_corner(tri: &Triangle, plane: &Plane, i: usize, j: usize) -> (r: (Vector3, UV))
    requires
        i < 3,
        j < 3,
    ensures
        r == cut_corner_spec(*tri, *plane, i as int, j as int),
{
    let (point, t) = intersect_plane(plane, &tri.p[i], &tri.p[j]);
    (point, tri.t[i].lerp(tri.t[j], t))
}

/// What is left of a triangle whose corner `i` alone is inside.
fn clip_one_inside(tri: &Triangle, plane: &Plane, i: usize, j: usize, k: usize) -> (r: Triangle)
    requires
        i < 3,
        j < 3,
        k < 3,
    ensures
        r == clip_one_inside_spec(*tri, *plane, i as int, j as int, k as int),
{
    let x0 = cut_corner(tri, plane, i, j);
    let x1 = cut_corner(tri, plane, i, k);
    Triangle { p: [tri.p[i], x0.0, x1.0], t: [tri.t[i], x0.1, x1.1], c: tri.c, l: tri.l }
}

/// What is left of a triangle whose corners `i` and `j` are inside.
fn clip_two_inside(tri: &Triangle, plane: &Plane, i: usize, j: usize, k: usize) -> (r: Vec<Triangle>)
    requires
        i < 3,
        j < 3,
        k < 3,
    ensures
        r@ == clip_two_inside_spec(*tri, *plane, i as int, j as int, k as int),
{
    let x0 = cut_corner(tri, plane, i, k);
    let x1 = cut_corner(tri, plane, j, k);
    let mut v: Vec<Triangle> = Vec::new();
    v.push(
        Triangle { p: [tri.p[i], tri.p[j], x0.0], t: [tri.t[i], tri.t[j], x0.1], c: tri.c, l: tri.l },
    );
    v.push(Triangle { p: [tri.p[j], x0.0, x1.0], t: [tri.t[j], x0.1, x1.1], c: tri.c, l: tri.l });
    assert(v@ =~= clip_two_inside_spec(*tri, *plane, i as int, j as int, k as int));
    v
}

/// Whether the point is inside the plane: its distance is not negative.
pub fn is_inside(plane: &Plane, p: &Vector3) -> (r: bool)
    ensures
        r == plane.is_inside(*p),
{
    plane.distance(*p).raw >= 0
}

/// Clips a triangle against a plane and returns what lies on the inside:
/// the triangle itself, nothing, one triangle or the two triangles of a quad.
pub fn clip_against_plane(tri: &Triangle, plane: &Plane) -> (v: Vec<Triangle>)
    ensures
        v@ == clip_spec(*tri, *plane),
        inside_count(*tri, *plane) == 3 ==> v@ == seq![*tri],
        inside_count(*tri, *plane) == 0 ==> v@.len() == 0,
        inside_count(*tri, *plane) == 1 ==> v@.len() == 1,
        inside_count(*tri, *plane) == 2 ==> v@.len() == 2,
{
    let in0 = is_inside(plane, &tri.p[0]);
    let in1 = is_inside(plane, &tri.p[1]);
    let in2 = is_inside(plane, &tri.p[2]);
    let mut v: Vec<Triangle> = Vec::new();
    if in0 && in1 && in2 {
        v.push(*tri);
    } else if !in0 && !in1 && !in2 {
    } else if in0 && !in1 && !in2 {
        v.push(clip_one_inside(tri, plane, 0, 1, 2));
    } else if !in0 && in1 && !in2 {
        v.push(clip_one_inside(tri, plane, 1, 0, 2));
    } else if !in0 && !in1 && in2 {
        v.push(clip_one_inside(tri, plane, 2, 0, 1));
    } else if in0 && in1 && !in2 {
        v = clip_two_inside(tri, plane, 0, 1, 2);
    } else if in0 && !in1 && in2 {
        v = clip_two_inside(tri, plane, 0, 2, 1);
    } else {
        v = clip_two_inside(tri, plane, 1, 2, 0);
    }
    proof {
        lemma_clip_len(*tri, *plane);
        assert(v@ =~= clip_spec(*tri, *plane));
    }
    v
}

/// The number of triangles that clipping leaves, by the number of inside corners.
pub proof fn lemma_clip_len(tri: Triangle, plane: Plane)
    ensures
        inside_count(tri, plane) == 3 ==> clip_spec(tri, plane) == seq![tri],
        inside_count(tri, plane) == 0 ==> clip_spec(tri, plane).len() == 0,
        inside_count(tri, plane) == 1 ==> clip_spec(tri, plane).len() == 1,
        inside_count(tri, plane) == 2 ==> clip_spec(tri, plane).len() == 2,
        0 <= inside_count(tri, plane) <= 3,
{
    let in0 = plane.is_inside(tri.p[0]);
    let in1 = plane.is_inside(tri.p[1]);
    let in2 = plane.is_inside(tri.p[2]);
    if in0 && in1 && in2 {
    } else if !in0 && !in1 && !in2 {
    } else if in0 && !in1 && !in2 {
    } else if !in0 && in1 && !in2 {
    } else if !in0 && !in1 && in2 {
    } else if in0 && in1 && !in2 {
        assert(clip_two_inside_spec(tri, plane, 0, 1, 2).len() == 2);
    } else if in0 && !in1 && in2 {
        assert(clip_two_inside_spec(tri, plane, 0, 2, 1).len() == 2);
    } else {
        assert(clip_two_inside_spec(tri, plane, 1, 2, 0).len() == 2);
    }
}

/// A corner of an object, carried into the world by the object's pose.
pub open spec fn to_world_spec(transform: Transform3, p: Vector3) -> Vector3 {
    transform.rot.rotate_vector_spec(p).add_spec(transform.pos)
}

/// The unit normal of the face with corners `w0`, `w1`, `w2`.
pub open spec fn face_normal_spec(w0: Vector3, w1: Vector3, w2: Vector3) -> Vector3 {
    w1.sub_spec(w0).cross_spec(w2.sub_spec(w0)).normal_spec()
}

/// The direction of the light: the camera's position plus its forward
/// direction, scaled to unit length.
pub open spec fn light_dir_spec(camera: Camera) -> Vector3 {
    camera.transform.pos.add_spec(camera.transform.forward_spec()).normal_spec()
}

/// A face is kept where its normal points against the ray from the camera
/// to its first corner.
pub open spec fn faces_camera_spec(camera: Camera, normal: Vector3, w0: Vector3) -> bool {
    normal.dot_spec(w0.sub_spec(camera.transform.pos))@ < 0
}

/// A point of the world in the camera's frame: the camera's position taken
/// off, then the camera's rotation undone.
pub open spec fn to_camera_spec(camera: Camera, v: Vector3) -> Vector3 {
    camera.inv_camera_rot.rotate_vector_spec(v.sub_spec(camera.transform.pos))
}

/// The camera's near plane, in the camera's frame.
pub open spec fn near_plane_spec(camera: Camera) -> Plane {
    facing_plane_spec(camera.clip_near)
}

/// The plane at the height `near` of the third axis that faces along that axis.
pub open spec fn facing_plane_spec(near: Scalar) -> Plane {
    Plane {
        p: Vector3 { x: Scalar::zero_spec(), y: Scalar::zero_spec(), z: near },
        n: Vector3::ints_spec(0, 0, 1),
    }
}

/// A corner in the camera's frame, carried to the screen. With `z' = 1/z`:
/// `x' = x / aspect / fov * z'`, `y' = y / fov * z'`, and in pixels
/// `(x' + 1) * h_w`, `(y' + 1) * h_h`; the third coordinate becomes `z'`.
pub open spec fn project_point_spec(camera: Camera, p: Vector3) -> Vector3 {
    let one = Scalar::one_spec();
    let z = one.div_spec(p.z);
    let x = p.x.div_spec(camera.aspect).div_spec(camera.fov).mul_spec(z);
    let y = p.y.div_spec(camera.fov).mul_spec(z);
    Vector3 { x: x.add_spec(one).mul_spec(camera.h_w), y: y.add_spec(one).mul_spec(camera.h_h), z }
}

/// The texture coordinates of a corner at depth `z`, each scaled by `1/z`.
pub open spec fn project_uv_spec(t: UV, z: Scalar) -> UV {
    t.scale_spec(Scalar::one_spec().div_spec(z))
}

/// A triangle in the camera's frame, carried to the screen, with colour `c`.
pub open spec fn project_triangle_spec(camera: Camera, tri: Triangle, c: Pixel) -> Triangle {
    Triangle {
        p: [
            project_point_spec(camera, tri.p[0]),
            project_point_spec(camera, tri.p[1]),
            project_point_spec(camera, tri.p[2]),
        ],
        t: [
            project_uv_spec(tri.t[0], tri.p[0].z),
            project_uv_spec(tri.t[1], tri.p[1].z),
            project_uv_spec(tri.t[2], tri.p[2].z),
        ],
        c,
        l: tri.l,
    }
}

/// A triangle of an object in the camera's frame, lit, before clipping.
pub open spec fn camera_triangle_spec(camera: Camera, tri: Triangle, transform: Transform3) -> Triangle {
    let w0 = to_world_spec(transform, tri.p[0]);
    let w1 = to_world_spec(transform, tri.p[1]);
    let w2 = to_world_spec(transform, tri.p[2]);
    Triangle {
        p: [to_camera_spec(camera, w0), to_camera_spec(camera, w1), to_camera_spec(camera, w2)],
        t: tri.t,
        c: tri.c,
        l: face_normal_spec(w0, w1, w2).dot_spec(light_dir_spec(camera)),
    }
}

/// Whether a triangle of an object, in its pose, shows its front to the camera.
pub open spec fn is_front_face_spec(camera: Camera, tri: Triangle, transform: Transform3) -> bool {
    let w0 = to_world_spec(transform, tri.p[0]);
    let w1 = to_world_spec(transform, tri.p[1]);
    let w2 = to_world_spec(transform, tri.p[2]);
    faces_camera_spec(camera, face_normal_spec(w0, w1, w2), w0)
}

/// The triangles on the screen that a triangle of an object gives: none
/// for a back face; else the triangle in the camera's frame, clipped
/// against the near plane, and each part carried to the screen.
pub open spec fn render_tri_ga_spec(camera: Camera, tri: Triangle, transform: Transform3) -> Seq<
    Triangle,
> {
    if is_front_face_spec(camera, tri, transform) {
        clip_spec(camera_triangle_spec(camera, tri, transform), near_plane_spec(camera)).map_values(
            |t: Triangle| project_triangle_spec(camera, t, tri.c),
        )
    } else {
        Seq::empty()
    }
}

/// Where a point of the world lies on the screen, without clipping. A
/// point nearer than a tenth in front of the camera, or behind it, gives
/// the sentinel `(-1, -1)`.
pub open spec fn world_to_screen_spec(camera: Camera, point: Vector3) -> Vf2d {
    let p = to_camera_spec(camera, point);
    if p.z@ < Scalar::ratio_spec(1, 10)@ {
        Vf2d { x: Scalar::int_spec(-1), y: Scalar::int_spec(-1) }
    } else {
        let s = project_point_spec(camera, p);
        Vf2d { x: s.x, y: s.y }
    }
}

/// A point of the world in the camera's frame.
pub fn to_camera(camera: &Camera, v: Vector3) -> (r: Vector3)
    ensures
        r == to_camera_spec(*camera, v),
{
    camera.inv_camera_rot.rotate_vector(v.sub(camera.transform.pos))
}

/// A corner in the camera's frame, carried to the screen.
pub fn project_point(camera: &Camera, p: Vector3) -> (r: Vector3)
    ensures
        r == project_point_spec(*camera, p),
{
    let one = Scalar::one();
    let z = one.div(p.z);
    let x = p.x.div(camera.aspect).div(camera.fov).mul(z);
    let y = p.y.div(camera.fov).mul(z);
    Vector3 { x: x.add(one).mul(camera.h_w), y: y.add(one).mul(camera.h_h), z }
}

/// A triangle in the camera's frame, carried to the screen, with colour `c`.
fn project_triangle(camera: &Camera, tri: &Triangle, c: Pixel) -> (r: Triangle)
    ensures
        r == project_triangle_spec(*camera, *tri, c),
{
    let one = Scalar::one();
    Triangle {
        p: [
            project_point(camera, tri.p[0]),
            project_point(camera, tri.p[1]),
            project_point(camera, tri.p[2]),
        ],
        t: [
            tri.t[0].scale(one.div(tri.p[0].z)),
            tri.t[1].scale(one.div(tri.p[1].z)),
            tri.t[2].scale(one.div(tri.p[2].z)),
        ],
        c,
        l: tri.l,
    }
}

/// Carries one triangle of an object to the screen: the object's pose is
/// applied, the face is lit and tested for facing the camera, taken into
/// the camera's frame, clipped against the near plane and projected. The
/// result holds at most two triangles, in pixel coordinates, with texture
/// coordinates divided by depth.
pub fn render_tri_ga(camera: Camera, tri: &Triangle, transform: &Transform3) -> (r: Vec<Triangle>)
    ensures
        r@ == render_tri_ga_spec(camera, *tri, *transform),
        !is_front_face_spec(camera, *tri, *transform) ==> r@.len() == 0,
        r@.len() <= 2,
{
    let w0 = transform.rot.rotate_vector(tri.p[0]).add(transform.pos);
    let w1 = transform.rot.rotate_vector(tri.p[1]).add(transform.pos);
    let w2 = transform.rot.rotate_vector(tri.p[2]).add(transform.pos);
    let normal = w1.sub(w0).cross(w2.sub(w0)).normal();
    let light_dir = camera.transform.pos.add(camera.transform.forward()).normal();
    let mut return_tris: Vec<Triangle> = Vec::new();
    if normal.dot(w0.sub(camera.transform.pos)).raw < 0 {
        let screen_tri = Triangle {
            p: [to_camera(&camera, w0), to_camera(&camera, w1), to_camera(&camera, w2)],
            t: tri.t,
            c: tri.c,
            l: normal.dot(light_dir),
        };
        let near = Plane {
            p: Vector3 { x: Scalar::zero(), y: Scalar::zero(), z: camera.clip_near },
            n: Vector3::from_ints(0, 0, 1),
        };
        let clipped = clip_against_plane(&screen_tri, &near);
        proof {
            lemma_clip_len(screen_tri, near);
        }
        let mut i: usize = 0;
        while i < clipped.len()
            invariant
                i <= clipped.len(),
                return_tris@ == clipped@.take(i as int).map_values(
                    |t: Triangle| project_triangle_spec(camera, t, tri.c),
                ),
            decreases clipped.len() - i,
        {
            return_tris.push(project_triangle(&camera, &clipped[i], tri.c));
            assert(clipped@.take(i + 1).drop_last() =~= clipped@.take(i as int));
            assert(return_tris@ =~= clipped@.take(i + 1).map_values(
                |t: Triangle| project_triangle_spec(camera, t, tri.c),
            ));
            i += 1;
        }
        assert(clipped@.take(i as int) =~= clipped@);
    }
    return_tris
}

/// Where a point of the world lies on the screen, without clipping. The
/// sentinel `(-1, -1)` says that the point is not in front of the camera.
pub fn world_to_screen(camera: &Camera, point: Vector3) -> (r: Vf2d)
    ensures
        r == world_to_screen_spec(*camera, point),
{
    let p = to_camera(camera, point);
    if p.z.raw < Scalar::from_ratio(1, 10).raw {
        Vf2d { x: Scalar::from_int(-1), y: Scalar::from_int(-1) }
    } else {
        let s = project_point(camera, p);
        Vf2d { x: s.x, y: s.y }
    }
}

/// Every triangle of a list clipped against one plane, the parts in the
/// order of the list.
pub open spec fn clip_all_spec(tris: Seq<Triangle>, plane: Plane) -> Seq<Triangle>
    decreases tris.len(),
{
    if tris.len() == 0 {
        Seq::empty()
    } else {
        clip_all_spec(tris.drop_last(), plane) + clip_spec(tris.last(), plane)
    }
}

/// The planes through the four edges of the screen, normals inward: the
/// first row, the last row, the first column, the last column.
pub open spec fn screen_plane_spec(k: int, width: u32, height: u32) -> Plane {
    let zero = Scalar::zero_spec();
    let origin = Vector3 { x: zero, y: zero, z: zero };
    if k == 0 {
        Plane { p: origin, n: Vector3::ints_spec(0, 1, 0) }
    } else if k == 1 {
        Plane {
            p: Vector3 { x: zero, y: Scalar::whole_spec(height as nat), z: zero },
            n: Vector3::ints_spec(0, -1, 0),
        }
    } else if k == 2 {
        Plane { p: origin, n: Vector3::ints_spec(1, 0, 0) }
    } else {
        Plane {
            p: Vector3 { x: Scalar::whole_spec(width as nat), y: zero, z: zero },
            n: Vector3::ints_spec(-1, 0, 0),
        }
    }
}

/// A triangle on the screen clipped against the four edges of the screen,
/// one after the other; each plane clips all that the planes before it left.
pub open spec fn clip_to_screen_spec(tri: Triangle, width: u32, height: u32) -> Seq<Triangle> {
    clip_all_spec(
        clip_all_spec(
            clip_all_spec(
                clip_all_spec(seq![tri], screen_plane_spec(0, width, height)),
                screen_plane_spec(1, width, height),
            ),
            screen_plane_spec(2, width, height),
        ),
        screen_plane_spec(3, width, height),
    )
}

/// The corners of a triangle on the screen, as the rasteriser takes them.
pub open spec fn triangle_corners_spec(t: Triangle) -> Corners {
    Corners {
        pos1: Vf2d { x: t.p[0].x, y: t.p[0].y },
        pos2: Vf2d { x: t.p[1].x, y: t.p[1].y },
        pos3: Vf2d { x: t.p[2].x, y: t.p[2].y },
        uv1: t.t[0],
        uv2: t.t[1],
        uv3: t.t[2],
    }
}

/// The frame with one triangle drawn, textured and depth-tested, its
/// colour lit by its lighting term.
pub open spec fn draw_triangle_spec(frame: Frame, t: Triangle, spr: Option<&Sprite>) -> Frame {
    frame.drawn(
        triangle_corners_spec(t).prepared_spec(frame.width as u32, frame.height as u32),
        spr,
        t.c.scale_spec(t.l),
        true,
    )
}

/// The frame with the triangles of a list drawn in order.
pub open spec fn draw_all_spec(frame: Frame, tris: Seq<Triangle>, spr: Option<&Sprite>) -> Frame
    decreases tris.len(),
{
    if tris.len() == 0 {
        frame
    } else {
        draw_triangle_spec(draw_all_spec(frame, tris.drop_last(), spr), tris.last(), spr)
    }
}

/// The frame after each triangle of a list, in order, is clipped against
/// the edges of the screen and what is left of it is drawn.
pub open spec fn raster_triangles_spec(
    frame: Frame,
    raster_tris: Seq<Triangle>,
    spr: Option<&Sprite>,
) -> Frame
    decreases raster_tris.len(),
{
    if raster_tris.len() == 0 {
        frame
    } else {
        draw_all_spec(
            raster_triangles_spec(frame, raster_tris.drop_last(), spr),
            clip_to_screen_spec(raster_tris.last(), frame.width as u32, frame.height as u32),
            spr,
        )
    }
}

/// Clips every triangle of a list against one plane.
pub fn clip_all(tris: &Vec<Triangle>, plane: &Plane) -> (next: Vec<Triangle>)
    ensures
        next@ == clip_all_spec(tris@, *plane),
{
    let mut next: Vec<Triangle> = Vec::new();
    let mut i: usize = 0;
    while i < tris.len()
        invariant
            i <= tris.len(),
            next@ == clip_all_spec(tris@.take(i as int), *plane),
        decreases tris.len() - i,
    {
        let mut parts = clip_against_plane(&tris[i], plane);
            next.append(&mut parts);
        proof {
            assert(tris@.take(i + 1).drop_last() =~= tris@.take(i as int));
            assert(tris@.take(i + 1).last() == tris@[i as int]);
        }
        i += 1;
    }
    proof {
        assert(tris@.take(i as int) =~= tris@);
    }
    next
}

/// The plane through one of the four edges of the screen.
fn screen_plane(k: usize, width: u32, height: u32) -> (plane: Plane)
    ensures
        plane == screen_plane_spec(k as int, width, height),
{
    let zero = Scalar::zero();
    let origin = Vector3 { x: zero, y: zero, z: zero };
    if k == 0 {
        Plane { p: origin, n: Vector3::from_ints(0, 1, 0) }
    } else if k == 1 {
        Plane {
            p: Vector3 { x: zero, y: Scalar::from_u32(height), z: zero },
            n: Vector3::from_ints(0, -1, 0),
        }
    } else if k == 2 {
        Plane { p: origin, n: Vector3::from_ints(1, 0, 0) }
    } else {
        Plane {
            p: Vector3 { x: Scalar::from_u32(width), y: zero, z: zero },
            n: Vector3::from_ints(-1, 0, 0),
        }
    }
}

/// Clips a triangle on the screen against the four edges of the screen.
pub fn clip_to_screen(tri: &Triangle, width: u32, height: u32) -> (r: Vec<Triangle>)
    ensures
        r@ == clip_to_screen_spec(*tri, width, height),
{
    let mut current: Vec<Triangle> = Vec::new();
    current.push(*tri);
    assert(current@ =~= seq![*tri]);
    let mut k: usize = 0;
    while k < 4
        invariant
            k <= 4,
            k == 0 ==> current@ == seq![*tri],
            k == 1 ==> current@ == clip_all_spec(seq![*tri], screen_plane_spec(0, width, height)),
            k == 2 ==> current@ == clip_all_spec(
                clip_all_spec(seq![*tri], screen_plane_spec(0, width, height)),
                screen_plane_spec(1, width, height),
            ),
            k == 3 ==> current@ == clip_all_spec(
                clip_all_spec(
                    clip_all_spec(seq![*tri], screen_plane_spec(0, width, height)),
                    screen_plane_spec(1, width, height),
                ),
                screen_plane_spec(2, width, height),
            ),
            k == 4 ==> current@ == clip_to_screen_spec(*tri, width, height),
        decreases 4 - k,
    {
        let plane = screen_plane(k, width, height);
        let next = clip_all(&current, &plane);
        current = next;
        k += 1;
    }
    current
}

/// Draws one triangle on the screen, textured and depth-tested.
fn draw_triangle(engine: &mut OLCEngine, t: &Triangle, texture: Option<&Sprite>)
    requires
        old(engine).wf(),
        texture.is_some() ==> texture.unwrap().wf(),
    ensures
        final(engine).same_frame(*old(engine)),
        final(engine)@ == draw_triangle_spec(old(engine)@, *t, texture),
{
    engine.texture_triangle(
        Vf2d { x: t.p[0].x, y: t.p[0].y },
        Vf2d { x: t.p[1].x, y: t.p[1].y },
        Vf2d { x: t.p[2].x, y: t.p[2].y },
        t.t[0],
        t.t[1],
        t.t[2],
        texture,
        t.c.scale(t.l),
    );
}

/// Draws the triangles of a list in order.
fn draw_all(engine: &mut OLCEngine, tris: &Vec<Triangle>, texture: Option<&Sprite>)
    requires
        old(engine).wf(),
        texture.is_some() ==> texture.unwrap().wf(),
    ensures
        final(engine).same_frame(*old(engine)),
        final(engine)@ == draw_all_spec(old(engine)@, tris@, texture),
{
    let mut i: usize = 0;
    while i < tris.len()
        invariant
            i <= tris.len(),
            texture.is_some() ==> texture.unwrap().wf(),
            engine.same_frame(*old(engine)),
            engine@ == draw_all_spec(old(engine)@, tris@.take(i as int), texture),
        decreases tris.len() - i,
    {
        draw_triangle(engine, &tris[i], texture);
        proof {
            assert(tris@.take(i + 1).drop_last() =~= tris@.take(i as int));
            assert(tris@.take(i + 1).last() == tris@[i as int]);
        }
        i += 1;
    }
    proof {
        assert(tris@.take(i as int) =~= tris@);
    }
}

/// Draws triangles that are already in pixel coordinates: each in turn
/// is clipped against the four edges of the screen, and what is left of
/// it is drawn with the texture, or in its own colour where there is
/// none, lit by its lighting term and tested against the depth buffer.
pub fn raster_triangles(engine: &mut OLCEngine, raster_tris: Vec<Triangle>, texture: Option<&Sprite>)
    requires
        old(engine).wf(),
        texture.is_some() ==> texture.unwrap().wf(),
    ensures
        final(engine).same_frame(*old(engine)),
        final(engine)@ == raster_triangles_spec(old(engine)@, raster_tris@, texture),
{
    let mut i: usize = 0;
    while i < raster_tris.len()
        invariant
            i <= raster_tris.len(),
            texture.is_some() ==> texture.unwrap().wf(),
            engine.same_frame(*old(engine)),
            engine@ == raster_triangles_spec(old(engine)@, raster_tris@.take(i as int), texture),
        decreases raster_tris.len() - i,
    {
        let clipped = clip_to_screen(&raster_tris[i], engine.pixels_w, engine.pixels_h);
        draw_all(engine, &clipped, texture);
        proof {
            assert(raster_tris@.take(i + 1).drop_last() =~= raster_tris@.take(i as int));
            assert(raster_tris@.take(i + 1).last() == raster_tris@[i as int]);
        }
        i += 1;
    }
    proof {
        assert(raster_tris@.take(i as int) =~= raster_tris@);
    }
}

/// A triangle whose three corners are inside the plane comes back unchanged.
pub proof fn lemma_clip_keeps_inside_triangle(tri: Triangle, plane: Plane)
    requires
        plane.is_inside(tri.p[0]),
        plane.is_inside(tri.p[1]),
        plane.is_inside(tri.p[2]),
    ensures
        clip_spec(tri, plane) == seq![tri],
{
}

/// A triangle whose three corners are strictly outside the plane leaves nothing.
pub proof fn lemma_clip_drops_outside_triangle(tri: Triangle, plane: Plane)
    requires
        !plane.is_inside(tri.p[0]),
        !plane.is_inside(tri.p[1]),
        !plane.is_inside(tri.p[2]),
    ensures
        clip_spec(tri, plane) == Seq::<Triangle>::empty(),
{
}

/// Where the corner `i` alone is inside, and `j` and `k` are the outside
/// corners in their order, one triangle is left. It starts at corner `i`,
/// and each of its two new corners lies on an edge from `i`: its position
/// and its texture coordinates are taken at one and the same share `t` of
/// the way along that edge, the share at which the edge meets the plane.
pub proof fn lemma_clip_attributes_follow_position(
    tri: Triangle,
    plane: Plane,
    i: int,
    j: int,
    k: int,
)
    requires
        0 <= i < 3,
        0 <= j < k < 3,
        i != j,
        i != k,
        plane.is_inside(tri.p[i]),
        !plane.is_inside(tri.p[j]),
        !plane.is_inside(tri.p[k]),
    ensures
        clip_spec(tri, plane).len() == 1,
        ({
            let out = clip_spec(tri, plane)[0];
            let tj = plane.intersect_percent_spec(tri.p[i], tri.p[j]);
            let tk = plane.intersect_percent_spec(tri.p[i], tri.p[k]);
            &&& out.p[0] == tri.p[i]
            &&& out.t[0] == tri.t[i]
            &&& out.p[1] == Plane::point_at_spec(tri.p[i], tri.p[j], tj)
            &&& out.t[1] == tri.t[i].lerp_spec(tri.t[j], tj)
            &&& out.p[2] == Plane::point_at_spec(tri.p[i], tri.p[k], tk)
            &&& out.t[2] == tri.t[i].lerp_spec(tri.t[k], tk)
            &&& out.c == tri.c
            &&& out.l == tri.l
        }),
{
}

/// The first corner of the triangle that is inside the plane.
pub open spec fn first_inside(tri: Triangle, plane: Plane) -> int {
    if plane.is_inside(tri.p[0]) {
        0
    } else if plane.is_inside(tri.p[1]) {
        1
    } else {
        2
    }
}

/// The first corner of the triangle that is outside the plane.
pub open spec fn first_outside(tri: Triangle, plane: Plane) -> int {
    if !plane.is_inside(tri.p[0]) {
        0
    } else if !plane.is_inside(tri.p[1]) {
        1
    } else {
        2
    }
}

/// The last corner of the triangle that is outside the plane.
pub open spec fn last_outside(tri: Triangle, plane: Plane) -> int {
    if !plane.is_inside(tri.p[2]) {
        2
    } else if !plane.is_inside(tri.p[1]) {
        1
    } else {
        0
    }
}

/// Where exactly one corner of a triangle is inside the plane, clipping
/// leaves one triangle. Each of its two new corners has its position and
/// its texture coordinates from one and the same share `t` of the way
/// from the inside corner to an outside corner: the position is
/// `inside + (outside - inside) * t`, the texture coordinates are
/// `inside + (outside - inside) * t` likewise, and `t` is the share at
/// which that edge meets the plane.
pub proof fn lemma_clip_attribute_consistency(tri: Triangle, plane: Plane)
    requires
        inside_count(tri, plane) == 1,
    ensures
        clip_spec(tri, plane).len() == 1,
        ({
            let out = clip_spec(tri, plane)[0];
            let i = first_inside(tri, plane);
            let j = first_outside(tri, plane);
            let k = last_outside(tri, plane);
            let tj = plane.intersect_percent_spec(tri.p[i], tri.p[j]);
            let tk = plane.intersect_percent_spec(tri.p[i], tri.p[k]);
            &&& out.p[0] == tri.p[i]
            &&& out.t[0] == tri.t[i]
            &&& out.p[1] == Plane::point_at_spec(tri.p[i], tri.p[j], tj)
            &&& out.t[1] == tri.t[i].lerp_spec(tri.t[j], tj)
            &&& out.p[2] == Plane::point_at_spec(tri.p[i], tri.p[k], tk)
            &&& out.t[2] == tri.t[i].lerp_spec(tri.t[k], tk)
        }),
{
    let in0 = plane.is_inside(tri.p[0]);
    let in1 = plane.is_inside(tri.p[1]);
    if in0 {
        lemma_clip_attributes_follow_position(tri, plane, 0, 1, 2);
    } else if in1 {
        lemma_clip_attributes_follow_position(tri, plane, 1, 0, 2);
    } else {
        lemma_clip_attributes_follow_position(tri, plane, 2, 0, 1);
    }
}

/// Where two corners are inside, the two triangles that are left share the
/// cut of the first inside corner's edge, with position and texture
/// coordinates alike.
pub proof fn lemma_clip_quad_shares_corner(tri: Triangle, plane: Plane)
    requires
        inside_count(tri, plane) == 2,
    ensures
        clip_spec(tri, plane).len() == 2,
        clip_spec(tri, plane)[0].p[2] == clip_spec(tri, plane)[1].p[1],
        clip_spec(tri, plane)[0].t[2] == clip_spec(tri, plane)[1].t[1],
        clip_spec(tri, plane)[0].p[1] == clip_spec(tri, plane)[1].p[0],
        clip_spec(tri, plane)[0].t[1] == clip_spec(tri, plane)[1].t[0],
{
    let in0 = plane.is_inside(tri.p[0]);
    let in1 = plane.is_inside(tri.p[1]);
    let in2 = plane.is_inside(tri.p[2]);
    if in0 && in1 {
        lemma_quad_shares_corner(tri, plane, 0, 1, 2);
    } else if in0 && in2 {
        lemma_quad_shares_corner(tri, plane, 0, 2, 1);
    } else {
        lemma_quad_shares_corner(tri, plane, 1, 2, 0);
    }
}

/// The two triangles of a clipped quad share the cut of the first edge.
proof fn lemma_quad_shares_corner(tri: Triangle, plane: Plane, i: int, j: int, k: int)
    ensures
        clip_two_inside_spec(tri, plane, i, j, k).len() == 2,
        ({
            let q = clip_two_inside_spec(tri, plane, i, j, k);
            &&& q[0].p[2] == q[1].p[1]
            &&& q[0].t[2] == q[1].t[1]
            &&& q[0].p[1] == q[1].p[0]
            &&& q[0].t[1] == q[1].t[0]
        }),
{
}

/// Against a plane that faces along the third axis, a point is inside
/// exactly where its third coordinate is not below the plane's.
pub proof fn lemma_facing_plane_inside(near: Scalar, p: Vector3)
    ensures
        facing_plane_spec(near).is_inside(p) <==> p.z@ >= near@,
{
    let plane = facing_plane_spec(near);
    lemma_facing_plane_normal(near);
    lemma_dot_third_axis(p);
    lemma_dot_third_axis(plane.p);
    reveal(Plane::distance_spec);
    reveal(Scalar::sub_spec);
}

/// The third axis has unit length.
proof fn lemma_facing_plane_normal(near: Scalar)
    ensures
        facing_plane_spec(near).n.normal_spec() == Vector3::ints_spec(0, 0, 1),
{
    reveal(Scalar::norm3_spec);
    reveal(Scalar::div_spec);
    let one = ONE_RAW as int;
    assert(0int * 0int + 0int * 0int + one * one == one * one) by (nonlinear_arith);
    lemma_floor_sqrt_square(one);
    assert((one * one) / one == one) by (nonlinear_arith)
        requires
            one == 0x1_0000_0000,
    ;
}

/// The inner product with the third axis is the third coordinate, from
/// both sides.
proof fn lemma_dot_third_axis(p: Vector3)
    ensures
        Vector3::ints_spec(0, 0, 1).dot_spec(p) == p.z,
        p.dot_spec(Vector3::ints_spec(0, 0, 1)) == p.z,
{
    reveal(Scalar::mul_spec);
    reveal(Scalar::add_spec);
    let one = ONE_RAW as int;
    assert(0 * p.x@ == 0 && 0 * p.y@ == 0 && p.x@ * 0 == 0 && p.y@ * 0 == 0) by (nonlinear_arith);
    assert(one * p.z@ == p.z@ * one) by (nonlinear_arith);
}

/// Where a segment runs from a point not below the height `near` to a
/// point below it, the point at which it is cut by the plane at that
/// height is itself not below `near`: rounding moves the cut toward the
/// inside, never across the plane.
pub proof fn lemma_cut_stays_inside(near: Scalar, start: Vector3, end: Vector3)
    requires
        start.z@ >= near@,
        end.z@ < near@,
    ensures
        facing_plane_spec(near).intersect_spec(start, end).z@ >= near@,
        facing_plane_spec(near).is_inside(facing_plane_spec(near).intersect_spec(start, end)),
{
    let plane = facing_plane_spec(near);
    lemma_facing_plane_normal(near);
    lemma_dot_third_axis(start);
    lemma_dot_third_axis(end);
    lemma_dot_third_axis(plane.p);
    reveal(Plane::intersect_percent_spec);
    reveal(Plane::point_at_spec);
    reveal(Scalar::sub_spec);
    reveal(Scalar::add_spec);
    reveal(Scalar::mul_spec);
    reveal(Scalar::div_spec);
    let one = ONE_RAW as int;
    let num = near.sub_spec(start.z)@;
    let den = end.z.sub_spec(start.z)@;
    let t = div_raw(num, den);
    let step = mul_raw(den, t);
    assert(den <= num <= 0 && den < 0);
    let n = -num;
    let d = -den;
    let q = (n * one) / d;
    assert(0 <= q && q * d <= n * one) by (nonlinear_arith)
        requires
            q == (n * one) / d,
            n * one >= 0,
            d > 0,
    ;
    assert(0 <= t <= q);
    assert(0 <= d * t <= n * one && den * t == -(d * t)) by (nonlinear_arith)
        requires
            0 <= t <= q,
            q * d <= n * one,
            d > 0,
            den == -d,
    ;
    assert(0 <= (d * t) / one <= n);
    assert(num <= step <= 0);
    lemma_facing_plane_inside(near, plane.intersect_spec(start, end));
}

/// Clipping against the camera's near plane leaves only corners that are
/// not nearer than the near plane.
pub proof fn lemma_near_clip_depth(tri: Triangle, near: Scalar, k: int, corner: int)
    requires
        0 <= k < clip_spec(tri, facing_plane_spec(near)).len(),
        0 <= corner < 3,
    ensures
        clip_spec(tri, facing_plane_spec(near))[k].p[corner].z@ >= near@,
{
    let plane = facing_plane_spec(near);
    lemma_facing_plane_inside(near, tri.p[0]);
    lemma_facing_plane_inside(near, tri.p[1]);
    lemma_facing_plane_inside(near, tri.p[2]);
    let in0 = plane.is_inside(tri.p[0]);
    let in1 = plane.is_inside(tri.p[1]);
    let in2 = plane.is_inside(tri.p[2]);
    if in0 && in1 && in2 {
    } else if !in0 && !in1 && !in2 {
    } else if in0 && !in1 && !in2 {
        lemma_cut_stays_inside(near, tri.p[0], tri.p[1]);
        lemma_cut_stays_inside(near, tri.p[0], tri.p[2]);
    } else if !in0 && in1 && !in2 {
        lemma_cut_stays_inside(near, tri.p[1], tri.p[0]);
        lemma_cut_stays_inside(near, tri.p[1], tri.p[2]);
    } else if !in0 && !in1 && in2 {
        lemma_cut_stays_inside(near, tri.p[2], tri.p[0]);
        lemma_cut_stays_inside(near, tri.p[2], tri.p[1]);
    } else if in0 && in1 && !in2 {
        lemma_cut_stays_inside(near, tri.p[0], tri.p[2]);
        lemma_cut_stays_inside(near, tri.p[1], tri.p[2]);
    } else if in0 && !in1 && in2 {
        lemma_cut_stays_inside(near, tri.p[0], tri.p[1]);
        lemma_cut_stays_inside(near, tri.p[2], tri.p[1]);
    } else {
        lemma_cut_stays_inside(near, tri.p[1], tri.p[0]);
        lemma_cut_stays_inside(near, tri.p[2], tri.p[0]);
    }
}

} // verus!
