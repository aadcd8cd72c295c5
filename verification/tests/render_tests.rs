use rotor_raster::camera::{opengl_to_wgpu_matrix, perspective, Camera};
use rotor_raster::engine::OLCEngine;
use rotor_raster::geometry::{Triangle, UV};
use rotor_raster::math_3d::{BiVector3, Rotor3, Vector3};
use rotor_raster::pixel::Pixel;
use rotor_raster::render::{project_point, raster_triangles, render_tri_ga, to_camera, world_to_screen};
use rotor_raster::scalar::Scalar;
use rotor_raster::sprite::Sprite;
use rotor_raster::transform::{Mat4x4, Transform3};
use rotor_raster::util::Vf2d;

fn s(x: f64) -> Scalar {
    Scalar::from_raw((x * 4294967296.0).round() as i64)
}

fn f(x: Scalar) -> f64 {
    x.raw as f64 / 4294967296.0
}

fn v(x: f64, y: f64, z: f64) -> Vector3 {
    Vector3::new(s(x), s(y), s(z))
}

fn uv(u: f64, vv: f64, w: f64) -> UV {
    UV { u: s(u), v: s(vv), w: s(w) }
}

fn close(a: Scalar, b: f64) -> bool {
    (f(a) - b).abs() <= 1e-7
}

/// A camera at the origin that looks along the third axis, field scale one,
/// on a screen of 200 by 100 pixels.
fn camera() -> Camera {
    let mut c = Camera::new();
    c.fov = s(1.0);
    c.aspect = s(2.0);
    c.clip_near = s(0.5);
    c.h_w = s(100.0);
    c.h_h = s(50.0);
    c
}

/// A triangle whose front faces a camera at the origin.
fn front() -> Triangle {
    Triangle {
        p: [v(0.0, 0.0, 2.0), v(0.0, 1.0, 2.0), v(1.0, 0.0, 2.0)],
        t: [uv(0.0, 0.0, 1.0), uv(0.0, 1.0, 1.0), uv(1.0, 0.0, 1.0)],
        c: Pixel::rgb(200, 100, 50),
        l: s(1.0),
    }
}

fn rows(m: &Mat4x4) -> [[f64; 4]; 4] {
    let mut out = [[0.0; 4]; 4];
    for c in 0..4 {
        for r in 0..4 {
            out[c][r] = f(m.m[c][r]);
        }
    }
    out
}

#[test]
fn camera_defaults() {
    let c = Camera::new();
    assert_eq!(c.clip_far, s(500.0));
    assert_eq!(c.clip_near, s(1.0));
    assert_eq!(c.fov, s(90.0));
    assert_eq!(c.aspect, Scalar::from_ratio(4, 3));
    assert_eq!(c.h_w, s(0.0));
    assert_eq!(c.h_h, s(0.0));
    assert_eq!(c.transform, Transform3::new());
    assert_eq!(c.inv_camera_rot, Rotor3::identity());
}

#[test]
fn camera_keeps_the_inverse_rotation() {
    let mut c = Camera::new();
    let rot = Rotor3::from_angle_and_axis(s(0.8), s(0.6), BiVector3::new(s(1.0), s(0.0), s(0.0)));
    let pose = Transform3::from_parts(v(1.0, 2.0, 3.0), rot);
    c.set_transform(pose);
    assert_eq!(c.transform, pose);
    assert_eq!(c.inv_camera_rot, rot.reverse());
    assert_eq!(c.clip_far, s(500.0));
}

#[test]
fn transform_default_and_forward() {
    let t = Transform3::new();
    assert_eq!(t.pos, v(0.0, 0.0, 0.0));
    assert_eq!(t.scale, v(1.0, 1.0, 1.0));
    assert_eq!(t.rot, Rotor3::identity());
    assert_eq!(t.forward(), v(0.0, 0.0, 1.0));
    assert_eq!(Transform3::default(), t);
    let p = Transform3::from_parts(v(1.0, 2.0, 3.0), Rotor3::identity());
    assert_eq!(p.pos, v(1.0, 2.0, 3.0));
    assert_eq!(p.scale, v(1.0, 1.0, 1.0));
}

#[test]
fn transform_matrix_of_a_pose() {
    let mut t = Transform3::from_parts(v(1.0, 2.0, 3.0), Rotor3::identity());
    t.scale = v(2.0, 3.0, 4.0);
    let m = rows(&t.to_transform_matrix());
    // the axes are (2,0,0), (0,3,0), (0,0,4); the third is negated in the first three columns
    assert_eq!(m[0], [2.0, 0.0, 0.0, 0.0]);
    assert_eq!(m[1], [0.0, 3.0, 0.0, 0.0]);
    assert_eq!(m[2], [0.0, 0.0, -4.0, 0.0]);
    // (-pos.v0, -pos.v1, pos.v2, 1)
    assert_eq!(m[3], [-2.0, -6.0, 12.0, 1.0]);
}

#[test]
fn perspective_matrix() {
    let m = rows(&perspective(s(1.0), s(2.0), s(1.0), s(3.0)));
    assert_eq!(m[0], [0.5, 0.0, 0.0, 0.0]);
    assert_eq!(m[1], [0.0, 1.0, 0.0, 0.0]);
    // (far + near) / (near - far) = -2, and -1
    assert_eq!(m[2], [0.0, 0.0, -2.0, -1.0]);
    // 2 far near / (near - far) = -3
    assert_eq!(m[3], [0.0, 0.0, -3.0, 0.0]);
    let remap = rows(&opengl_to_wgpu_matrix());
    assert_eq!(remap[0], [1.0, 0.0, 0.0, 0.0]);
    assert_eq!(remap[1], [0.0, 1.0, 0.0, 0.0]);
    assert_eq!(remap[2], [0.0, 0.0, 0.5, 0.0]);
    assert_eq!(remap[3], [0.0, 0.0, 0.5, 1.0]);
}

#[test]
fn view_projection_matrix() {
    let mut c = Camera::new();
    c.aspect = s(2.0);
    c.clip_near = s(1.0);
    c.clip_far = s(3.0);
    c.set_transform(Transform3::from_parts(v(1.0, 2.0, 3.0), Rotor3::identity()));
    let m = c.build_view_projection_matrix(s(1.0));
    let expected = opengl_to_wgpu_matrix().mul(&perspective(s(1.0), s(2.0), s(1.0), s(3.0))).mul(&c.transform.to_transform_matrix());
    assert_eq!(rows(&m), rows(&expected));
    let r = rows(&m);
    // remap * perspective has the columns (.5,0,0,0), (0,1,0,0), (0,0,-1.5,-1), (0,0,-1.5,0)
    assert_eq!(r[0], [0.5, 0.0, 0.0, 0.0]);
    assert_eq!(r[1], [0.0, 1.0, 0.0, 0.0]);
    assert_eq!(r[2], [0.0, 0.0, 1.5, 1.0]);
    assert_eq!(r[3], [-0.5, -2.0, -6.0, -3.0]);
}

#[test]
fn matrix_product_and_vector() {
    let id = opengl_to_wgpu_matrix();
    let p = perspective(s(1.0), s(1.0), s(1.0), s(3.0));
    // carried through the perspective matrix: (x, y, -2 z - 3) / (-z)
    let out = p.multiply_vector(v(2.0, 4.0, -2.0));
    assert_eq!(out, v(1.0, 2.0, 0.5));
    // a fourth entry of zero leaves the vector undivided
    let flat = p.multiply_vector(v(2.0, 4.0, 0.0));
    assert_eq!(flat, v(2.0, 4.0, -3.0));
    let both = rows(&id.mul(&p));
    assert_eq!(both[2], [0.0, 0.0, -1.5, -1.0]);
    assert_eq!(both[3], [0.0, 0.0, -1.5, 0.0]);
}

#[test]
fn to_camera_undoes_the_pose() {
    let mut c = camera();
    c.set_transform(Transform3::from_parts(v(1.0, 2.0, 3.0), Rotor3::identity()));
    assert_eq!(to_camera(&c, v(1.0, 2.0, 8.0)), v(0.0, 0.0, 5.0));
    let rot = Rotor3::from_vectors(v(0.0, 0.0, 1.0), v(1.0, 0.0, 0.0));
    c.set_transform(Transform3::from_parts(v(0.0, 0.0, 0.0), rot));
    let world = rot.rotate_vector(v(0.0, 0.0, 5.0));
    let back = to_camera(&c, world);
    assert!(close(back.x, 0.0) && close(back.y, 0.0) && close(back.z, 5.0));
}

#[test]
fn project_point_formula() {
    let c = camera();
    // z' = 1/4; x' = 2 / 2 / 1 * 1/4 = 1/4; y' = 1 / 1 * 1/4 = 1/4; pixels (1.25 * 100, 1.25 * 50)
    assert_eq!(project_point(&c, v(2.0, 1.0, 4.0)), v(125.0, 62.5, 0.25));
    // on the axis: the middle of the screen
    assert_eq!(project_point(&c, v(0.0, 0.0, 2.0)), v(100.0, 50.0, 0.5));
}

#[test]
fn world_to_screen_and_its_sentinel() {
    let c = camera();
    assert_eq!(world_to_screen(&c, v(2.0, 1.0, 4.0)), Vf2d::new(s(125.0), s(62.5)));
    assert_eq!(world_to_screen(&c, v(0.0, 0.0, -1.0)), Vf2d::new(s(-1.0), s(-1.0)));
    assert_eq!(world_to_screen(&c, v(3.0, 3.0, 0.05)), Vf2d::new(s(-1.0), s(-1.0)));
    // exactly a tenth away is still in front
    let tenth = Vector3::new(s(0.0), s(0.0), Scalar::from_ratio(1, 10));
    assert_ne!(world_to_screen(&c, tenth), Vf2d::new(s(-1.0), s(-1.0)));
}

#[test]
fn render_culls_back_faces() {
    let c = camera();
    let t = front();
    let pose = Transform3::new();
    assert_eq!(render_tri_ga(c, &t, &pose).len(), 1);
    // the same corners in the other order show their back
    let back = Triangle { p: [t.p[0], t.p[2], t.p[1]], ..t };
    assert_eq!(render_tri_ga(c, &back, &pose).len(), 0);
}

#[test]
fn render_projects_and_lights() {
    let c = camera();
    let t = front();
    let out = render_tri_ga(c, &t, &Transform3::new());
    assert_eq!(out.len(), 1);
    let o = &out[0];
    // z' = 1/2 at every corner
    assert_eq!(o.p[0], v(100.0, 50.0, 0.5));
    assert_eq!(o.p[1], v(100.0, 75.0, 0.5));
    assert_eq!(o.p[2], v(125.0, 50.0, 0.5));
    // texture coordinates and inverse depth are divided by the depth
    assert_eq!(o.t[0], uv(0.0, 0.0, 0.5));
    assert_eq!(o.t[1], uv(0.0, 0.5, 0.5));
    assert_eq!(o.t[2], uv(0.5, 0.0, 0.5));
    assert_eq!(o.c, t.c);
    // the normal is (0, 0, -1), the light comes along (0, 0, 1)
    assert_eq!(o.l, s(-1.0));
}

#[test]
fn render_applies_the_pose_of_the_object() {
    let c = camera();
    let t = front();
    let pose = Transform3::from_parts(v(0.0, 0.0, 2.0), Rotor3::identity());
    let out = render_tri_ga(c, &t, &pose);
    assert_eq!(out.len(), 1);
    // depth 4 now
    assert_eq!(out[0].p[0], v(100.0, 50.0, 0.25));
    assert_eq!(out[0].p[1], v(100.0, 62.5, 0.25));
    assert_eq!(out[0].t[1], uv(0.0, 0.25, 0.25));
}

#[test]
fn render_clips_at_the_near_plane() {
    let c = camera();
    // one corner behind the near plane at 0.5
    let t = Triangle {
        p: [v(0.0, 0.0, 0.25), v(0.0, 1.0, 2.0), v(1.0, 0.0, 2.0)],
        ..front()
    };
    let out = render_tri_ga(c, &t, &Transform3::new());
    assert_eq!(out.len(), 2);
    for o in out.iter() {
        for p in o.p.iter() {
            // the third coordinate is 1/z, and z is at least the near distance
            assert!(p.z.raw > 0 && p.z.raw <= s(2.0).raw);
        }
    }
    // all behind the camera: the face shows its back or is clipped away
    let behind = Triangle {
        p: [v(0.0, 0.0, -3.0), v(0.0, 1.0, -3.0), v(1.0, 0.0, -3.0)],
        ..front()
    };
    assert_eq!(render_tri_ga(c, &behind, &Transform3::new()).len(), 0);
}

#[test]
fn raster_triangles_draws_what_is_on_screen() {
    let tri = |x: f64, y: f64, w: f64, c: Pixel| Triangle {
        p: [v(x, y, 0.0), v(x + 4.0, y, 0.0), v(x, y + 4.0, 0.0)],
        t: [uv(0.0, 0.0, w), uv(0.0, 0.0, w), uv(0.0, 0.0, w)],
        c,
        l: s(0.5),
    };
    let mut e = OLCEngine::new(8, 8);
    raster_triangles(&mut e, vec![tri(1.0, 1.0, 1.0, Pixel::rgb(200, 100, 50)), tri(-20.0, 1.0, 1.0, Pixel::red())], None);
    let at = |e: &OLCEngine, x: u32, y: u32| e.draw_target.col_data[(y * 8 + x) as usize];
    // the colour is lit by the lighting term
    assert_eq!(at(&e, 1, 1), Pixel::rgb(100, 50, 25));
    assert_eq!(at(&e, 4, 1), Pixel::rgb(100, 50, 25));
    assert_eq!(at(&e, 5, 1), Pixel::blank());
    assert_eq!(at(&e, 1, 4), Pixel::rgb(100, 50, 25));
    assert_eq!(at(&e, 2, 4), Pixel::blank());
    assert_eq!(at(&e, 0, 1), Pixel::blank());
    let count = e.draw_target.col_data.iter().filter(|c| **c != Pixel::blank()).count();
    assert_eq!(count, 10);
    // a nearer triangle over the same pixels wins, whatever the order
    let near = tri(1.0, 1.0, 3.0, Pixel::rgb(0, 0, 200));
    let far = tri(1.0, 1.0, 1.0, Pixel::rgb(200, 0, 0));
    let mut a = OLCEngine::new(8, 8);
    raster_triangles(&mut a, vec![near, far], None);
    let mut b = OLCEngine::new(8, 8);
    raster_triangles(&mut b, vec![far, near], None);
    assert_eq!(at(&a, 2, 2), Pixel::rgb(0, 0, 100));
    assert_eq!(a.draw_target.col_data, b.draw_target.col_data);
    assert_eq!(a.depth_buffer, b.depth_buffer);
}

#[test]
fn raster_triangles_with_a_texture() {
    let texture = Sprite::new_with_data(2, 1, vec![Pixel::red(), Pixel::green()]).unwrap();
    let t = Triangle {
        p: [v(0.0, 0.0, 0.0), v(8.0, 0.0, 0.0), v(0.0, 8.0, 0.0)],
        t: [uv(0.0, 0.0, 1.0), uv(1.0, 0.0, 1.0), uv(0.0, 1.0, 1.0)],
        c: Pixel::white(),
        l: s(1.0),
    };
    let mut e = OLCEngine::new(8, 8);
    raster_triangles(&mut e, vec![t], Some(&texture));
    assert_eq!(e.draw_target.col_data[0], Pixel::red());
    assert_eq!(e.draw_target.col_data[6], Pixel::green());
}
