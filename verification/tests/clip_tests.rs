use rotor_raster::geometry::{intersect_plane, intersect_plane_percent, Plane, Triangle, UV};
use rotor_raster::math_3d::Vector3;
use rotor_raster::pixel::Pixel;
use rotor_raster::render::{clip_against_plane, clip_all, clip_to_screen, is_inside};
use rotor_raster::scalar::Scalar;

fn s(x: f64) -> Scalar {
    Scalar::from_raw((x * 4294967296.0).round() as i64)
}

fn f(x: Scalar) -> f64 {
    x.raw as f64 / 4294967296.0
}

fn v(x: f64, y: f64, z: f64) -> Vector3 {
    Vector3::new(s(x), s(y), s(z))
}

fn uv(u: f64, vv: f64, w: f64) -> UV {
    UV { u: s(u), v: s(vv), w: s(w) }
}

fn tri(p: [Vector3; 3], t: [UV; 3]) -> Triangle {
    Triangle { p, t, c: Pixel::rgb(10, 20, 30), l: s(0.75) }
}

fn near(z: f64) -> Plane {
    Plane { p: v(0.0, 0.0, z), n: v(0.0, 0.0, 1.0) }
}

fn same(a: &Triangle, b: &Triangle) -> bool {
    a.p == b.p && a.t == b.t && a.c == b.c && a.l == b.l
}

fn close(a: Scalar, b: f64) -> bool {
    (f(a) - b).abs() <= 1e-8
}

fn sample() -> [UV; 3] {
    [uv(0.0, 0.0, 1.0), uv(1.0, 0.0, 1.0), uv(0.0, 1.0, 1.0)]
}

#[test]
fn clip_keeps_a_triangle_that_is_inside() {
    let t = tri([v(0.0, 0.0, 1.0), v(1.0, 0.0, 2.0), v(0.0, 1.0, 3.0)], sample());
    let out = clip_against_plane(&t, &near(0.1));
    assert_eq!(out.len(), 1);
    assert!(same(&out[0], &t));
}

#[test]
fn clip_keeps_a_triangle_on_the_plane() {
    // corners on the plane count as inside
    let t = tri([v(0.0, 0.0, 0.5), v(1.0, 0.0, 0.5), v(0.0, 1.0, 0.5)], sample());
    let out = clip_against_plane(&t, &near(0.5));
    assert_eq!(out.len(), 1);
    assert!(same(&out[0], &t));
}

#[test]
fn clip_drops_a_triangle_that_is_outside() {
    let t = tri([v(0.0, 0.0, -1.0), v(1.0, 0.0, -2.0), v(0.0, 1.0, 0.0)], sample());
    assert_eq!(clip_against_plane(&t, &near(0.1)).len(), 0);
}

#[test]
fn clip_with_one_corner_inside_leaves_one_triangle() {
    let t = tri([v(0.0, 0.0, 1.0), v(1.0, 0.0, -1.0), v(0.0, 1.0, -1.0)], sample());
    let plane = near(0.0);
    let out = clip_against_plane(&t, &plane);
    assert_eq!(out.len(), 1);
    let o = &out[0];
    assert_eq!(o.p[0], t.p[0]);
    assert_eq!(o.t[0], t.t[0]);
    // halfway along both edges
    assert_eq!(o.p[1], v(0.5, 0.0, 0.0));
    assert_eq!(o.p[2], v(0.0, 0.5, 0.0));
    assert_eq!(o.t[1], uv(0.5, 0.0, 1.0));
    assert_eq!(o.t[2], uv(0.0, 0.5, 1.0));
    assert_eq!(o.c, t.c);
    assert_eq!(o.l, t.l);
}

#[test]
fn clip_attributes_use_the_share_of_the_position() {
    let t = tri(
        [v(0.3, -0.2, -1.5), v(1.0, 0.25, 2.0), v(-0.5, 1.0, -0.7)],
        [uv(0.1, 0.9, 0.5), uv(0.8, 0.3, 2.0), uv(0.4, 0.6, 1.25)],
    );
    let plane = near(0.1);
    let out = clip_against_plane(&t, &plane);
    assert_eq!(out.len(), 1);
    let o = &out[0];
    // the second corner alone is inside; the outside corners keep their order
    assert_eq!(o.p[0], t.p[1]);
    assert_eq!(o.t[0], t.t[1]);
    let (x0, t0) = intersect_plane(&plane, &t.p[1], &t.p[0]);
    let (x1, t1) = intersect_plane(&plane, &t.p[1], &t.p[2]);
    assert_eq!(o.p[1], x0);
    assert_eq!(o.p[2], x1);
    assert_eq!(o.t[1], t.t[1].lerp(t.t[0], t0));
    assert_eq!(o.t[2], t.t[1].lerp(t.t[2], t1));
    assert_eq!(t0, intersect_plane_percent(&plane, &t.p[1], &t.p[0]));
    assert_eq!(x0, t.p[1].add(t.p[0].sub(t.p[1]).scale(t0)));
}

#[test]
fn near_plane_clip_scenario() {
    // depths (-1, 1, 1): two corners are inside, so the rest is a quad, cut in two
    let t = tri([v(0.0, 0.0, -1.0), v(1.0, 0.0, 1.0), v(0.0, 1.0, 1.0)], sample());
    let plane = near(0.1);
    let out = clip_against_plane(&t, &plane);
    assert_eq!(out.len(), 2);
    for o in out.iter() {
        for p in o.p.iter() {
            assert!(p.z.raw >= plane.p.z.raw);
        }
    }
    assert_eq!(out[0].p[0], t.p[1]);
    assert_eq!(out[0].p[1], t.p[2]);
    assert!(close(out[0].p[2].x, 0.55) && close(out[0].p[2].y, 0.0) && close(out[0].p[2].z, 0.1));
    assert_eq!(out[1].p[0], t.p[2]);
    assert_eq!(out[1].p[1], out[0].p[2]);
    assert!(close(out[1].p[2].x, 0.0) && close(out[1].p[2].y, 0.55) && close(out[1].p[2].z, 0.1));
    assert_eq!(out[1].t[1], out[0].t[2]);
    assert!(close(out[0].t[2].u, 0.55) && close(out[0].t[2].v, 0.0));
    assert!(close(out[1].t[2].u, 0.0) && close(out[1].t[2].v, 0.55));
}

#[test]
fn near_plane_clip_one_corner_in_front() {
    // depths (1, -1, -1): exactly one triangle is left, and no corner is nearer than the plane
    let t = tri([v(0.0, 0.0, 1.0), v(1.0, 0.0, -1.0), v(0.0, 1.0, -1.0)], sample());
    let plane = near(0.1);
    let out = clip_against_plane(&t, &plane);
    assert_eq!(out.len(), 1);
    for p in out[0].p.iter() {
        assert!(p.z.raw >= plane.p.z.raw);
    }
    assert!(close(out[0].p[1].x, 0.45) && close(out[0].p[1].z, 0.1));
    assert!(close(out[0].p[2].y, 0.45) && close(out[0].p[2].z, 0.1));
}

#[test]
fn clip_never_lets_a_corner_cross_the_near_plane() {
    let depths = [-7.3, -1.0, -0.001, 0.0999, 0.1, 0.1001, 0.5, 3.0, 250.0];
    let plane = near(0.1);
    for a in depths {
        for b in depths {
            for c in depths {
                let t = tri([v(0.1, 0.2, a), v(-1.3, 0.7, b), v(2.9, -4.1, c)], sample());
                let inside = [a, b, c].iter().filter(|z| s(**z).raw >= s(0.1).raw).count();
                let out = clip_against_plane(&t, &plane);
                let expected = match inside {
                    0 => 0,
                    1 => 1,
                    2 => 2,
                    _ => 1,
                };
                assert_eq!(out.len(), expected);
                for o in out.iter() {
                    for p in o.p.iter() {
                        assert!(p.z.raw >= plane.p.z.raw);
                    }
                }
            }
        }
    }
}

#[test]
fn clip_normalises_the_normal() {
    // the length of the normal does not matter
    let t = tri([v(0.0, 0.0, 1.0), v(1.0, 0.0, -1.0), v(0.0, 1.0, -1.0)], sample());
    let long = Plane { p: v(0.0, 0.0, 0.0), n: v(0.0, 0.0, 8.0) };
    let unit = Plane { p: v(0.0, 0.0, 0.0), n: v(0.0, 0.0, 1.0) };
    let a = clip_against_plane(&t, &long);
    let b = clip_against_plane(&t, &unit);
    assert_eq!(a.len(), 1);
    assert!(same(&a[0], &b[0]));
    assert_eq!(long.distance(v(0.0, 0.0, 2.5)), s(2.5));
    assert_eq!(long.distance(v(0.0, 0.0, -2.5)), s(-2.5));
    assert!(is_inside(&long, &v(5.0, 5.0, 0.0)));
    assert!(!is_inside(&long, &v(5.0, 5.0, -0.001)));
}

#[test]
fn intersect_plane_gives_point_and_share() {
    let plane = Plane { p: v(0.0, 2.0, 0.0), n: v(0.0, 1.0, 0.0) };
    let (p, t) = intersect_plane(&plane, &v(1.0, 0.0, 0.0), &v(3.0, 8.0, 4.0));
    assert_eq!(t, s(0.25));
    assert_eq!(p, v(1.5, 2.0, 1.0));
    assert_eq!(intersect_plane_percent(&plane, &v(1.0, 0.0, 0.0), &v(3.0, 8.0, 4.0)), s(0.25));
}

#[test]
fn uv_arithmetic() {
    let a = uv(0.25, 0.5, 1.0);
    let b = uv(0.75, 0.0, 3.0);
    assert_eq!(a.add(b), uv(1.0, 0.5, 4.0));
    assert_eq!(b.sub(a), uv(0.5, -0.5, 2.0));
    assert_eq!(a.scale(s(2.0)), uv(0.5, 1.0, 2.0));
    assert_eq!(a.lerp(b, s(0.5)), uv(0.5, 0.25, 2.0));
    assert_eq!(a.lerp(b, s(0.0)), a);
    assert_eq!(a.lerp(b, s(1.0)), b);
    assert_eq!(UV::new(s(0.25), s(0.5)), a);
}

#[test]
fn triangle_from_points() {
    let t = Triangle::from_points(v(1.0, 2.0, 3.0), v(4.0, 5.0, 6.0), v(7.0, 8.0, 9.0));
    assert_eq!(t.p, [v(1.0, 2.0, 3.0), v(4.0, 5.0, 6.0), v(7.0, 8.0, 9.0)]);
    assert_eq!(t.t, [uv(0.0, 0.0, 1.0); 3]);
    assert_eq!(t.c, Pixel::white());
    assert_eq!(t.l, s(1.0));
}

#[test]
fn clip_all_keeps_the_order() {
    let a = tri([v(0.0, 0.0, 1.0), v(1.0, 0.0, 1.0), v(0.0, 1.0, 1.0)], sample());
    let b = tri([v(0.0, 0.0, -1.0), v(1.0, 0.0, -1.0), v(0.0, 1.0, -1.0)], sample());
    let c = tri([v(0.0, 0.0, -1.0), v(1.0, 0.0, 1.0), v(0.0, 1.0, 1.0)], sample());
    let out = clip_all(&vec![a, b, c, a], &near(0.0));
    assert_eq!(out.len(), 4);
    assert!(same(&out[0], &a));
    assert!(same(&out[3], &a));
    let parts = clip_against_plane(&c, &near(0.0));
    assert!(same(&out[1], &parts[0]));
    assert!(same(&out[2], &parts[1]));
}

#[test]
fn clip_to_screen_cuts_at_the_four_edges() {
    // inside the screen: unchanged
    let inside = tri([v(1.0, 1.0, 0.5), v(7.0, 1.0, 0.5), v(1.0, 5.0, 0.5)], sample());
    let out = clip_to_screen(&inside, 8, 6);
    assert_eq!(out.len(), 1);
    assert!(same(&out[0], &inside));
    // outside the screen: nothing
    let outside = tri([v(-5.0, 1.0, 0.5), v(-1.0, 1.0, 0.5), v(-3.0, 5.0, 0.5)], sample());
    assert_eq!(clip_to_screen(&outside, 8, 6).len(), 0);
    // across the right edge: all that is left lies on the screen
    let across = tri([v(4.0, 1.0, 0.5), v(12.0, 1.0, 0.5), v(4.0, 5.0, 0.5)], sample());
    let parts = clip_to_screen(&across, 8, 6);
    assert_eq!(parts.len(), 2);
    for t in parts.iter() {
        for p in t.p.iter() {
            assert!(p.x.raw >= 0 && p.x.raw <= s(8.0).raw);
            assert!(p.y.raw >= 0 && p.y.raw <= s(6.0).raw);
        }
    }
    // across a corner of the screen: two edges cut
    let corner = tri([v(6.0, 4.0, 0.5), v(12.0, 4.0, 0.5), v(6.0, 10.0, 0.5)], sample());
    let parts = clip_to_screen(&corner, 8, 6);
    assert!(parts.len() >= 1);
    for t in parts.iter() {
        for p in t.p.iter() {
            assert!(p.x.raw >= 0 && p.x.raw <= s(8.0).raw);
            assert!(p.y.raw >= 0 && p.y.raw <= s(6.0).raw);
        }
    }
}
