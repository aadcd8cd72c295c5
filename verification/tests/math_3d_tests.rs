use rotor_raster::math_3d::{approx_equal, outer, BiVector3, Rotor3, Vector3};
use rotor_raster::scalar::{Scalar, ONE_RAW};

fn s(x: f64) -> Scalar {
    Scalar::from_raw((x * 4294967296.0).round() as i64)
}

fn f(x: Scalar) -> f64 {
    x.raw as f64 / 4294967296.0
}

fn v(x: f64, y: f64, z: f64) -> Vector3 {
    Vector3::new(s(x), s(y), s(z))
}

fn close(a: Scalar, b: f64, tol: f64) -> bool {
    (f(a) - b).abs() <= tol
}

fn vec_close(a: Vector3, x: f64, y: f64, z: f64, tol: f64) -> bool {
    close(a.x, x, tol) && close(a.y, y, tol) && close(a.z, z, tol)
}

fn rotor_close(a: Rotor3, b: Rotor3, tol: f64) -> bool {
    close(a.a, f(b.a), tol)
        && close(a.b12, f(b.b12), tol)
        && close(a.b13, f(b.b13), tol)
        && close(a.b23, f(b.b23), tol)
}

/// A rotor of unit length from the cosine and sine of half its angle.
fn rotor(angle: f64, b12: f64, b13: f64, b23: f64) -> Rotor3 {
    let half = angle / 2.0;
    Rotor3::from_angle_and_axis(s(half.cos()), s(half.sin()), BiVector3::new(s(b12), s(b13), s(b23)))
}

#[test]
fn vector_constants() {
    assert_eq!(Vector3::left(), v(-1.0, 0.0, 0.0));
    assert_eq!(Vector3::right(), v(1.0, 0.0, 0.0));
    assert_eq!(Vector3::up(), v(0.0, 1.0, 0.0));
    assert_eq!(Vector3::down(), v(0.0, -1.0, 0.0));
    assert_eq!(Vector3::forward(), v(0.0, 0.0, 1.0));
    assert_eq!(Vector3::backward(), v(0.0, 0.0, -1.0));
    assert_eq!(Vector3::one(), v(1.0, 1.0, 1.0));
    assert_eq!(Vector3::max().x.raw, i64::MAX);
    assert_eq!(Vector3::from_ints(2, -3, 4), v(2.0, -3.0, 4.0));
}

#[test]
fn vector_arithmetic() {
    let a = v(1.0, 2.0, 3.0);
    let b = v(4.0, -5.0, 6.0);
    assert_eq!(a.add(b), v(5.0, -3.0, 9.0));
    assert_eq!(a.sub(b), v(-3.0, 7.0, -3.0));
    assert_eq!(a.scale(s(2.0)), v(2.0, 4.0, 6.0));
    assert_eq!(a.div(s(2.0)), v(0.5, 1.0, 1.5));
    assert_eq!(a.mul_components(b), v(4.0, -10.0, 18.0));
    assert_eq!(b.div_components(a), v(4.0, -2.5, 2.0));
    assert_eq!(a.div_components(v(0.0, 1.0, 1.0)).x.raw, i64::MAX);
    assert_eq!(v(0.0, 1.0, 1.0).div_components(v(0.0, 1.0, 1.0)), v(0.0, 1.0, 1.0));
}

#[test]
fn dot_and_cross() {
    let a = v(1.0, 2.0, 3.0);
    let b = v(4.0, -5.0, 6.0);
    assert_eq!(a.dot(b), s(12.0));
    assert_eq!(a.cross(b), v(27.0, 6.0, -13.0));
    assert_eq!(v(1.0, 0.0, 0.0).cross(v(0.0, 1.0, 0.0)), v(0.0, 0.0, 1.0));
    assert_eq!(a.length_sqrd(), s(14.0));
}

#[test]
fn length_and_normal() {
    assert_eq!(v(3.0, 4.0, 0.0).length(), s(5.0));
    assert_eq!(v(2.0, 3.0, 6.0).length(), s(7.0));
    assert_eq!(v(3.0, 4.0, 0.0).normal(), v(0.6, 0.8, 0.0).sub(Vector3::new(Scalar::from_raw(1), Scalar::from_raw(1), Scalar::zero())));
    assert_eq!(v(0.0, 0.0, 9.0).normal(), v(0.0, 0.0, 1.0));
    // the zero vector has no direction and stays zero
    assert_eq!(v(0.0, 0.0, 0.0).normal(), v(0.0, 0.0, 0.0));
}

#[test]
fn outer_product() {
    let b = outer(v(1.0, 0.0, 0.0), v(0.0, 1.0, 0.0));
    assert_eq!(b, BiVector3::new(s(1.0), s(0.0), s(0.0)));
    let c = outer(v(1.0, 2.0, 3.0), v(4.0, 5.0, 6.0));
    assert_eq!(c, BiVector3::new(s(-3.0), s(-6.0), s(-3.0)));
    assert_eq!(outer(v(1.0, 2.0, 3.0), v(1.0, 2.0, 3.0)), BiVector3::new(s(0.0), s(0.0), s(0.0)));
}

#[test]
fn bivector_functions() {
    let b = BiVector3::new(s(2.0), s(3.0), s(6.0));
    assert_eq!(b.length(), s(7.0));
    assert_eq!(b.length_sqrd(), s(49.0));
    assert_eq!(b.add(b), BiVector3::new(s(4.0), s(6.0), s(12.0)));
    assert_eq!(b.scale(s(0.5)), BiVector3::new(s(1.0), s(1.5), s(3.0)));
    assert_eq!(b.as_vector3(), v(6.0, 3.0, 6.0));
    let mut n = BiVector3::new(s(0.0), s(0.0), s(4.0));
    n.normalize();
    assert_eq!(n, BiVector3::new(s(0.0), s(0.0), s(1.0)));
}

#[test]
fn rotor_identity_turns_nothing() {
    let id = Rotor3::identity();
    assert_eq!(id, Rotor3::new(s(1.0), s(0.0), s(0.0), s(0.0)));
    assert_eq!(id.rotate_vector(v(1.5, -2.0, 3.25)), v(1.5, -2.0, 3.25));
    let r = Rotor3::new(s(0.5), s(0.5), s(-0.5), s(0.5));
    assert_eq!(id.mul(r), r);
    assert_eq!(r.mul(id), r);
}

#[test]
fn rotor_from_equal_vectors_is_identity() {
    for w in [v(0.0, 0.0, 1.0), v(1.0, 0.0, 0.0), v(0.3, -0.4, 1.7), v(100.0, 200.0, -50.0), v(0.0, 0.0, 0.0)] {
        assert_eq!(Rotor3::from_vectors(w, w), Rotor3::identity());
    }
    let tiny = Vector3::new(Scalar::from_raw(1), Scalar::from_raw(-3), Scalar::from_raw(2));
    assert_eq!(Rotor3::from_vectors(tiny, tiny), Rotor3::identity());
    let huge = Vector3::max();
    assert_eq!(Rotor3::from_vectors(huge, huge), Rotor3::identity());
}

#[test]
fn rotor_from_vectors_quarter_turn() {
    // between the first axis and the second: a quarter turn in their plane
    let r = Rotor3::from_vectors(v(1.0, 0.0, 0.0), v(0.0, 1.0, 0.0));
    let h = std::f64::consts::FRAC_1_SQRT_2;
    assert!(close(r.a, h, 1e-9));
    assert!(close(r.b12, -h, 1e-9));
    assert_eq!(r.b13, s(0.0));
    assert_eq!(r.b23, s(0.0));
    assert!(close(r.length(), 1.0, 1e-9));
    // the sandwich product with the rotor takes `to` to `from`,
    // the one with its reverse takes `from` to `to`
    assert!(vec_close(r.rotate_vector(v(0.0, 1.0, 0.0)), 1.0, 0.0, 0.0, 1e-8));
    assert!(vec_close(r.reverse().rotate_vector(v(1.0, 0.0, 0.0)), 0.0, 1.0, 0.0, 1e-8));
}

#[test]
fn rotor_from_opposite_vectors_is_a_half_turn() {
    for from in [v(1.0, 0.0, 0.0), v(0.0, 1.0, 0.0), v(0.0, 0.0, 1.0), v(0.0, 0.6, 0.8)] {
        let to = from.scale(s(-1.0));
        let r = Rotor3::from_vectors(from, to);
        assert_eq!(r.a, s(0.0));
        assert!(close(r.length(), 1.0, 1e-8));
        let turned = r.rotate_vector(from);
        assert!(vec_close(turned, f(to.x), f(to.y), f(to.z), 1e-8));
    }
}

#[test]
fn rotate_vector_quarter_turns() {
    // a = cos 45, b12 = -sin 45 turns the second axis into the first
    let r = rotor(std::f64::consts::FRAC_PI_2, 1.0, 0.0, 0.0);
    assert!(vec_close(r.rotate_vector(v(1.0, 0.0, 0.0)), 0.0, -1.0, 0.0, 1e-8));
    assert!(vec_close(r.rotate_vector(v(0.0, 1.0, 0.0)), 1.0, 0.0, 0.0, 1e-8));
    assert!(vec_close(r.rotate_vector(v(0.0, 0.0, 1.0)), 0.0, 0.0, 1.0, 1e-8));
    let q = rotor(std::f64::consts::FRAC_PI_2, 0.0, 0.0, 1.0);
    assert!(vec_close(q.rotate_vector(v(0.0, 0.0, 1.0)), 0.0, 1.0, 0.0, 1e-8));
    assert!(vec_close(q.rotate_vector(v(0.0, 1.0, 0.0)), 0.0, 0.0, -1.0, 1e-8));
}

#[test]
fn rotate_vector_exact_formula() {
    // with integer components nothing is rounded: a = 1, b12 = 2, b13 = 3, b23 = 4
    let r = Rotor3::new(s(1.0), s(2.0), s(3.0), s(4.0));
    // q = (1*5 - 6*2 - 7*3, 1*6 + 5*2 - 7*4, 1*7 + 5*3 + 6*4) = (-28, -12, 46), q321 = 5*4 - 6*3 + 7*2 = 16
    // x = 1*-28 - -12*2 - 46*3 + 16*4 = -78
    // y = 1*-12 + -28*2 - 46*4 - 16*3 = -300
    // z = 1*46 + -28*3 + -12*4 + 16*2 = -54
    assert_eq!(r.rotate_vector(v(5.0, 6.0, 7.0)), v(-78.0, -300.0, -54.0));
}

#[test]
fn rotor_mul_exact_formula_and_order() {
    let p = Rotor3::new(s(1.0), s(2.0), s(3.0), s(4.0));
    let q = Rotor3::new(s(5.0), s(6.0), s(7.0), s(8.0));
    // a = 5 - 12 - 21 - 32; b12 = 10 + 6 + 28 - 24; b13 = 15 + 7 + 16 - 24; b23 = 20 + 8 + 18 - 14
    assert_eq!(p.mul(q), Rotor3::new(s(-60.0), s(20.0), s(14.0), s(32.0)));
    // a = 5 - 12 - 21 - 32; b12 = 6 + 10 + 24 - 28; b13 = 7 + 15 + 24 - 16; b23 = 8 + 20 + 14 - 18
    assert_eq!(q.mul(p), Rotor3::new(s(-60.0), s(12.0), s(30.0), s(24.0)));
    assert_ne!(p.mul(q), q.mul(p));
}

#[test]
fn rotor_reverse_and_lengths() {
    let r = Rotor3::new(s(1.0), s(2.0), s(-3.0), s(4.0));
    assert_eq!(r.reverse(), Rotor3::new(s(1.0), s(-2.0), s(3.0), s(-4.0)));
    assert_eq!(r.reverse().reverse(), r);
    assert_eq!(r.length_sqrd(), s(30.0));
    assert_eq!(r.mag(), s(29.0));
    assert_eq!(r.bivector(), BiVector3::new(s(2.0), s(-3.0), s(4.0)));
    assert_eq!(Rotor3::new(s(1.0), s(1.0), s(1.0), s(1.0)).length(), s(2.0));
}

#[test]
fn rotor_normal_and_normalize() {
    let r = Rotor3::new(s(2.0), s(2.0), s(2.0), s(2.0));
    assert_eq!(r.normal(), Rotor3::new(s(0.5), s(0.5), s(0.5), s(0.5)));
    let mut m = Rotor3::new(s(0.0), s(0.0), s(-3.0), s(0.0));
    m.normalize();
    assert_eq!(m, Rotor3::new(s(0.0), s(0.0), s(-1.0), s(0.0)));
    let n = Rotor3::new(s(1.0), s(2.0), s(3.0), s(4.0)).normal();
    assert!(close(n.length(), 1.0, 1e-9));
    // a rotor of length zero stays zero
    assert_eq!(Rotor3::new(s(0.0), s(0.0), s(0.0), s(0.0)).normal(), Rotor3::new(s(0.0), s(0.0), s(0.0), s(0.0)));
}

#[test]
fn rotor_round_trip() {
    let rotors = [
        rotor(0.3, 1.0, 0.0, 0.0),
        rotor(1.1, 0.0, 1.0, 0.0),
        rotor(2.5, 0.0, 0.0, 1.0),
        rotor(-0.7, 1.0, 2.0, -2.0),
        Rotor3::from_vectors(v(1.0, 0.0, 0.0), v(0.0, 0.6, 0.8)),
    ];
    let vectors = [v(1.0, 0.0, 0.0), v(0.3, -0.4, 1.7), v(-12.5, 7.25, 3.0), v(31.0, -31.0, 31.0)];
    for r in rotors {
        for w in vectors {
            let back = r.reverse().rotate_vector(r.rotate_vector(w));
            assert!(vec_close(back, f(w.x), f(w.y), f(w.z), 1e-4));
        }
    }
}

#[test]
fn rotor_composition_is_associative_within_tolerance() {
    let r1 = rotor(0.3, 1.0, 0.0, 0.0);
    let r2 = rotor(1.1, 0.0, 1.0, 0.0);
    let r3 = rotor(-0.7, 1.0, 2.0, -2.0);
    let left = r1.mul(r2).mul(r3);
    let right = r1.mul(r2.mul(r3));
    assert!(rotor_close(left, right, 1e-4));
    assert!((left.a.raw - right.a.raw).abs() < 40);
    assert!((left.b12.raw - right.b12.raw).abs() < 40);
    assert!((left.b13.raw - right.b13.raw).abs() < 40);
    assert!((left.b23.raw - right.b23.raw).abs() < 40);
}

#[test]
fn rotor_composition_turns_in_sequence() {
    let r1 = rotor(std::f64::consts::FRAC_PI_2, 1.0, 0.0, 0.0);
    let r2 = rotor(std::f64::consts::FRAC_PI_2, 0.0, 0.0, 1.0);
    let w = v(1.0, 0.0, 0.0);
    let by_steps = r2.rotate_vector(r1.rotate_vector(w));
    let at_once = r1.mul(r2).rotate_vector(w);
    assert!(vec_close(at_once, f(by_steps.x), f(by_steps.y), f(by_steps.z), 1e-8));
}

#[test]
fn rotor_from_bivector() {
    // the scalar is one minus the length of the bivector, but not below zero
    let r = Rotor3::from_bivector(BiVector3::new(s(0.0), s(0.0), s(0.0)));
    assert_eq!(r, Rotor3::identity());
    let big = Rotor3::from_bivector(BiVector3::new(s(3.0), s(0.0), s(4.0)));
    assert_eq!(big.a, s(0.0));
    assert!(close(big.b12, 0.6, 1e-9));
    assert!(close(big.b23, 0.8, 1e-9));
    let half = Rotor3::from_bivector(BiVector3::new(s(0.5), s(0.0), s(0.0)));
    assert!(close(half.a, std::f64::consts::FRAC_1_SQRT_2, 1e-9));
    assert!(close(half.b12, std::f64::consts::FRAC_1_SQRT_2, 1e-9));
}

#[test]
fn rotor_scale_and_slerp() {
    let from = Rotor3::identity();
    let to = rotor(1.0, 1.0, 0.0, 0.0);
    // at the share zero the difference rotor is scaled away and the start is left
    assert!(rotor_close(from.slerp(to, s(0.0)), from, 1e-9));
    // shares outside [0, 1] are cut off
    assert_eq!(from.slerp(to, s(-3.0)), from.slerp(to, s(0.0)));
    assert_eq!(from.slerp(to, s(7.0)), from.slerp(to, s(1.0)));
    // the blend is the difference rotor, its bivector scaled and made a rotor again, times the start
    let expected = to.mul(from.reverse()).scale(s(0.5)).mul(from);
    assert_eq!(from.slerp(to, s(0.5)), expected);
    assert!(close(from.slerp(to, s(0.5)).length(), 1.0, 1e-8));
}

#[test]
fn rotor_from_angle_and_axis() {
    let r = Rotor3::from_angle_and_axis(s(0.6), s(0.8), BiVector3::new(s(0.0), s(5.0), s(0.0)));
    assert!(close(r.a, 0.6, 1e-9));
    assert_eq!(r.b12, s(0.0));
    assert!(close(r.b13, -0.8, 1e-9));
    assert_eq!(r.b23, s(0.0));
}

#[test]
fn rotor_rotate_by_rotor() {
    let mut r = rotor(0.4, 1.0, 0.0, 0.0);
    let start = r;
    let other = rotor(0.9, 0.0, 1.0, 0.0);
    r.rotate_by_rotor(other);
    assert_eq!(r, start.mul(other).mul(start.reverse()).normal());
    assert!(close(r.length(), 1.0, 1e-8));
}

#[test]
fn rotor_add_and_sub() {
    let p = Rotor3::new(s(1.0), s(1.0), s(0.0), s(0.0));
    let q = Rotor3::new(s(5.0), s(0.0), s(1.0), s(0.0));
    // the bivectors are added, the scalar of the left side is kept
    assert_eq!(p.add(q), Rotor3::new(s(1.0), s(1.0), s(1.0), s(0.0)).normal());
    assert_eq!(p.sub(q), Rotor3::new(s(-4.0), s(1.0), s(-1.0), s(0.0)).normal());
}

#[test]
fn rotor_from_quat() {
    let r = Rotor3::from_quat([s(0.1), s(0.2), s(0.3), s(0.9)]);
    assert_eq!(r, Rotor3::new(s(0.9), s(0.3), s(0.2), s(0.1)));
}

#[test]
fn rotor_directions_and_turns() {
    let id = Rotor3::identity();
    assert_eq!(id.left(), Vector3::left());
    assert_eq!(id.right(), Vector3::right());
    assert_eq!(id.up(), Vector3::up());
    assert_eq!(id.down(), Vector3::down());
    assert_eq!(id.forward(), Vector3::forward());
    assert_eq!(id.backward(), Vector3::backward());
    // a turn composes with the rotor between forward and the side, whose
    // sandwich product takes the side to forward
    let l = id.turn_left();
    assert_eq!(l, Rotor3::from_vectors(Vector3::forward(), Vector3::left()));
    assert!(vec_close(l.left(), 0.0, 0.0, 1.0, 1e-8));
    let r = id.turn_right();
    assert!(vec_close(r.right(), 0.0, 0.0, 1.0, 1e-8));
    let u = id.turn_up();
    assert!(vec_close(u.up(), 0.0, 0.0, 1.0, 1e-8));
    let d = id.turn_down();
    assert!(vec_close(d.down(), 0.0, 0.0, 1.0, 1e-8));
}

#[test]
fn one_raw_is_the_unit() {
    assert_eq!(s(1.0).raw, ONE_RAW);
}

#[test]
fn rotor_to_matrix3() {
    let m = Rotor3::identity().to_matrix3();
    assert_eq!(m, [[s(1.0), s(0.0), s(0.0)], [s(0.0), s(1.0), s(0.0)], [s(0.0), s(0.0), s(-1.0)]]);
    let r = Rotor3::new(s(1.0), s(2.0), s(3.0), s(4.0));
    let m = r.to_matrix3();
    let x = r.rotate_vector(v(1.0, 0.0, 0.0));
    let z = r.rotate_vector(v(0.0, 0.0, 1.0));
    assert_eq!(m[0], [x.x, x.y, x.z]);
    assert_eq!(m[2], [z.x.neg(), z.y.neg(), z.z.neg()]);
    // 1 - 4 - 9 + 16, 2 * (1 * 2 - 3 * 4), 2 * (1 * 3 + 2 * 4)
    assert_eq!(m[0], [s(4.0), s(-20.0), s(22.0)]);
}

#[test]
fn approx_equal_to_decimal_places() {
    assert!(approx_equal(s(1.0), s(1.0004), 3));
    assert!(!approx_equal(s(1.0), s(1.002), 3));
    assert!(approx_equal(s(-2.5), s(-2.5), 9));
    assert!(approx_equal(s(1.0), s(1.9), 0));
    assert!(!approx_equal(s(1.0), s(2.0), 0));
    // from ten places on the tolerance is zero
    assert!(!approx_equal(s(1.0), s(1.0), 10));
    assert!(!approx_equal(s(1.0), s(1.0), 255));
}
