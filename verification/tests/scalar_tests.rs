use rotor_raster::camera::Camera;
use rotor_raster::geometry::UV;
use rotor_raster::math_3d::{BiVector3, Rotor3, Vector3};
use rotor_raster::pixel::Pixel;
use rotor_raster::scalar::{
    add_square, floor_sqrt_u128, norm_of_capped, Scalar, MAX_RAW, MIN_RAW, ONE_RAW, SQUARE_CAP,
};

fn s(x: f64) -> Scalar {
    Scalar::from_raw((x * 4294967296.0) as i64)
}

fn f(x: Scalar) -> f64 {
    x.raw as f64 / 4294967296.0
}

#[test]
fn one_is_two_to_the_32() {
    assert_eq!(Scalar::one().raw, 1i64 << 32);
    assert_eq!(ONE_RAW, 4294967296);
    assert_eq!(Scalar::zero().raw, 0);
}

#[test]
fn from_int_is_exact() {
    assert_eq!(Scalar::from_int(3).raw, 3 * ONE_RAW);
    assert_eq!(Scalar::from_int(-7).raw, -7 * ONE_RAW);
    assert_eq!(Scalar::from_int(i32::MIN).raw, MIN_RAW);
}

#[test]
fn add_and_sub_saturate() {
    assert_eq!(s(1.5).add(s(2.25)), s(3.75));
    assert_eq!(s(1.5).sub(s(2.25)), s(-0.75));
    assert_eq!(Scalar::from_raw(MAX_RAW).add(Scalar::one()).raw, MAX_RAW);
    assert_eq!(Scalar::from_raw(MIN_RAW).sub(Scalar::one()).raw, MIN_RAW);
    assert_eq!(Scalar::from_raw(MIN_RAW).neg().raw, MAX_RAW);
}

#[test]
fn mul_rounds_toward_zero() {
    assert_eq!(s(1.5).mul(s(2.0)), s(3.0));
    assert_eq!(s(-1.5).mul(s(2.0)), s(-3.0));
    // one raw unit times one half is half a raw unit: it rounds to zero from both sides
    assert_eq!(Scalar::from_raw(1).mul(s(0.5)).raw, 0);
    assert_eq!(Scalar::from_raw(-1).mul(s(0.5)).raw, 0);
    assert_eq!(Scalar::from_raw(3).mul(s(0.5)).raw, 1);
    assert_eq!(Scalar::from_raw(-3).mul(s(0.5)).raw, -1);
    assert_eq!(Scalar::from_raw(MAX_RAW).mul(s(2.0)).raw, MAX_RAW);
    assert_eq!(Scalar::from_raw(MAX_RAW).mul(s(-2.0)).raw, MIN_RAW);
}

#[test]
fn div_rounds_toward_zero() {
    assert_eq!(s(3.0).div(s(2.0)), s(1.5));
    assert_eq!(s(-3.0).div(s(2.0)), s(-1.5));
    assert_eq!(s(3.0).div(s(-2.0)), s(-1.5));
    assert_eq!(s(-3.0).div(s(-2.0)), s(1.5));
    assert_eq!(Scalar::from_int(1).div(Scalar::from_int(3)).raw, 1431655765);
    assert_eq!(Scalar::from_int(-1).div(Scalar::from_int(3)).raw, -1431655765);
}

#[test]
fn div_by_zero_saturates() {
    assert_eq!(s(1.0).div(Scalar::zero()).raw, MAX_RAW);
    assert_eq!(s(-1.0).div(Scalar::zero()).raw, MIN_RAW);
    assert_eq!(Scalar::zero().div(Scalar::zero()).raw, 0);
}

#[test]
fn from_ratio_divides() {
    assert_eq!(Scalar::from_ratio(1, 2), s(0.5));
    assert_eq!(Scalar::from_ratio(1, 10).raw, 429496729);
    assert_eq!(Scalar::from_ratio(4, 3).raw, 5726623061);
}

#[test]
fn sqrt_rounds_down() {
    assert_eq!(s(4.0).sqrt(), s(2.0));
    assert_eq!(s(0.25).sqrt(), s(0.5));
    assert_eq!(s(-4.0).sqrt().raw, 0);
    assert_eq!(Scalar::zero().sqrt().raw, 0);
    // the root of two, rounded down: 1.41421356237... * 2^32
    assert_eq!(s(2.0).sqrt().raw, 6074000999);
}

#[test]
fn norms_are_exact_roots() {
    assert_eq!(Scalar::norm3(s(3.0), s(4.0), s(0.0)), s(5.0));
    assert_eq!(Scalar::norm3(s(2.0), s(3.0), s(6.0)), s(7.0));
    assert_eq!(Scalar::norm4(s(1.0), s(1.0), s(1.0), s(1.0)), s(2.0));
    assert_eq!(Scalar::norm4(s(-2.0), s(0.0), s(0.0), s(0.0)), s(2.0));
    let m = Scalar::from_raw(MAX_RAW);
    assert_eq!(Scalar::norm3(m, m, m).raw, MAX_RAW);
    let lo = Scalar::from_raw(MIN_RAW);
    assert_eq!(Scalar::norm4(lo, lo, lo, lo).raw, MAX_RAW);
    assert_eq!(Scalar::norm3(Scalar::from_raw(1), Scalar::from_raw(1), Scalar::from_raw(1)).raw, 1);
}

#[test]
fn ceil_and_trunc() {
    assert_eq!(s(2.5).ceil(), 3);
    assert_eq!(s(2.0).ceil(), 2);
    assert_eq!(s(-2.5).ceil(), -2);
    assert_eq!(s(2.5).trunc(), 2);
    assert_eq!(s(-2.5).trunc(), -2);
    assert_eq!(Scalar::from_raw(MAX_RAW).ceil(), 1i64 << 31);
    assert_eq!(Scalar::from_raw(MIN_RAW).trunc(), -(1i64 << 31));
}

#[test]
fn min_max_clamp_abs() {
    assert_eq!(s(1.0).min(s(2.0)), s(1.0));
    assert_eq!(s(1.0).max(s(2.0)), s(2.0));
    assert_eq!(s(5.0).clamp(s(0.0), s(3.0)), s(3.0));
    assert_eq!(s(-5.0).clamp(s(0.0), s(3.0)), s(0.0));
    assert_eq!(s(2.0).clamp(s(0.0), s(3.0)), s(2.0));
    assert_eq!(s(-2.0).abs(), s(2.0));
    assert_eq!(Scalar::from_raw(MIN_RAW).abs().raw, MAX_RAW);
    assert!(s(1.0).lt(s(2.0)));
    assert!(!s(2.0).lt(s(2.0)));
}

#[test]
fn from_u32_saturates() {
    assert_eq!(Scalar::from_u32(640), s(640.0));
    assert_eq!(Scalar::from_u32(u32::MAX).raw, MAX_RAW);
}

#[test]
fn conversion_helpers_agree() {
    assert_eq!(f(s(0.75)), 0.75);
    assert_eq!(f(Scalar::one()), 1.0);
}

#[test]
fn integer_square_root() {
    assert_eq!(floor_sqrt_u128(0), 0);
    assert_eq!(floor_sqrt_u128(1), 1);
    assert_eq!(floor_sqrt_u128(3), 1);
    assert_eq!(floor_sqrt_u128(4), 2);
    assert_eq!(floor_sqrt_u128(99), 9);
    assert_eq!(floor_sqrt_u128(100), 10);
    assert_eq!(floor_sqrt_u128(u128::MAX), (1u128 << 64) - 1);
    assert_eq!(floor_sqrt_u128(1u128 << 126), 1u128 << 63);
    assert_eq!(add_square(16, Scalar::from_raw(-3)), 25);
    assert_eq!(add_square(SQUARE_CAP, Scalar::from_raw(3)), SQUARE_CAP);
    assert_eq!(add_square(1, Scalar::from_raw(MIN_RAW)), SQUARE_CAP);
    assert_eq!(norm_of_capped(25).raw, 5);
    assert_eq!(norm_of_capped(SQUARE_CAP).raw, MAX_RAW);
}

#[test]
fn defaults() {
    assert_eq!(Scalar::default(), Scalar::zero());
    assert_eq!(Vector3::default(), Vector3::from_ints(0, 0, 0));
    assert_eq!(BiVector3::default(), BiVector3::new(s(0.0), s(0.0), s(0.0)));
    assert_eq!(Rotor3::default(), Rotor3::identity());
    assert_eq!(Pixel::default(), Pixel::rgb(0, 0, 0));
    assert_eq!(UV::default(), UV::new(s(0.0), s(0.0)));
    let c = Camera::default();
    assert_eq!(c.fov, s(0.0));
    assert_eq!(c.inv_camera_rot, Rotor3::identity());
}
