//! How far the rounded rotor arithmetic is from the exact algebra.
//!
//! Over the integers, without rounding, the geometric product of rotors is
//! associative, and turning a vector by a rotor and then by its reverse
//! multiplies the vector by the fourth power of the rotor's length. A
//! rounded product differs from the exact one by less than one unit of the
//! last place. Together this bounds how far the rounded operations of
//! [`Rotor3`] are from these two laws.

use crate::math_3d::{Rotor3, Vector3};
use crate::scalar::{div_raw, lemma_floor_sqrt_exists, mul_raw, Scalar, MAX_RAW, ONE_RAW};
use vstd::arithmetic::mul::{
    lemma_mul_is_associative, lemma_mul_is_commutative, lemma_mul_is_distributive_add,
    lemma_mul_is_distributive_add_other_way, lemma_mul_is_distributive_sub,
    lemma_mul_is_distributive_sub_other_way, lemma_mul_unary_negation,
};
use vstd::prelude::*;

verus! {

/// Four integers: the components of a rotor without rounding.
pub struct Quad {
    pub a: int,
    pub x: int,
    pub y: int,
    pub z: int,
}

/// Four integers: a vector `(x, y, z)` together with a multiple `t` of the
/// unit volume. The product of a vector with a rotor is of this kind.
pub struct Odd {
    pub x: int,
    pub y: int,
    pub z: int,
    pub t: int,
}

/// The absolute value of an integer.
pub open spec fn abs(i: int) -> int {
    if i < 0 {
        -i
    } else {
        i
    }
}

/// Bound on the components of a rotor for which the lemmas here rule out
/// saturation: sixteen.
pub open spec fn small_bound() -> int {
    0x10_0000_0000
}

/// Bound on the coordinates of a vector for which the lemmas here rule out
/// saturation: two to the power of twenty-four.
pub open spec fn big_bound() -> int {
    0x100_0000_0000_0000
}

impl Quad {
    /// The raw components of a rotor.
    pub open spec fn of(r: Rotor3) -> Quad {
        Quad { a: r.a@, x: r.b12@, y: r.b13@, z: r.b23@ }
    }

    /// The exact geometric product.
    pub open spec fn gp(self, q: Quad) -> Quad {
        Quad {
            a: self.a * q.a - self.x * q.x - self.y * q.y - self.z * q.z,
            x: self.x * q.a + self.a * q.x + self.z * q.y - self.y * q.z,
            y: self.y * q.a + self.a * q.y + self.x * q.z - self.z * q.x,
            z: self.z * q.a + self.a * q.z + self.y * q.x - self.x * q.y,
        }
    }

    /// Every component multiplied by `k`.
    pub open spec fn times(self, k: int) -> Quad {
        Quad { a: self.a * k, x: self.x * k, y: self.y * k, z: self.z * k }
    }

    /// The reverse: the bivector part negated.
    pub open spec fn rev(self) -> Quad {
        Quad { a: self.a, x: -self.x, y: -self.y, z: -self.z }
    }

    /// The squared length.
    pub open spec fn norm2(self) -> int {
        self.a * self.a + self.x * self.x + self.y * self.y + self.z * self.z
    }

    /// Every component is at most `c` in absolute value.
    pub open spec fn bounded(self, c: int) -> bool {
        abs(self.a) <= c && abs(self.x) <= c && abs(self.y) <= c && abs(self.z) <= c
    }

    /// Every component is within `e` of that of `q`.
    pub open spec fn within(self, q: Quad, e: int) -> bool {
        abs(self.a - q.a) <= e && abs(self.x - q.x) <= e && abs(self.y - q.y) <= e && abs(
            self.z - q.z,
        ) <= e
    }
}

impl Odd {
    /// The raw coordinates of a vector, with no volume part.
    pub open spec fn of(v: Vector3) -> Odd {
        Odd { x: v.x@, y: v.y@, z: v.z@, t: 0 }
    }

    /// Every component multiplied by `k`.
    pub open spec fn times(self, k: int) -> Odd {
        Odd { x: self.x * k, y: self.y * k, z: self.z * k, t: self.t * k }
    }

    /// The difference, component by component.
    pub open spec fn minus(self, o: Odd) -> Odd {
        Odd { x: self.x - o.x, y: self.y - o.y, z: self.z - o.z, t: self.t - o.t }
    }

    /// The exact product `self * r` with a rotor on the right.
    pub open spec fn rmul(self, r: Quad) -> Odd {
        Odd {
            x: self.x * r.a - self.y * r.x - self.z * r.y - self.t * r.z,
            y: self.y * r.a + self.x * r.x - self.z * r.z + self.t * r.y,
            z: self.z * r.a + self.x * r.y + self.y * r.z - self.t * r.x,
            t: self.t * r.a + self.z * r.x - self.y * r.y + self.x * r.z,
        }
    }

    /// The exact product `r * self` with a rotor on the left.
    pub open spec fn lmul(self, r: Quad) -> Odd {
        Odd {
            x: r.a * self.x + r.x * self.y + r.y * self.z - r.z * self.t,
            y: r.a * self.y - r.x * self.x + r.z * self.z + r.y * self.t,
            z: r.a * self.z - r.y * self.x - r.z * self.y - r.x * self.t,
            t: r.a * self.t + r.x * self.z - r.y * self.y + r.z * self.x,
        }
    }

    /// Every component is at most `c` in absolute value.
    pub open spec fn bounded(self, c: int) -> bool {
        abs(self.x) <= c && abs(self.y) <= c && abs(self.z) <= c && abs(self.t) <= c
    }

    /// Every component is within `e` of that of `o`.
    pub open spec fn within(self, o: Odd, e: int) -> bool {
        abs(self.x - o.x) <= e && abs(self.y - o.y) <= e && abs(self.z - o.z) <= e && abs(
            self.t - o.t,
        ) <= e
    }
}

/// The exact sandwich product `rev(r) * o * r`.
pub open spec fn sandwich(r: Quad, o: Odd) -> Odd {
    o.rmul(r).lmul(r.rev())
}

/// The absolute value of a product is at most the product of bounds on
/// its factors.
pub proof fn lemma_abs_mul(x: int, y: int, e: int, c: int)
    requires
        abs(x) <= e,
        abs(y) <= c,
    ensures
        abs(x * y) <= e * c,
{
    assert(abs(x * y) <= e * c) by (nonlinear_arith)
        requires
            -e <= x <= e,
            -c <= y <= c,
            abs(x * y) == x * y || abs(x * y) == -(x * y),
    ;
}

/// A rounded product of a number inside the small bound with one inside
/// the big bound, in either order, does not saturate, and is less than one
/// unit of the last place away from the exact product.
pub proof fn lemma_mul_raw_error(a: int, b: int)
    requires
        (abs(a) <= small_bound() && abs(b) <= big_bound()) || (abs(a) <= big_bound() && abs(b)
            <= small_bound()),
    ensures
        abs(mul_raw(a, b) * ONE_RAW - a * b) <= ONE_RAW - 1,
        abs(mul_raw(a, b)) <= 0x1000_0000_0000_0000,
{
    let one = ONE_RAW as int;
    if abs(a) <= small_bound() {
        lemma_abs_mul(a, b, small_bound(), big_bound());
    } else {
        lemma_abs_mul(a, b, big_bound(), small_bound());
    }
    let p = a * b;
    assert(small_bound() * big_bound() == 0x1000_0000_0000_0000_0000_0000 && big_bound()
        * small_bound() == 0x1000_0000_0000_0000_0000_0000) by (nonlinear_arith)
        requires
            small_bound() == 0x10_0000_0000,
            big_bound() == 0x100_0000_0000_0000,
    ;
    if p >= 0 {
        assert(mul_raw(a, b) == p / one);
    } else {
        assert(mul_raw(a, b) == -((-p) / one));
    }
}

/// The `a` component of [`lemma_gp_associative`].
#[verifier::rlimit(50)]
proof fn lemma_gp_associative_a(p: Quad, q: Quad, r: Quad)
    ensures
        p.gp(q).gp(r).a == p.gp(q.gp(r)).a,
{
    broadcast use
        lemma_mul_is_associative,
        lemma_mul_is_distributive_add,
        lemma_mul_is_distributive_sub,
        lemma_mul_is_distributive_add_other_way,
        lemma_mul_is_distributive_sub_other_way,
    ;
}

/// The `x` component of [`lemma_gp_associative`].
#[verifier::rlimit(50)]
proof fn lemma_gp_associative_x(p: Quad, q: Quad, r: Quad)
    ensures
        p.gp(q).gp(r).x == p.gp(q.gp(r)).x,
{
    broadcast use
        lemma_mul_is_associative,
        lemma_mul_is_distributive_add,
        lemma_mul_is_distributive_sub,
        lemma_mul_is_distributive_add_other_way,
        lemma_mul_is_distributive_sub_other_way,
    ;
}

/// The `y` component of [`lemma_gp_associative`].
#[verifier::rlimit(50)]
proof fn lemma_gp_associative_y(p: Quad, q: Quad, r: Quad)
    ensures
        p.gp(q).gp(r).y == p.gp(q.gp(r)).y,
{
    broadcast use
        lemma_mul_is_associative,
        lemma_mul_is_distributive_add,
        lemma_mul_is_distributive_sub,
        lemma_mul_is_distributive_add_other_way,
        lemma_mul_is_distributive_sub_other_way,
    ;
}

/// The `z` component of [`lemma_gp_associative`].
#[verifier::rlimit(50)]
proof fn lemma_gp_associative_z(p: Quad, q: Quad, r: Quad)
    ensures
        p.gp(q).gp(r).z == p.gp(q.gp(r)).z,
{
    broadcast use
        lemma_mul_is_associative,
        lemma_mul_is_distributive_add,
        lemma_mul_is_distributive_sub,
        lemma_mul_is_distributive_add_other_way,
        lemma_mul_is_distributive_sub_other_way,
    ;
}

/// The exact geometric product is associative.
pub proof fn lemma_gp_associative(p: Quad, q: Quad, r: Quad)
    ensures
        p.gp(q).gp(r) == p.gp(q.gp(r)),
{
    lemma_gp_associative_a(p, q, r);
    lemma_gp_associative_x(p, q, r);
    lemma_gp_associative_y(p, q, r);
    lemma_gp_associative_z(p, q, r);
}

/// The exact product of bounded rotors is bounded.
pub proof fn lemma_gp_bounded(p: Quad, q: Quad, b: int, c: int)
    requires
        p.bounded(b),
        q.bounded(c),
    ensures
        p.gp(q).bounded(4 * (b * c)),
{
    lemma_abs_mul(p.a, q.a, b, c);
    lemma_abs_mul(p.a, q.x, b, c);
    lemma_abs_mul(p.a, q.y, b, c);
    lemma_abs_mul(p.a, q.z, b, c);
    lemma_abs_mul(p.x, q.a, b, c);
    lemma_abs_mul(p.x, q.x, b, c);
    lemma_abs_mul(p.x, q.y, b, c);
    lemma_abs_mul(p.x, q.z, b, c);
    lemma_abs_mul(p.y, q.a, b, c);
    lemma_abs_mul(p.y, q.x, b, c);
    lemma_abs_mul(p.y, q.y, b, c);
    lemma_abs_mul(p.y, q.z, b, c);
    lemma_abs_mul(p.z, q.a, b, c);
    lemma_abs_mul(p.z, q.x, b, c);
    lemma_abs_mul(p.z, q.y, b, c);
    lemma_abs_mul(p.z, q.z, b, c);
}

/// Where the left factor changes by at most `e` in every component, the
/// exact product with a rotor bounded by `c` changes by at most `4 e c`.
pub proof fn lemma_gp_left_error(p: Quad, p_near: Quad, q: Quad, e: int, c: int)
    requires
        p.within(p_near, e),
        q.bounded(c),
    ensures
        p.gp(q).within(p_near.gp(q), 4 * (e * c)),
{
    let d = Quad { a: p.a - p_near.a, x: p.x - p_near.x, y: p.y - p_near.y, z: p.z - p_near.z };
    assert(p.gp(q).a - p_near.gp(q).a == d.gp(q).a && p.gp(q).x - p_near.gp(q).x == d.gp(q).x && p.gp(
        q,
    ).y - p_near.gp(q).y == d.gp(q).y && p.gp(q).z - p_near.gp(q).z == d.gp(q).z) by {
        broadcast use
                lemma_mul_is_distributive_add,
                lemma_mul_is_distributive_sub,
                lemma_mul_is_distributive_add_other_way,
                lemma_mul_is_distributive_sub_other_way,
        ;
    }
    lemma_gp_bounded(d, q, e, c);
}

/// Where the right factor changes by at most `e` in every component, the
/// exact product with a rotor bounded by `c` changes by at most `4 c e`.
pub proof fn lemma_gp_right_error(p: Quad, q: Quad, q_near: Quad, c: int, e: int)
    requires
        p.bounded(c),
        q.within(q_near, e),
    ensures
        p.gp(q).within(p.gp(q_near), 4 * (c * e)),
{
    let d = Quad { a: q.a - q_near.a, x: q.x - q_near.x, y: q.y - q_near.y, z: q.z - q_near.z };
    assert(p.gp(q).a - p.gp(q_near).a == p.gp(d).a && p.gp(q).x - p.gp(q_near).x == p.gp(d).x && p.gp(
        q,
    ).y - p.gp(q_near).y == p.gp(d).y && p.gp(q).z - p.gp(q_near).z == p.gp(d).z) by {
        broadcast use
                lemma_mul_is_distributive_add,
                lemma_mul_is_distributive_sub,
                lemma_mul_is_distributive_add_other_way,
                lemma_mul_is_distributive_sub_other_way,
        ;
    }
    lemma_gp_bounded(p, d, c, e);
}

/// Scaling the left factor scales the exact product.
#[verifier::rlimit(50)]
pub proof fn lemma_gp_times_left(p: Quad, q: Quad, k: int)
    ensures
        p.times(k).gp(q) == p.gp(q).times(k),
{
    broadcast use
        lemma_mul_is_associative,
        lemma_mul_is_distributive_add,
        lemma_mul_is_distributive_sub,
        lemma_mul_is_distributive_add_other_way,
        lemma_mul_is_distributive_sub_other_way,
    ;
    lemma_mul_is_commutative(k, q.a);
    lemma_mul_is_commutative(k, q.x);
    lemma_mul_is_commutative(k, q.y);
    lemma_mul_is_commutative(k, q.z);
}

/// Scaling the right factor scales the exact product.
#[verifier::rlimit(50)]
pub proof fn lemma_gp_times_right(p: Quad, q: Quad, k: int)
    ensures
        p.gp(q.times(k)) == p.gp(q).times(k),
{
    broadcast use
        lemma_mul_is_associative,
        lemma_mul_is_distributive_add,
        lemma_mul_is_distributive_sub,
        lemma_mul_is_distributive_add_other_way,
        lemma_mul_is_distributive_sub_other_way,
    ;
}

/// Scaling by a positive number scales a distance.
pub proof fn lemma_scaled_within(p: Quad, q: Quad, e: int, k: int)
    requires
        p.within(q, e),
        k > 0,
    ensures
        p.times(k).within(q.times(k), e * k),
{
    lemma_scaled_abs(p.a - q.a, e, k);
    lemma_scaled_abs(p.x - q.x, e, k);
    lemma_scaled_abs(p.y - q.y, e, k);
    lemma_scaled_abs(p.z - q.z, e, k);
    broadcast use
        lemma_mul_is_distributive_add,
        lemma_mul_is_distributive_sub,
        lemma_mul_is_distributive_add_other_way,
        lemma_mul_is_distributive_sub_other_way,
    ;
}

/// Scaling by a positive number scales an absolute value.
pub proof fn lemma_scaled_abs(d: int, e: int, k: int)
    requires
        abs(d) <= e,
        k > 0,
    ensures
        abs(d * k) <= e * k,
{
    assert(-(e * k) <= d * k <= e * k) by (nonlinear_arith)
        requires
            -e <= d <= e,
            k > 0,
    ;
}

/// The `a` component of [`lemma_rotor_mul_error`].
proof fn lemma_rotor_mul_error_a(p: Rotor3, q: Rotor3)
    requires
        Quad::of(p).bounded(small_bound()),
        Quad::of(q).bounded(small_bound()),
    ensures
        abs(Quad::of(p.mul_spec(q)).times(ONE_RAW as int).a - Quad::of(p).gp(Quad::of(q)).a) <= 4
            * (ONE_RAW - 1),
{
    reveal(Scalar::mul_spec);
    reveal(Scalar::add_spec);
    reveal(Scalar::sub_spec);
    lemma_mul_raw_error(p.a@, q.a@);
    lemma_mul_raw_error(p.b12@, q.b12@);
    lemma_mul_raw_error(p.b13@, q.b13@);
    lemma_mul_raw_error(p.b23@, q.b23@);
}

/// The `x` component of [`lemma_rotor_mul_error`].
proof fn lemma_rotor_mul_error_x(p: Rotor3, q: Rotor3)
    requires
        Quad::of(p).bounded(small_bound()),
        Quad::of(q).bounded(small_bound()),
    ensures
        abs(Quad::of(p.mul_spec(q)).times(ONE_RAW as int).x - Quad::of(p).gp(Quad::of(q)).x) <= 4
            * (ONE_RAW - 1),
{
    reveal(Scalar::mul_spec);
    reveal(Scalar::add_spec);
    reveal(Scalar::sub_spec);
    lemma_mul_raw_error(p.b12@, q.a@);
    lemma_mul_raw_error(p.a@, q.b12@);
    lemma_mul_raw_error(p.b23@, q.b13@);
    lemma_mul_raw_error(p.b13@, q.b23@);
}

/// The `y` component of [`lemma_rotor_mul_error`].
proof fn lemma_rotor_mul_error_y(p: Rotor3, q: Rotor3)
    requires
        Quad::of(p).bounded(small_bound()),
        Quad::of(q).bounded(small_bound()),
    ensures
        abs(Quad::of(p.mul_spec(q)).times(ONE_RAW as int).y - Quad::of(p).gp(Quad::of(q)).y) <= 4
            * (ONE_RAW - 1),
{
    reveal(Scalar::mul_spec);
    reveal(Scalar::add_spec);
    reveal(Scalar::sub_spec);
    lemma_mul_raw_error(p.b13@, q.a@);
    lemma_mul_raw_error(p.a@, q.b13@);
    lemma_mul_raw_error(p.b12@, q.b23@);
    lemma_mul_raw_error(p.b23@, q.b12@);
}

/// The `z` component of [`lemma_rotor_mul_error`].
proof fn lemma_rotor_mul_error_z(p: Rotor3, q: Rotor3)
    requires
        Quad::of(p).bounded(small_bound()),
        Quad::of(q).bounded(small_bound()),
    ensures
        abs(Quad::of(p.mul_spec(q)).times(ONE_RAW as int).z - Quad::of(p).gp(Quad::of(q)).z) <= 4
            * (ONE_RAW - 1),
{
    reveal(Scalar::mul_spec);
    reveal(Scalar::add_spec);
    reveal(Scalar::sub_spec);
    lemma_mul_raw_error(p.b23@, q.a@);
    lemma_mul_raw_error(p.a@, q.b23@);
    lemma_mul_raw_error(p.b13@, q.b12@);
    lemma_mul_raw_error(p.b12@, q.b13@);
}

/// The rounded product of two rotors inside the small bound, scaled by
/// one, is within four units of the last place of the exact product.
pub proof fn lemma_rotor_mul_error(p: Rotor3, q: Rotor3)
    requires
        Quad::of(p).bounded(small_bound()),
        Quad::of(q).bounded(small_bound()),
    ensures
        Quad::of(p.mul_spec(q)).times(ONE_RAW as int).within(
            Quad::of(p).gp(Quad::of(q)),
            4 * (ONE_RAW - 1),
        ),
{
    lemma_rotor_mul_error_a(p, q);
    lemma_rotor_mul_error_x(p, q);
    lemma_rotor_mul_error_y(p, q);
    lemma_rotor_mul_error_z(p, q);
}

/// A rounded product of two rotors, scaled by the square of one, against
/// the exact product in which the left factor is the exact rotor `exact`
/// that the rounded left factor `p` stands for.
proof fn lemma_second_product_left(p: Rotor3, exact: Quad, q: Rotor3)
    requires
        Quad::of(p).bounded(small_bound()),
        Quad::of(q).bounded(ONE_RAW as int),
        Quad::of(p).times(ONE_RAW as int).within(exact, 4 * (ONE_RAW - 1)),
    ensures
        Quad::of(p.mul_spec(q)).times(ONE_RAW as int).times(ONE_RAW as int).within(
            exact.gp(Quad::of(q)),
            20 * ((ONE_RAW - 1) * ONE_RAW),
        ),
{
    let one = ONE_RAW as int;
    let y = Quad::of(p.mul_spec(q));
    let g = Quad::of(p).gp(Quad::of(q));
    lemma_rotor_mul_error(p, q);
    lemma_gp_left_error(Quad::of(p).times(one), exact, Quad::of(q), 4 * (one - 1), one);
    lemma_gp_times_left(Quad::of(p), Quad::of(q), one);
    assert((4 * (one - 1)) * one == 4 * ((one - 1) * one)) by (nonlinear_arith);
    lemma_scaled_within(y.times(one), g, 4 * (one - 1), one);
}

/// A rounded product of two rotors, scaled by the square of one, against
/// the exact product in which the right factor is the exact rotor `exact`
/// that the rounded right factor `q` stands for.
proof fn lemma_second_product_right(p: Rotor3, q: Rotor3, exact: Quad)
    requires
        Quad::of(p).bounded(ONE_RAW as int),
        Quad::of(q).bounded(small_bound()),
        Quad::of(q).times(ONE_RAW as int).within(exact, 4 * (ONE_RAW - 1)),
    ensures
        Quad::of(p.mul_spec(q)).times(ONE_RAW as int).times(ONE_RAW as int).within(
            Quad::of(p).gp(exact),
            20 * ((ONE_RAW - 1) * ONE_RAW),
        ),
{
    let one = ONE_RAW as int;
    let y = Quad::of(p.mul_spec(q));
    let g = Quad::of(p).gp(Quad::of(q));
    lemma_rotor_mul_error(p, q);
    lemma_gp_right_error(Quad::of(p), Quad::of(q).times(one), exact, one, 4 * (one - 1));
    lemma_gp_times_right(Quad::of(p), Quad::of(q), one);
    assert(one * (4 * (one - 1)) == 4 * ((one - 1) * one)) by (nonlinear_arith);
    lemma_scaled_within(y.times(one), g, 4 * (one - 1), one);
}

/// A rounded product of two rotors with components between minus one and
/// one has components between minus five and five.
proof fn lemma_product_of_units_bounded(p: Rotor3, q: Rotor3)
    requires
        Quad::of(p).bounded(ONE_RAW as int),
        Quad::of(q).bounded(ONE_RAW as int),
    ensures
        Quad::of(p.mul_spec(q)).bounded(5 * ONE_RAW),
{
    let one = ONE_RAW as int;
    lemma_rotor_mul_error(p, q);
    lemma_gp_bounded(Quad::of(p), Quad::of(q), one, one);
    assert(one * one == 0x1_0000_0000_0000_0000) by (nonlinear_arith)
        requires
            one == 0x1_0000_0000,
    ;
}

/// Multiplying twice by one is multiplying by two to the power of sixty-four.
proof fn lemma_times_one_twice(i: int)
    ensures
        i * ONE_RAW * ONE_RAW == i * 0x1_0000_0000_0000_0000,
{
    assert(i * ONE_RAW * ONE_RAW == i * 0x1_0000_0000_0000_0000) by (nonlinear_arith)
        requires
            ONE_RAW == 0x1_0000_0000,
    ;
}

/// Composition of rotors is associative up to rounding: for rotors whose
/// components lie between minus one and one, as those of every rotor of
/// unit length do, the two ways to compose three of them differ by less
/// than forty units of the last place in every component, which is less
/// than a hundred-millionth.
pub proof fn lemma_rotor_mul_associative(r1: Rotor3, r2: Rotor3, r3: Rotor3)
    requires
        Quad::of(r1).bounded(ONE_RAW as int),
        Quad::of(r2).bounded(ONE_RAW as int),
        Quad::of(r3).bounded(ONE_RAW as int),
    ensures
        Quad::of(r1.mul_spec(r2).mul_spec(r3)).within(
            Quad::of(r1.mul_spec(r2.mul_spec(r3))),
            39,
        ),
{
    let one = ONE_RAW as int;
    let left = r1.mul_spec(r2);
    let right = r2.mul_spec(r3);
    lemma_product_of_units_bounded(r1, r2);
    lemma_product_of_units_bounded(r2, r3);
    lemma_rotor_mul_error(r1, r2);
    lemma_rotor_mul_error(r2, r3);
    lemma_second_product_left(left, Quad::of(r1).gp(Quad::of(r2)), r3);
    lemma_second_product_right(r1, right, Quad::of(r2).gp(Quad::of(r3)));
    lemma_gp_associative(Quad::of(r1), Quad::of(r2), Quad::of(r3));
    assert((one - 1) * one == 0xffff_ffff_0000_0000) by (nonlinear_arith)
        requires
            one == 0x1_0000_0000,
    ;
    let l = Quad::of(left.mul_spec(r3));
    let r = Quad::of(r1.mul_spec(right));
    lemma_times_one_twice(l.a);
    lemma_times_one_twice(l.x);
    lemma_times_one_twice(l.y);
    lemma_times_one_twice(l.z);
    lemma_times_one_twice(r.a);
    lemma_times_one_twice(r.x);
    lemma_times_one_twice(r.y);
    lemma_times_one_twice(r.z);
}

/// The `x` component of [`lemma_odd_associative`].
#[verifier::rlimit(50)]
proof fn lemma_odd_associative_x(p: Quad, o: Odd, q: Quad)
    ensures
        o.lmul(p).rmul(q).x == o.rmul(q).lmul(p).x,
{
    broadcast use
        lemma_mul_is_associative,
        lemma_mul_is_distributive_add,
        lemma_mul_is_distributive_sub,
        lemma_mul_is_distributive_add_other_way,
        lemma_mul_is_distributive_sub_other_way,
    ;
}

/// The `y` component of [`lemma_odd_associative`].
#[verifier::rlimit(50)]
proof fn lemma_odd_associative_y(p: Quad, o: Odd, q: Quad)
    ensures
        o.lmul(p).rmul(q).y == o.rmul(q).lmul(p).y,
{
    broadcast use
        lemma_mul_is_associative,
        lemma_mul_is_distributive_add,
        lemma_mul_is_distributive_sub,
        lemma_mul_is_distributive_add_other_way,
        lemma_mul_is_distributive_sub_other_way,
    ;
}

/// The `z` component of [`lemma_odd_associative`].
#[verifier::rlimit(50)]
proof fn lemma_odd_associative_z(p: Quad, o: Odd, q: Quad)
    ensures
        o.lmul(p).rmul(q).z == o.rmul(q).lmul(p).z,
{
    broadcast use
        lemma_mul_is_associative,
        lemma_mul_is_distributive_add,
        lemma_mul_is_distributive_sub,
        lemma_mul_is_distributive_add_other_way,
        lemma_mul_is_distributive_sub_other_way,
    ;
}

/// The `t` component of [`lemma_odd_associative`].
#[verifier::rlimit(50)]
proof fn lemma_odd_associative_t(p: Quad, o: Odd, q: Quad)
    ensures
        o.lmul(p).rmul(q).t == o.rmul(q).lmul(p).t,
{
    broadcast use
        lemma_mul_is_associative,
        lemma_mul_is_distributive_add,
        lemma_mul_is_distributive_sub,
        lemma_mul_is_distributive_add_other_way,
        lemma_mul_is_distributive_sub_other_way,
    ;
}

/// Products with rotors from the left and from the right can be taken in
/// either order.
pub proof fn lemma_odd_associative(p: Quad, o: Odd, q: Quad)
    ensures
        o.lmul(p).rmul(q) == o.rmul(q).lmul(p),
{
    lemma_odd_associative_x(p, o, q);
    lemma_odd_associative_y(p, o, q);
    lemma_odd_associative_z(p, o, q);
    lemma_odd_associative_t(p, o, q);
}

/// One component of a product with a rotor and its reverse from the
/// right, over plain integers.
#[verifier::rlimit(50)]
proof fn lemma_reverse_right_x(a: int, b: int, c: int, d: int, x: int, y: int, z: int, t: int)
    ensures
        (x * a - y * b - z * c - t * d) * a + (y * a + x * b - z * d + t * c) * b + (z * a + x * c + y * d - t * b) * c + (t * a + z * b - y * c + x * d) * d == x * (a * a + b * b + c * c + d * d),
{
    broadcast use
        lemma_mul_is_associative,
        lemma_mul_is_distributive_add,
        lemma_mul_is_distributive_sub,
        lemma_mul_is_distributive_add_other_way,
        lemma_mul_is_distributive_sub_other_way,
    ;
    lemma_mul_is_commutative(a, b);
    lemma_mul_is_commutative(a, c);
    lemma_mul_is_commutative(a, d);
    lemma_mul_is_commutative(b, c);
    lemma_mul_is_commutative(b, d);
    lemma_mul_is_commutative(c, d);
}

/// One component of a product with a rotor and its reverse from the
/// right, over plain integers.
#[verifier::rlimit(50)]
proof fn lemma_reverse_right_y(a: int, b: int, c: int, d: int, x: int, y: int, z: int, t: int)
    ensures
        (y * a + x * b - z * d + t * c) * a - (x * a - y * b - z * c - t * d) * b + (z * a + x * c + y * d - t * b) * d - (t * a + z * b - y * c + x * d) * c == y * (a * a + b * b + c * c + d * d),
{
    broadcast use
        lemma_mul_is_associative,
        lemma_mul_is_distributive_add,
        lemma_mul_is_distributive_sub,
        lemma_mul_is_distributive_add_other_way,
        lemma_mul_is_distributive_sub_other_way,
    ;
    lemma_mul_is_commutative(a, b);
    lemma_mul_is_commutative(a, c);
    lemma_mul_is_commutative(a, d);
    lemma_mul_is_commutative(b, c);
    lemma_mul_is_commutative(b, d);
    lemma_mul_is_commutative(c, d);
}

/// One component of a product with a rotor and its reverse from the
/// right, over plain integers.
#[verifier::rlimit(50)]
proof fn lemma_reverse_right_z(a: int, b: int, c: int, d: int, x: int, y: int, z: int, t: int)
    ensures
        (z * a + x * c + y * d - t * b) * a - (x * a - y * b - z * c - t * d) * c - (y * a + x * b - z * d + t * c) * d + (t * a + z * b - y * c + x * d) * b == z * (a * a + b * b + c * c + d * d),
{
    broadcast use
        lemma_mul_is_associative,
        lemma_mul_is_distributive_add,
        lemma_mul_is_distributive_sub,
        lemma_mul_is_distributive_add_other_way,
        lemma_mul_is_distributive_sub_other_way,
    ;
    lemma_mul_is_commutative(a, b);
    lemma_mul_is_commutative(a, c);
    lemma_mul_is_commutative(a, d);
    lemma_mul_is_commutative(b, c);
    lemma_mul_is_commutative(b, d);
    lemma_mul_is_commutative(c, d);
}

/// One component of a product with a rotor and its reverse from the
/// right, over plain integers.
#[verifier::rlimit(50)]
proof fn lemma_reverse_right_t(a: int, b: int, c: int, d: int, x: int, y: int, z: int, t: int)
    ensures
        (t * a + z * b - y * c + x * d) * a - (z * a + x * c + y * d - t * b) * b + (y * a + x * b - z * d + t * c) * c - (x * a - y * b - z * c - t * d) * d == t * (a * a + b * b + c * c + d * d),
{
    broadcast use
        lemma_mul_is_associative,
        lemma_mul_is_distributive_add,
        lemma_mul_is_distributive_sub,
        lemma_mul_is_distributive_add_other_way,
        lemma_mul_is_distributive_sub_other_way,
    ;
    lemma_mul_is_commutative(a, b);
    lemma_mul_is_commutative(a, c);
    lemma_mul_is_commutative(a, d);
    lemma_mul_is_commutative(b, c);
    lemma_mul_is_commutative(b, d);
    lemma_mul_is_commutative(c, d);
}

/// One component of a product with a rotor and its reverse from the
/// left, over plain integers.
#[verifier::rlimit(50)]
proof fn lemma_reverse_left_x(a: int, b: int, c: int, d: int, x: int, y: int, z: int, t: int)
    ensures
        a * (a * x - b * y - c * z + d * t) + b * (a * y + b * x - d * z - c * t) + c * (a * z + c * x + d * y + b * t) - d * (a * t - b * z + c * y - d * x) == (a * a + b * b + c * c + d * d) * x,
{
    broadcast use
        lemma_mul_is_associative,
        lemma_mul_is_distributive_add,
        lemma_mul_is_distributive_sub,
        lemma_mul_is_distributive_add_other_way,
        lemma_mul_is_distributive_sub_other_way,
    ;
    lemma_mul_is_commutative(a, b);
    lemma_mul_is_commutative(a, c);
    lemma_mul_is_commutative(a, d);
    lemma_mul_is_commutative(b, c);
    lemma_mul_is_commutative(b, d);
    lemma_mul_is_commutative(c, d);
}

/// One component of a product with a rotor and its reverse from the
/// left, over plain integers.
#[verifier::rlimit(50)]
proof fn lemma_reverse_left_y(a: int, b: int, c: int, d: int, x: int, y: int, z: int, t: int)
    ensures
        a * (a * y + b * x - d * z - c * t) - b * (a * x - b * y - c * z + d * t) + d * (a * z + c * x + d * y + b * t) + c * (a * t - b * z + c * y - d * x) == (a * a + b * b + c * c + d * d) * y,
{
    broadcast use
        lemma_mul_is_associative,
        lemma_mul_is_distributive_add,
        lemma_mul_is_distributive_sub,
        lemma_mul_is_distributive_add_other_way,
        lemma_mul_is_distributive_sub_other_way,
    ;
    lemma_mul_is_commutative(a, b);
    lemma_mul_is_commutative(a, c);
    lemma_mul_is_commutative(a, d);
    lemma_mul_is_commutative(b, c);
    lemma_mul_is_commutative(b, d);
    lemma_mul_is_commutative(c, d);
}

/// One component of a product with a rotor and its reverse from the
/// left, over plain integers.
#[verifier::rlimit(50)]
proof fn lemma_reverse_left_z(a: int, b: int, c: int, d: int, x: int, y: int, z: int, t: int)
    ensures
        a * (a * z + c * x + d * y + b * t) - c * (a * x - b * y - c * z + d * t) - d * (a * y + b * x - d * z - c * t) - b * (a * t - b * z + c * y - d * x) == (a * a + b * b + c * c + d * d) * z,
{
    broadcast use
        lemma_mul_is_associative,
        lemma_mul_is_distributive_add,
        lemma_mul_is_distributive_sub,
        lemma_mul_is_distributive_add_other_way,
        lemma_mul_is_distributive_sub_other_way,
    ;
    lemma_mul_is_commutative(a, b);
    lemma_mul_is_commutative(a, c);
    lemma_mul_is_commutative(a, d);
    lemma_mul_is_commutative(b, c);
    lemma_mul_is_commutative(b, d);
    lemma_mul_is_commutative(c, d);
}

/// One component of a product with a rotor and its reverse from the
/// left, over plain integers.
#[verifier::rlimit(50)]
proof fn lemma_reverse_left_t(a: int, b: int, c: int, d: int, x: int, y: int, z: int, t: int)
    ensures
        a * (a * t - b * z + c * y - d * x) + b * (a * z + c * x + d * y + b * t) - c * (a * y + b * x - d * z - c * t) + d * (a * x - b * y - c * z + d * t) == (a * a + b * b + c * c + d * d) * t,
{
    broadcast use
        lemma_mul_is_associative,
        lemma_mul_is_distributive_add,
        lemma_mul_is_distributive_sub,
        lemma_mul_is_distributive_add_other_way,
        lemma_mul_is_distributive_sub_other_way,
    ;
    lemma_mul_is_commutative(a, b);
    lemma_mul_is_commutative(a, c);
    lemma_mul_is_commutative(a, d);
    lemma_mul_is_commutative(b, c);
    lemma_mul_is_commutative(b, d);
    lemma_mul_is_commutative(c, d);
}

/// The products with the reverse of a rotor, with the negations carried
/// to the front of each term.
proof fn lemma_reverse_products(o: Odd, r: Quad)
    ensures
        o.rmul(r.rev()) == (Odd {
            x: o.x * r.a + o.y * r.x + o.z * r.y + o.t * r.z,
            y: o.y * r.a - o.x * r.x + o.z * r.z - o.t * r.y,
            z: o.z * r.a - o.x * r.y - o.y * r.z + o.t * r.x,
            t: o.t * r.a - o.z * r.x + o.y * r.y - o.x * r.z,
        }),
        o.lmul(r.rev()) == (Odd {
            x: r.a * o.x - r.x * o.y - r.y * o.z + r.z * o.t,
            y: r.a * o.y + r.x * o.x - r.z * o.z - r.y * o.t,
            z: r.a * o.z + r.y * o.x + r.z * o.y + r.x * o.t,
            t: r.a * o.t - r.x * o.z + r.y * o.y - r.z * o.x,
        }),
{
    lemma_mul_unary_negation(r.x, o.x);
    lemma_mul_unary_negation(o.x, r.x);
    lemma_mul_unary_negation(r.x, o.y);
    lemma_mul_unary_negation(o.y, r.x);
    lemma_mul_unary_negation(r.x, o.z);
    lemma_mul_unary_negation(o.z, r.x);
    lemma_mul_unary_negation(r.x, o.t);
    lemma_mul_unary_negation(o.t, r.x);
    lemma_mul_unary_negation(r.y, o.x);
    lemma_mul_unary_negation(o.x, r.y);
    lemma_mul_unary_negation(r.y, o.y);
    lemma_mul_unary_negation(o.y, r.y);
    lemma_mul_unary_negation(r.y, o.z);
    lemma_mul_unary_negation(o.z, r.y);
    lemma_mul_unary_negation(r.y, o.t);
    lemma_mul_unary_negation(o.t, r.y);
    lemma_mul_unary_negation(r.z, o.x);
    lemma_mul_unary_negation(o.x, r.z);
    lemma_mul_unary_negation(r.z, o.y);
    lemma_mul_unary_negation(o.y, r.z);
    lemma_mul_unary_negation(r.z, o.z);
    lemma_mul_unary_negation(o.z, r.z);
    lemma_mul_unary_negation(r.z, o.t);
    lemma_mul_unary_negation(o.t, r.z);
}

/// A product with a rotor from the right and then with its reverse
/// multiplies by the squared length of the rotor.
pub proof fn lemma_rmul_reverse(o: Odd, r: Quad)
    ensures
        o.rmul(r).rmul(r.rev()) == o.times(r.norm2()),
{
    lemma_reverse_products(o.rmul(r), r);
    lemma_reverse_right_x(r.a, r.x, r.y, r.z, o.x, o.y, o.z, o.t);
    lemma_reverse_right_y(r.a, r.x, r.y, r.z, o.x, o.y, o.z, o.t);
    lemma_reverse_right_z(r.a, r.x, r.y, r.z, o.x, o.y, o.z, o.t);
    lemma_reverse_right_t(r.a, r.x, r.y, r.z, o.x, o.y, o.z, o.t);
}

/// A product with the reverse of a rotor from the left and then with the
/// rotor multiplies by the squared length of the rotor.
pub proof fn lemma_lmul_reverse(o: Odd, r: Quad)
    ensures
        o.lmul(r.rev()).lmul(r) == o.times(r.norm2()),
{
    lemma_reverse_products(o, r);
    lemma_reverse_left_x(r.a, r.x, r.y, r.z, o.x, o.y, o.z, o.t);
    lemma_reverse_left_y(r.a, r.x, r.y, r.z, o.x, o.y, o.z, o.t);
    lemma_reverse_left_z(r.a, r.x, r.y, r.z, o.x, o.y, o.z, o.t);
    lemma_reverse_left_t(r.a, r.x, r.y, r.z, o.x, o.y, o.z, o.t);
    lemma_mul_is_commutative(o.x, r.norm2());
    lemma_mul_is_commutative(o.y, r.norm2());
    lemma_mul_is_commutative(o.z, r.norm2());
    lemma_mul_is_commutative(o.t, r.norm2());
}

/// The exact sandwich product of a vector is a vector again: it has no
/// volume part.
pub proof fn lemma_sandwich_is_vector(r: Quad, o: Odd)
    requires
        o.t == 0,
    ensures
        sandwich(r, o).t == 0,
{
    lemma_lmul_reverse_t(o, r);
    assert(r.norm2() * 0 == 0) by (nonlinear_arith);
}

/// The volume part of a product with a rotor and its reverse from the two
/// sides: the squared length of the rotor times the volume part.
proof fn lemma_lmul_reverse_t(o: Odd, r: Quad)
    ensures
        o.rmul(r).lmul(r.rev()).t == r.norm2() * o.t,
{
    lemma_reverse_products(o.rmul(r), r);
    lemma_sandwich_volume(r.a, r.x, r.y, r.z, o.x, o.y, o.z, o.t);
}

/// The volume part of the exact sandwich product, over plain integers.
#[verifier::rlimit(50)]
proof fn lemma_sandwich_volume(a: int, b: int, c: int, d: int, x: int, y: int, z: int, t: int)
    ensures
        a * (t * a + z * b - y * c + x * d) - b * (z * a + x * c + y * d - t * b) + c * (y * a + x
            * b - z * d + t * c) - d * (x * a - y * b - z * c - t * d) == (a * a + b * b + c * c
            + d * d) * t,
{
    broadcast use
        lemma_mul_is_associative,
        lemma_mul_is_distributive_add,
        lemma_mul_is_distributive_sub,
        lemma_mul_is_distributive_add_other_way,
        lemma_mul_is_distributive_sub_other_way,
    ;
    lemma_mul_is_commutative(a, b);
    lemma_mul_is_commutative(a, c);
    lemma_mul_is_commutative(a, d);
    lemma_mul_is_commutative(b, c);
    lemma_mul_is_commutative(b, d);
    lemma_mul_is_commutative(c, d);
    lemma_mul_is_commutative(a, x);
    lemma_mul_is_commutative(a, y);
    lemma_mul_is_commutative(a, z);
    lemma_mul_is_commutative(a, t);
    lemma_mul_is_commutative(b, x);
    lemma_mul_is_commutative(b, y);
    lemma_mul_is_commutative(b, z);
    lemma_mul_is_commutative(b, t);
    lemma_mul_is_commutative(c, x);
    lemma_mul_is_commutative(c, y);
    lemma_mul_is_commutative(c, z);
    lemma_mul_is_commutative(c, t);
    lemma_mul_is_commutative(d, x);
    lemma_mul_is_commutative(d, y);
    lemma_mul_is_commutative(d, z);
    lemma_mul_is_commutative(d, t);
}

/// Without rounding, turning a vector by a rotor and then by the reverse
/// of the rotor multiplies the vector by the fourth power of the rotor's
/// length.
pub proof fn lemma_round_trip_exact(r: Quad, o: Odd)
    ensures
        sandwich(r.rev(), sandwich(r, o)) == o.times(r.norm2()).times(r.norm2()),
{
    let rr = r.rev();
    assert(rr.rev() == r);
    let a = o.rmul(r);
    lemma_odd_associative(rr, a, rr);
    lemma_rmul_reverse(o, r);
    lemma_lmul_reverse(o.times(r.norm2()), r);
}

/// The exact products of a bounded vector with a bounded rotor are bounded.
pub proof fn lemma_odd_bounded(o: Odd, r: Quad, b: int, c: int)
    requires
        o.bounded(b),
        r.bounded(c),
    ensures
        o.rmul(r).bounded(4 * (c * b)),
        o.lmul(r).bounded(4 * (c * b)),
{
    lemma_abs_mul(r.a, o.x, c, b);
    lemma_mul_is_commutative(r.a, o.x);
    lemma_abs_mul(r.a, o.y, c, b);
    lemma_mul_is_commutative(r.a, o.y);
    lemma_abs_mul(r.a, o.z, c, b);
    lemma_mul_is_commutative(r.a, o.z);
    lemma_abs_mul(r.a, o.t, c, b);
    lemma_mul_is_commutative(r.a, o.t);
    lemma_abs_mul(r.x, o.x, c, b);
    lemma_mul_is_commutative(r.x, o.x);
    lemma_abs_mul(r.x, o.y, c, b);
    lemma_mul_is_commutative(r.x, o.y);
    lemma_abs_mul(r.x, o.z, c, b);
    lemma_mul_is_commutative(r.x, o.z);
    lemma_abs_mul(r.x, o.t, c, b);
    lemma_mul_is_commutative(r.x, o.t);
    lemma_abs_mul(r.y, o.x, c, b);
    lemma_mul_is_commutative(r.y, o.x);
    lemma_abs_mul(r.y, o.y, c, b);
    lemma_mul_is_commutative(r.y, o.y);
    lemma_abs_mul(r.y, o.z, c, b);
    lemma_mul_is_commutative(r.y, o.z);
    lemma_abs_mul(r.y, o.t, c, b);
    lemma_mul_is_commutative(r.y, o.t);
    lemma_abs_mul(r.z, o.x, c, b);
    lemma_mul_is_commutative(r.z, o.x);
    lemma_abs_mul(r.z, o.y, c, b);
    lemma_mul_is_commutative(r.z, o.y);
    lemma_abs_mul(r.z, o.z, c, b);
    lemma_mul_is_commutative(r.z, o.z);
    lemma_abs_mul(r.z, o.t, c, b);
    lemma_mul_is_commutative(r.z, o.t);
}

/// Where a vector changes by at most `e` in every component, its exact
/// products with a rotor bounded by `c` change by at most `4 c e`.
pub proof fn lemma_odd_error(o: Odd, o_near: Odd, r: Quad, e: int, c: int)
    requires
        o.within(o_near, e),
        r.bounded(c),
    ensures
        o.rmul(r).within(o_near.rmul(r), 4 * (c * e)),
        o.lmul(r).within(o_near.lmul(r), 4 * (c * e)),
{
    let d = o.minus(o_near);
    assert(o.rmul(r).minus(o_near.rmul(r)) == d.rmul(r) && o.lmul(r).minus(o_near.lmul(r)) == d.lmul(r))
        by {
        broadcast use
                lemma_mul_is_distributive_add,
                lemma_mul_is_distributive_sub,
                lemma_mul_is_distributive_add_other_way,
                lemma_mul_is_distributive_sub_other_way,
        ;
    }
    lemma_odd_bounded(d, r, e, c);
}

/// Scaling a vector scales its exact products with a rotor.
#[verifier::rlimit(50)]
pub proof fn lemma_odd_times(o: Odd, r: Quad, k: int)
    ensures
        o.times(k).rmul(r) == o.rmul(r).times(k),
        o.times(k).lmul(r) == o.lmul(r).times(k),
{
    broadcast use
        lemma_mul_is_associative,
        lemma_mul_is_distributive_add,
        lemma_mul_is_distributive_sub,
        lemma_mul_is_distributive_add_other_way,
        lemma_mul_is_distributive_sub_other_way,
    ;
    lemma_mul_is_commutative(k, r.a);
    lemma_mul_is_commutative(k, r.x);
    lemma_mul_is_commutative(k, r.y);
    lemma_mul_is_commutative(k, r.z);
}

/// Scaling by a positive number scales a distance.
pub proof fn lemma_odd_scaled_within(o: Odd, o_near: Odd, e: int, k: int)
    requires
        o.within(o_near, e),
        k > 0,
    ensures
        o.times(k).within(o_near.times(k), e * k),
{
    lemma_scaled_abs(o.x - o_near.x, e, k);
    lemma_scaled_abs(o.y - o_near.y, e, k);
    lemma_scaled_abs(o.z - o_near.z, e, k);
    lemma_scaled_abs(o.t - o_near.t, e, k);
    broadcast use
        lemma_mul_is_distributive_add,
        lemma_mul_is_distributive_sub,
        lemma_mul_is_distributive_add_other_way,
        lemma_mul_is_distributive_sub_other_way,
    ;
}

/// The two parts of the first half of a turn, as four integers.
pub open spec fn half_turn_raw(r: Rotor3, v: Vector3) -> Odd {
    let q = r.half_turn_spec(v);
    Odd { x: q.x@, y: q.y@, z: q.z@, t: r.trivector_spec(v)@ }
}

/// The `x` component of [`lemma_half_turn_error`].
proof fn lemma_half_turn_error_x(r: Rotor3, v: Vector3)
    requires
        Quad::of(r).bounded(small_bound()),
        Odd::of(v).bounded(big_bound()),
    ensures
        abs(half_turn_raw(r, v).times(ONE_RAW as int).x - Odd::of(v).rmul(Quad::of(r)).x) <= 3 * (
            ONE_RAW - 1),
{
    reveal(Scalar::mul_spec);
    reveal(Scalar::add_spec);
    reveal(Scalar::sub_spec);
    lemma_mul_raw_error(r.a@, v.x@);
    lemma_mul_is_commutative(r.a@, v.x@);
    lemma_mul_raw_error(v.y@, r.b12@);
    lemma_mul_raw_error(v.z@, r.b13@);
    assert(0 * r.a@ == 0 && 0 * r.b12@ == 0 && 0 * r.b13@ == 0 && 0 * r.b23@ == 0)
        by (nonlinear_arith);
}

/// The `y` component of [`lemma_half_turn_error`].
proof fn lemma_half_turn_error_y(r: Rotor3, v: Vector3)
    requires
        Quad::of(r).bounded(small_bound()),
        Odd::of(v).bounded(big_bound()),
    ensures
        abs(half_turn_raw(r, v).times(ONE_RAW as int).y - Odd::of(v).rmul(Quad::of(r)).y) <= 3 * (
            ONE_RAW - 1),
{
    reveal(Scalar::mul_spec);
    reveal(Scalar::add_spec);
    reveal(Scalar::sub_spec);
    lemma_mul_raw_error(r.a@, v.y@);
    lemma_mul_is_commutative(r.a@, v.y@);
    lemma_mul_raw_error(v.x@, r.b12@);
    lemma_mul_raw_error(v.z@, r.b23@);
    assert(0 * r.a@ == 0 && 0 * r.b12@ == 0 && 0 * r.b13@ == 0 && 0 * r.b23@ == 0)
        by (nonlinear_arith);
}

/// The `z` component of [`lemma_half_turn_error`].
proof fn lemma_half_turn_error_z(r: Rotor3, v: Vector3)
    requires
        Quad::of(r).bounded(small_bound()),
        Odd::of(v).bounded(big_bound()),
    ensures
        abs(half_turn_raw(r, v).times(ONE_RAW as int).z - Odd::of(v).rmul(Quad::of(r)).z) <= 3 * (
            ONE_RAW - 1),
{
    reveal(Scalar::mul_spec);
    reveal(Scalar::add_spec);
    reveal(Scalar::sub_spec);
    lemma_mul_raw_error(r.a@, v.z@);
    lemma_mul_is_commutative(r.a@, v.z@);
    lemma_mul_raw_error(v.x@, r.b13@);
    lemma_mul_raw_error(v.y@, r.b23@);
    assert(0 * r.a@ == 0 && 0 * r.b12@ == 0 && 0 * r.b13@ == 0 && 0 * r.b23@ == 0)
        by (nonlinear_arith);
}

/// The `t` component of [`lemma_half_turn_error`].
proof fn lemma_half_turn_error_t(r: Rotor3, v: Vector3)
    requires
        Quad::of(r).bounded(small_bound()),
        Odd::of(v).bounded(big_bound()),
    ensures
        abs(half_turn_raw(r, v).times(ONE_RAW as int).t - Odd::of(v).rmul(Quad::of(r)).t) <= 3 * (
            ONE_RAW - 1),
{
    reveal(Scalar::mul_spec);
    reveal(Scalar::add_spec);
    reveal(Scalar::sub_spec);
    lemma_mul_raw_error(v.x@, r.b23@);
    lemma_mul_raw_error(v.y@, r.b13@);
    lemma_mul_raw_error(v.z@, r.b12@);
    assert(0 * r.a@ == 0 && 0 * r.b12@ == 0 && 0 * r.b13@ == 0 && 0 * r.b23@ == 0)
        by (nonlinear_arith);
}

/// The first half of a turn, scaled by one, is within three units of the
/// last place of the exact product of the vector with the rotor.
pub proof fn lemma_half_turn_error(r: Rotor3, v: Vector3)
    requires
        Quad::of(r).bounded(small_bound()),
        Odd::of(v).bounded(big_bound()),
    ensures
        half_turn_raw(r, v).times(ONE_RAW as int).within(
            Odd::of(v).rmul(Quad::of(r)),
            3 * (ONE_RAW - 1),
        ),
{
    lemma_half_turn_error_x(r, v);
    lemma_half_turn_error_y(r, v);
    lemma_half_turn_error_z(r, v);
    lemma_half_turn_error_t(r, v);
}

/// The `x` coordinate of [`lemma_finish_turn_error`].
proof fn lemma_finish_turn_error_x(r: Rotor3, q: Vector3, q321: Scalar)
    requires
        Quad::of(r).bounded(small_bound()),
        Odd::of(q).bounded(big_bound()),
        abs(q321@) <= big_bound(),
    ensures
        ({
            let out = Odd::of(r.finish_turn_spec(q, q321)).times(ONE_RAW as int);
            let exact = (Odd { x: q.x@, y: q.y@, z: q.z@, t: q321@ }).lmul(Quad::of(r).rev());
            abs(out.x - exact.x) <= 4 * (ONE_RAW - 1)
        }),
{
    reveal(Scalar::mul_spec);
    reveal(Scalar::add_spec);
    reveal(Scalar::sub_spec);
    lemma_reverse_products(Odd { x: q.x@, y: q.y@, z: q.z@, t: q321@ }, Quad::of(r));
    lemma_mul_raw_error(r.a@, q.x@);
    lemma_mul_raw_error(q.y@, r.b12@);
    lemma_mul_is_commutative(q.y@, r.b12@);
    lemma_mul_raw_error(q.z@, r.b13@);
    lemma_mul_is_commutative(q.z@, r.b13@);
    lemma_mul_raw_error(q321@, r.b23@);
    lemma_mul_is_commutative(q321@, r.b23@);
}

/// The `y` coordinate of [`lemma_finish_turn_error`].
proof fn lemma_finish_turn_error_y(r: Rotor3, q: Vector3, q321: Scalar)
    requires
        Quad::of(r).bounded(small_bound()),
        Odd::of(q).bounded(big_bound()),
        abs(q321@) <= big_bound(),
    ensures
        ({
            let out = Odd::of(r.finish_turn_spec(q, q321)).times(ONE_RAW as int);
            let exact = (Odd { x: q.x@, y: q.y@, z: q.z@, t: q321@ }).lmul(Quad::of(r).rev());
            abs(out.y - exact.y) <= 4 * (ONE_RAW - 1)
        }),
{
    reveal(Scalar::mul_spec);
    reveal(Scalar::add_spec);
    reveal(Scalar::sub_spec);
    lemma_reverse_products(Odd { x: q.x@, y: q.y@, z: q.z@, t: q321@ }, Quad::of(r));
    lemma_mul_raw_error(r.a@, q.y@);
    lemma_mul_raw_error(q.x@, r.b12@);
    lemma_mul_is_commutative(q.x@, r.b12@);
    lemma_mul_raw_error(q.z@, r.b23@);
    lemma_mul_is_commutative(q.z@, r.b23@);
    lemma_mul_raw_error(q321@, r.b13@);
    lemma_mul_is_commutative(q321@, r.b13@);
}

/// The `z` coordinate of [`lemma_finish_turn_error`].
proof fn lemma_finish_turn_error_z(r: Rotor3, q: Vector3, q321: Scalar)
    requires
        Quad::of(r).bounded(small_bound()),
        Odd::of(q).bounded(big_bound()),
        abs(q321@) <= big_bound(),
    ensures
        ({
            let out = Odd::of(r.finish_turn_spec(q, q321)).times(ONE_RAW as int);
            let exact = (Odd { x: q.x@, y: q.y@, z: q.z@, t: q321@ }).lmul(Quad::of(r).rev());
            abs(out.z - exact.z) <= 4 * (ONE_RAW - 1)
        }),
{
    reveal(Scalar::mul_spec);
    reveal(Scalar::add_spec);
    reveal(Scalar::sub_spec);
    lemma_reverse_products(Odd { x: q.x@, y: q.y@, z: q.z@, t: q321@ }, Quad::of(r));
    lemma_mul_raw_error(r.a@, q.z@);
    lemma_mul_raw_error(q.x@, r.b13@);
    lemma_mul_is_commutative(q.x@, r.b13@);
    lemma_mul_raw_error(q.y@, r.b23@);
    lemma_mul_is_commutative(q.y@, r.b23@);
    lemma_mul_raw_error(q321@, r.b12@);
    lemma_mul_is_commutative(q321@, r.b12@);
}

/// The second half of a turn, scaled by one, is within four units of the
/// last place of the vector part of the exact product with the reverse of
/// the rotor.
pub proof fn lemma_finish_turn_error(r: Rotor3, q: Vector3, q321: Scalar)
    requires
        Quad::of(r).bounded(small_bound()),
        Odd::of(q).bounded(big_bound()),
        abs(q321@) <= big_bound(),
    ensures
        ({
            let out = Odd::of(r.finish_turn_spec(q, q321)).times(ONE_RAW as int);
            let exact = (Odd { x: q.x@, y: q.y@, z: q.z@, t: q321@ }).lmul(Quad::of(r).rev());
            abs(out.x - exact.x) <= 4 * (ONE_RAW - 1) && abs(out.y - exact.y) <= 4 * (ONE_RAW - 1)
                && abs(out.z - exact.z) <= 4 * (ONE_RAW - 1)
        }),
{
    lemma_finish_turn_error_x(r, q, q321);
    lemma_finish_turn_error_y(r, q, q321);
    lemma_finish_turn_error_z(r, q, q321);
}

/// Bound on the components of a rotor in the lemmas on turning: two.
pub open spec fn rotor_bound() -> int {
    0x2_0000_0000
}

/// How far a turned vector, scaled by the square of one, can be from the
/// exact sandwich product: twenty-eight units of the last place, scaled
/// by the square of one.
pub open spec fn turn_error() -> int {
    28int * 0xffff_ffff_0000_0000
}

/// A vector turned by a rotor whose components lie between minus two and
/// two differs from the exact sandwich product by less than twenty-eight
/// units of the last place in every coordinate.
pub proof fn lemma_rotate_error(r: Rotor3, v: Vector3, b: int)
    requires
        Quad::of(r).bounded(rotor_bound()),
        Odd::of(v).bounded(b),
        0 <= b <= 0x4_0000_0000_0000,
    ensures
        Odd::of(r.rotate_vector_spec(v)).times(ONE_RAW as int).times(ONE_RAW as int).within(
            sandwich(Quad::of(r), Odd::of(v)),
            turn_error(),
        ),
        sandwich(Quad::of(r), Odd::of(v)).bounded(0x40_0000_0000_0000_0000 * b),
{
    let one = ONE_RAW as int;
    let c = rotor_bound();
    let rq = Quad::of(r);
    let rr = rq.rev();
    let vo = Odd::of(v);
    let q = half_turn_raw(r, v);
    let a = vo.rmul(rq);
    let s = sandwich(rq, vo);
    lemma_half_turn_error(r, v);
    lemma_odd_bounded(vo, rq, b, c);
    assert(c * b == 0x2_0000_0000 * b);
    assert(q.times(one).bounded(4 * (0x2_0000_0000 * b) + 3 * (one - 1)));
    assert(q.bounded(8 * b + 3));
    let qv = r.half_turn_spec(v);
    let q321 = r.trivector_spec(v);
    lemma_finish_turn_error(r, qv, q321);
    let out = Odd::of(r.rotate_vector_spec(v));
    let ql = q.lmul(rr);
    lemma_odd_error(q.times(one), a, rr, 3 * (one - 1), c);
    lemma_odd_times(q, rr, one);
    assert(c * (3 * (one - 1)) == 6 * 0xffff_ffff_0000_0000) by (nonlinear_arith)
        requires
            c == 0x2_0000_0000,
            one == 0x1_0000_0000,
    ;
    lemma_scaled_abs(out.times(one).x - ql.x, 4 * (one - 1), one);
    lemma_scaled_abs(out.times(one).y - ql.y, 4 * (one - 1), one);
    lemma_scaled_abs(out.times(one).z - ql.z, 4 * (one - 1), one);
    assert((4 * (one - 1)) * one == 4 * 0xffff_ffff_0000_0000) by (nonlinear_arith)
        requires
            one == 0x1_0000_0000,
    ;
    lemma_sub_times(out.times(one).x, ql.x, one);
    lemma_sub_times(out.times(one).y, ql.y, one);
    lemma_sub_times(out.times(one).z, ql.z, one);
    lemma_sandwich_is_vector(rq, vo);
    assert(out.times(one).times(one).t == 0) by (nonlinear_arith)
        requires
            out.times(one).times(one).t == out.t * one * one,
            out.t == 0,
    ;
    lemma_odd_bounded(a, rr, 4 * (c * b), c);
    assert(4 * (c * (4 * (c * b))) == 0x40_0000_0000_0000_0000 * b) by (nonlinear_arith)
        requires
            c == 0x2_0000_0000,
    ;
}

/// A difference times a number is the difference of the products.
proof fn lemma_sub_times(a: int, b: int, k: int)
    ensures
        (a - b) * k == a * k - b * k,
{
    assert((a - b) * k == a * k - b * k) by (nonlinear_arith);
}

/// A number times the square of a squared length, split into the part
/// for unit length and the rest.
proof fn lemma_fourth_power_split(v: int, n2: int, e: int)
    requires
        e == n2 * n2 - 0x1_0000_0000_0000_0000_0000_0000_0000_0000,
    ensures
        v * n2 * n2 == v * 0x1_0000_0000_0000_0000_0000_0000_0000_0000 + v * e,
{
    assert(v * n2 * n2 == v * (n2 * n2)) by (nonlinear_arith);
    assert(v * (n2 * n2) == v * 0x1_0000_0000_0000_0000_0000_0000_0000_0000 + v * e)
        by (nonlinear_arith)
        requires
            n2 * n2 == 0x1_0000_0000_0000_0000_0000_0000_0000_0000 + e,
    ;
}

/// Multiplying four times by one is multiplying by two to the power of
/// one hundred and twenty-eight.
proof fn lemma_times_one_four_times(i: int)
    ensures
        i * ONE_RAW * ONE_RAW * ONE_RAW * ONE_RAW == i * 0x1_0000_0000_0000_0000_0000_0000_0000_0000,
{
    assert(i * ONE_RAW * ONE_RAW * ONE_RAW * ONE_RAW == i
        * 0x1_0000_0000_0000_0000_0000_0000_0000_0000) by (nonlinear_arith)
        requires
            ONE_RAW == 0x1_0000_0000,
    ;
}

/// A rotor has unit length up to a millionth: its squared length differs
/// from one by at most two to the power of minus twenty.
pub open spec fn is_near_unit(r: Rotor3) -> bool {
    abs(Quad::of(r).norm2() - 0x1_0000_0000_0000_0000) <= 0x1000_0000_0000
}

/// The components of a rotor of near unit length lie between minus two and two.
pub proof fn lemma_near_unit_bounded(r: Rotor3)
    requires
        is_near_unit(r),
    ensures
        Quad::of(r).bounded(rotor_bound()),
        Quad::of(r.reverse_spec()) == Quad::of(r).rev(),
        Quad::of(r).rev().bounded(rotor_bound()),
{
    reveal(Scalar::neg_spec);
    let q = Quad::of(r);
    assert(q.bounded(0x2_0000_0000)) by (nonlinear_arith)
        requires
            q.a * q.a + q.x * q.x + q.y * q.y + q.z * q.z <= 0x1_0000_0000_0000_0000
                + 0x1000_0000_0000,
            q.bounded(0x2_0000_0000) == (abs(q.a) <= 0x2_0000_0000 && abs(q.x) <= 0x2_0000_0000
                && abs(q.y) <= 0x2_0000_0000 && abs(q.z) <= 0x2_0000_0000),
            forall|i: int| abs(i) == if i < 0 { -i } else { i },
    ;
}

/// Turning a vector by a rotor and then by the reverse of the rotor gives
/// the vector back, up to rounding: for a rotor of unit length up to a
/// millionth and a vector with coordinates between minus thirty-two and
/// thirty-two, every coordinate comes back within a ten-thousandth.
pub proof fn lemma_rotor_round_trip(r: Rotor3, v: Vector3)
    requires
        is_near_unit(r),
        Odd::of(v).bounded(32 * ONE_RAW),
    ensures
        ({
            let back = r.reverse_spec().rotate_vector_spec(r.rotate_vector_spec(v));
            Odd::of(back).within(Odd::of(v), ONE_RAW as int / 10000)
        }),
{
    let one = ONE_RAW as int;
    let c = rotor_bound();
    let rq = Quad::of(r);
    let rr = rq.rev();
    let vo = Odd::of(v);
    let n2 = rq.norm2();
    lemma_near_unit_bounded(r);
    let w = r.rotate_vector_spec(v);
    let wo = Odd::of(w);
    let s1 = sandwich(rq, vo);
    lemma_rotate_error(r, v, 32 * one);
    // the turned vector is bounded
    let w2 = wo.times(one).times(one);
    lemma_times_one_twice(wo.x);
    lemma_times_one_twice(wo.y);
    lemma_times_one_twice(wo.z);
    let wb: int = 0x800_0000_0000int + 28;
    assert(wo.bounded(wb));
    let back = r.reverse_spec().rotate_vector_spec(w);
    let bo = Odd::of(back);
    lemma_rotate_error(r.reverse_spec(), w, wb);
    let s2 = sandwich(rr, wo);
    // the exact sandwich is linear: scale it, then move from the rounded to the exact vector
    lemma_odd_times(wo, rr, one);
    lemma_odd_times(wo.rmul(rr), rr.rev(), one);
    lemma_odd_times(wo.times(one), rr, one);
    lemma_odd_times(wo.times(one).rmul(rr), rr.rev(), one);
    assert(sandwich(rr, w2) == s2.times(one).times(one));
    lemma_odd_error(w2, s1, rr, turn_error(), c);
    lemma_odd_error(w2.rmul(rr), s1.rmul(rr), rr.rev(), 4 * (c * turn_error()), c);
    assert(4 * (c * (4 * (c * turn_error()))) == 0x40_0000_0000_0000_0000 * turn_error())
        by (nonlinear_arith)
        requires
            c == 0x2_0000_0000,
    ;
    lemma_round_trip_exact(rq, vo);
    let target = vo.times(n2).times(n2);
    assert(sandwich(rr, w2).within(target, 0x40_0000_0000_0000_0000 * turn_error()));
    // the rounded result, scaled four times, against the exact one
    lemma_odd_scaled_within(bo.times(one).times(one), s2, turn_error(), one);
    lemma_odd_scaled_within(
        bo.times(one).times(one).times(one),
        s2.times(one),
        turn_error() * one,
        one,
    );
    assert(turn_error() * one * one == 0x1_0000_0000_0000_0000 * turn_error()) by (nonlinear_arith)
        requires
            one == 0x1_0000_0000,
    ;
    lemma_times_one_four_times(bo.x);
    lemma_times_one_four_times(bo.y);
    lemma_times_one_four_times(bo.z);
    // the squared length is near one
    let d = n2 - 0x1_0000_0000_0000_0000;
    assert(abs(n2 * n2 - 0x1_0000_0000_0000_0000_0000_0000_0000_0000)
        <= 0x2000_0000_0000_0000_0000_0000_0000 + 0x100_0000_0000_0000_0000_0000)
        by (nonlinear_arith)
        requires
            n2 == 0x1_0000_0000_0000_0000 + d,
            -0x1000_0000_0000 <= d <= 0x1000_0000_0000,
            abs(n2 * n2 - 0x1_0000_0000_0000_0000_0000_0000_0000_0000) == n2 * n2
                - 0x1_0000_0000_0000_0000_0000_0000_0000_0000 || abs(
                n2 * n2 - 0x1_0000_0000_0000_0000_0000_0000_0000_0000,
            ) == 0x1_0000_0000_0000_0000_0000_0000_0000_0000 - n2 * n2,
    ;
    let e = n2 * n2 - 0x1_0000_0000_0000_0000_0000_0000_0000_0000;
    let eb: int = 0x2000_0000_0000_0000_0000_0000_0000int + 0x100_0000_0000_0000_0000_0000;
    lemma_abs_mul(vo.x, e, 32 * one, eb);
    lemma_abs_mul(vo.y, e, 32 * one, eb);
    lemma_abs_mul(vo.z, e, 32 * one, eb);
    lemma_fourth_power_split(vo.x, n2, e);
    lemma_fourth_power_split(vo.y, n2, e);
    lemma_fourth_power_split(vo.z, n2, e);
    assert((32 * one) * eb == 0x4_0000_0000_0000_0000_0000_0000_0000_0000_0000
        + 0x2000_0000_0000_0000_0000_0000_0000_0000) by (nonlinear_arith)
        requires
            one == 0x1_0000_0000,
            eb == 0x2000_0000_0000_0000_0000_0000_0000 + 0x100_0000_0000_0000_0000_0000,
    ;
}

/// One component `x` of a rotor of length `l`, divided by that length:
/// the quotient `c` and what the division leaves over.
proof fn lemma_normal_component(x: int, l: int) -> (rest: int)
    requires
        0 < l < MAX_RAW,
        abs(x) <= l,
    ensures
        ({
            let c = div_raw(x, l);
            &&& abs(c) <= ONE_RAW
            &&& c * c * (l * l) == x * x * 0x1_0000_0000_0000_0000 - 0x2_0000_0000 * (x * rest)
                + rest * rest
            &&& 0 <= x * rest <= l * l
            &&& 0 <= rest * rest <= l * l
        }),
{
    let one = ONE_RAW as int;
    let c = div_raw(x, l);
    let m = abs(x);
    let q = (m * one) / l;
    let left = (m * one) % l;
    assert(0 <= q <= one && m * one == q * l + left && 0 <= left < l) by (nonlinear_arith)
        requires
            q == (m * one) / l,
            left == (m * one) % l,
            0 <= m <= l,
            0 < l,
            one == 0x1_0000_0000,
    ;
    let rest = if x >= 0 {
        left
    } else {
        -left
    };
    assert(c == if x >= 0 {
        q
    } else {
        -q
    });
    assert(x * one == c * l + rest) by (nonlinear_arith)
        requires
            m * one == q * l + left,
            (x >= 0 && m == x && c == q && rest == left) || (x < 0 && m == -x && c == -q && rest
                == -left),
    ;
    assert(c * c * (l * l) == x * x * 0x1_0000_0000_0000_0000 - 0x2_0000_0000 * (x * rest) + rest
        * rest) by (nonlinear_arith)
        requires
            x * one == c * l + rest,
            one == 0x1_0000_0000,
    ;
    assert(0 <= x * rest <= l * l && 0 <= rest * rest <= l * l) by (nonlinear_arith)
        requires
            (x >= 0 && 0 <= rest < l && x <= l) || (x < 0 && -l < rest <= 0 && -l <= x),
    ;
    rest
}

/// The last step of [`lemma_normal_is_near_unit`]: from the sum of the
/// squares before and after the division to the distance from one.
proof fn lemma_normal_sum(
    l: int,
    before: int,
    after: int,
    cross: int,
    rests: int,
)
    requires
        0x40_0000 <= l,
        l * l <= before < (l + 1) * (l + 1),
        after * (l * l) == before * 0x1_0000_0000_0000_0000 - 0x2_0000_0000 * cross + rests,
        0 <= cross <= 4 * (l * l),
        0 <= rests <= 4 * (l * l),
    ensures
        abs(after - 0x1_0000_0000_0000_0000) <= 0x1000_0000_0000,
{
    let t = l * l;
    let d = after - 0x1_0000_0000_0000_0000;
    assert(t > 0) by (nonlinear_arith)
        requires
            t == l * l,
            l >= 0x40_0000,
    ;
    assert(d * t == (before - t) * 0x1_0000_0000_0000_0000 - 0x2_0000_0000 * cross + rests)
        by (nonlinear_arith)
        requires
            after * t == before * 0x1_0000_0000_0000_0000 - 0x2_0000_0000 * cross + rests,
            d == after - 0x1_0000_0000_0000_0000,
    ;
    assert(before - t <= 2 * l) by (nonlinear_arith)
        requires
            before < (l + 1) * (l + 1),
            t == l * l,
    ;
    assert(d >= -0x8_0000_0000) by (nonlinear_arith)
        requires
            d * t >= -0x8_0000_0000 * t,
            t > 0,
    ;
    assert(d <= 0x1000_0000_0000) by (nonlinear_arith)
        requires
            d * t <= 2 * l * 0x1_0000_0000_0000_0000 + 4 * t,
            t == l * l,
            l >= 0x40_0000,
    ;
}

/// A rotor scaled to unit length has unit length up to a millionth,
/// provided that it was not shorter than two to the power of minus ten and
/// that its length did not saturate.
pub proof fn lemma_normal_is_near_unit(r: Rotor3)
    requires
        0x40_0000 <= r.length_spec()@ < MAX_RAW,
    ensures
        is_near_unit(r.normal_spec()),
{
    reveal(Scalar::norm4_spec);
    reveal(Scalar::div_spec);
    let q = Quad::of(r);
    let s = q.norm2();
    let l = r.length_spec()@;
    assert(q.a * q.a >= 0 && q.x * q.x >= 0 && q.y * q.y >= 0 && q.z * q.z >= 0)
        by (nonlinear_arith);
    lemma_floor_sqrt_exists(s);
    assert(q.bounded(l)) by (nonlinear_arith)
        requires
            q.a * q.a + q.x * q.x + q.y * q.y + q.z * q.z < (l + 1) * (l + 1),
            q.a * q.a >= 0 && q.x * q.x >= 0 && q.y * q.y >= 0 && q.z * q.z >= 0,
            l >= 0,
            q.bounded(l) == (abs(q.a) <= l && abs(q.x) <= l && abs(q.y) <= l && abs(q.z) <= l),
            forall|i: int| abs(i) == if i < 0 { -i } else { i },
    ;
    let ra = lemma_normal_component(q.a, l);
    let rx = lemma_normal_component(q.x, l);
    let ry = lemma_normal_component(q.y, l);
    let rz = lemma_normal_component(q.z, l);
    let n = Quad::of(r.normal_spec());
    assert(n.a == div_raw(q.a, l) && n.x == div_raw(q.x, l) && n.y == div_raw(q.y, l) && n.z
        == div_raw(q.z, l));
    let t = l * l;
    assert(n.norm2() * t == n.a * n.a * t + n.x * n.x * t + n.y * n.y * t + n.z * n.z * t)
        by (nonlinear_arith)
        requires
            n.norm2() == n.a * n.a + n.x * n.x + n.y * n.y + n.z * n.z,
    ;
    assert(s * 0x1_0000_0000_0000_0000 == q.a * q.a * 0x1_0000_0000_0000_0000 + q.x * q.x
        * 0x1_0000_0000_0000_0000 + q.y * q.y * 0x1_0000_0000_0000_0000 + q.z * q.z
        * 0x1_0000_0000_0000_0000) by (nonlinear_arith)
        requires
            s == q.a * q.a + q.x * q.x + q.y * q.y + q.z * q.z,
    ;
    lemma_normal_sum(
        l,
        s,
        n.norm2(),
        q.a * ra + q.x * rx + q.y * ry + q.z * rz,
        ra * ra + rx * rx + ry * ry + rz * rz,
    );
}

} // verus!
