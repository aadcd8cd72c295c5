//! Signed fixed-point numbers with 32 fractional bits.
//!
//! A [`Scalar`] stores the integer `raw` and stands for the rational number
//! `raw / 2^32`. Every operation rounds toward zero and saturates at the ends
//! of the `i64` range, so all of them are total. The contracts are stated over
//! the raw integers.

use vstd::prelude::*;

verus! {

/// Raw representation of the number one.
pub const ONE_RAW: i64 = 0x1_0000_0000;

/// Largest raw value.
pub const MAX_RAW: i64 = 0x7fff_ffff_ffff_ffff;

/// Smallest raw value.
pub const MIN_RAW: i64 = -0x8000_0000_0000_0000;

/// Clamps an integer into the range of raw values.
pub open spec fn saturate(x: int) -> int {
    if x < MIN_RAW {
        MIN_RAW as int
    } else if x > MAX_RAW {
        MAX_RAW as int
    } else {
        x
    }
}

/// Quotient of `n` by `d`, rounded toward zero.
pub open spec fn trunc_div(n: int, d: int) -> int
    recommends
        d != 0,
{
    if n >= 0 && d > 0 {
        n / d
    } else if n >= 0 {
        -(n / (-d))
    } else if d > 0 {
        -((-n) / d)
    } else {
        (-n) / (-d)
    }
}

/// Raw value of a saturating sum.
pub open spec fn add_raw(a: int, b: int) -> int {
    saturate(a + b)
}

/// Raw value of a saturating difference.
pub open spec fn sub_raw(a: int, b: int) -> int {
    saturate(a - b)
}

/// Raw value of a saturating negation.
pub open spec fn neg_raw(a: int) -> int {
    saturate(-a)
}

/// Raw value of a product: the exact product rounded toward zero, saturated.
pub open spec fn mul_raw(a: int, b: int) -> int {
    saturate(trunc_div(a * b, ONE_RAW as int))
}

/// Raw value of a quotient: the exact quotient rounded toward zero, saturated.
/// A non-zero number divided by zero saturates with the sign of the dividend;
/// zero divided by zero is zero.
pub open spec fn div_raw(a: int, b: int) -> int {
    if b == 0 {
        if a > 0 {
            MAX_RAW as int
        } else if a < 0 {
            MIN_RAW as int
        } else {
            0
        }
    } else {
        saturate(trunc_div(a * ONE_RAW, b))
    }
}

/// `r` is the integer square root of `n`, rounded down.
pub open spec fn is_floor_sqrt(n: int, r: int) -> bool {
    0 <= r && r * r <= n && n < (r + 1) * (r + 1)
}

/// Integer square root, rounded down; zero for negative arguments.
pub open spec fn floor_sqrt(n: int) -> int {
    if n < 0 {
        0
    } else {
        choose|r: int| is_floor_sqrt(n, r)
    }
}

/// Raw value of a square root, rounded down. The root of a negative number is zero.
pub open spec fn sqrt_raw(a: int) -> int {
    if a <= 0 {
        0
    } else {
        floor_sqrt(a * ONE_RAW)
    }
}

/// Raw value of the Euclidean norm of the numbers whose raw values have the
/// sum of squares `sum_sq`: the exact norm rounded down, saturated.
pub open spec fn norm_raw(sum_sq: int) -> int {
    saturate(floor_sqrt(sum_sq))
}

/// The smallest integer that is not below the number with raw value `a`.
pub open spec fn ceil_raw(a: int) -> int {
    -((-a) / (ONE_RAW as int))
}

/// The integer part of the number with raw value `a`, rounded toward zero.
pub open spec fn trunc_raw(a: int) -> int {
    trunc_div(a, ONE_RAW as int)
}

/// Two floor square roots of one number are equal.
pub proof fn lemma_floor_sqrt_unique(n: int, r1: int, r2: int)
    requires
        is_floor_sqrt(n, r1),
        is_floor_sqrt(n, r2),
    ensures
        r1 == r2,
{
    if r1 < r2 {
        assert((r1 + 1) * (r1 + 1) <= r2 * r2) by (nonlinear_arith)
            requires
                0 <= r1,
                r1 + 1 <= r2,
        ;
    } else if r2 < r1 {
        assert((r2 + 1) * (r2 + 1) <= r1 * r1) by (nonlinear_arith)
            requires
                0 <= r2,
                r2 + 1 <= r1,
        ;
    }
}

/// A number that satisfies the defining inequalities is the floor square root.
pub proof fn lemma_floor_sqrt_is(n: int, r: int)
    requires
        is_floor_sqrt(n, r),
    ensures
        floor_sqrt(n) == r,
{
    assert(n >= 0) by (nonlinear_arith)
        requires
            r * r <= n,
    ;
    let c = choose|c: int| is_floor_sqrt(n, c);
    lemma_floor_sqrt_unique(n, r, c);
}

/// The floor square root of a square is the absolute value of its base.
pub proof fn lemma_floor_sqrt_square(a: int)
    ensures
        floor_sqrt(a * a) == if a < 0 {
            -a
        } else {
            a
        },
{
    let m = if a < 0 {
        -a
    } else {
        a
    };
    assert(m * m == a * a && a * a < (m + 1) * (m + 1)) by (nonlinear_arith)
        requires
            m == a || m == -a,
            m >= 0,
    ;
    lemma_floor_sqrt_is(a * a, m);
}

/// A signed fixed-point number with 32 fractional bits.
#[derive(Clone, Copy, PartialEq, Eq, Structural, Debug)]
pub struct Scalar {
    pub raw: i64,
}

impl View for Scalar {
    type V = int;

    open spec fn view(&self) -> int {
        self.raw as int
    }
}

impl Scalar {
    /// The number with raw value `saturate(raw)`.
    pub open spec fn of(raw: int) -> Scalar {
        Scalar { raw: saturate(raw) as i64 }
    }

    /// Zero.
    pub open spec fn zero_spec() -> Scalar {
        Scalar { raw: 0 }
    }

    /// One.
    pub open spec fn one_spec() -> Scalar {
        Scalar { raw: ONE_RAW }
    }

    /// The integer `i`.
    pub open spec fn int_spec(i: int) -> Scalar {
        Scalar::of(i * ONE_RAW)
    }

    /// The whole number `n`, saturated.
    pub open spec fn whole_spec(n: nat) -> Scalar {
        Scalar::of(n * ONE_RAW)
    }

    /// The fraction `n / d`.
    pub open spec fn ratio_spec(n: int, d: int) -> Scalar {
        Scalar::of(div_raw(n, d))
    }

    /// Saturating sum.
    #[verifier::opaque]
    pub open spec fn add_spec(self, rhs: Scalar) -> Scalar {
        Scalar::of(add_raw(self@, rhs@))
    }

    /// Saturating difference.
    #[verifier::opaque]
    pub open spec fn sub_spec(self, rhs: Scalar) -> Scalar {
        Scalar::of(sub_raw(self@, rhs@))
    }

    /// Saturating negation.
    #[verifier::opaque]
    pub open spec fn neg_spec(self) -> Scalar {
        Scalar::of(neg_raw(self@))
    }

    /// Saturating absolute value.
    pub open spec fn abs_spec(self) -> Scalar {
        if self@ < 0 {
            self.neg_spec()
        } else {
            self
        }
    }

    /// Product, rounded toward zero and saturated.
    #[verifier::opaque]
    pub open spec fn mul_spec(self, rhs: Scalar) -> Scalar {
        Scalar::of(mul_raw(self@, rhs@))
    }

    /// Quotient, rounded toward zero and saturated.
    #[verifier::opaque]
    pub open spec fn div_spec(self, rhs: Scalar) -> Scalar {
        Scalar::of(div_raw(self@, rhs@))
    }

    /// Square root, rounded down.
    #[verifier::opaque]
    pub open spec fn sqrt_spec(self) -> Scalar {
        Scalar::of(sqrt_raw(self@))
    }

    /// The smaller of two numbers.
    pub open spec fn min_spec(self, rhs: Scalar) -> Scalar {
        if self@ <= rhs@ {
            self
        } else {
            rhs
        }
    }

    /// The larger of two numbers.
    pub open spec fn max_spec(self, rhs: Scalar) -> Scalar {
        if self@ >= rhs@ {
            self
        } else {
            rhs
        }
    }

    /// This number limited to the interval from `lo` to `hi`.
    pub open spec fn clamp_spec(self, lo: Scalar, hi: Scalar) -> Scalar {
        self.min_spec(hi).max_spec(lo)
    }

    /// Strictly less than.
    pub open spec fn lt_spec(self, rhs: Scalar) -> bool {
        self@ < rhs@
    }

    /// The Euclidean norm of three numbers, rounded down and saturated.
    #[verifier::opaque]
    pub open spec fn norm3_spec(x: Scalar, y: Scalar, z: Scalar) -> Scalar {
        Scalar::of(norm_raw(x@ * x@ + y@ * y@ + z@ * z@))
    }

    /// The Euclidean norm of four numbers, rounded down and saturated.
    #[verifier::opaque]
    pub open spec fn norm4_spec(a: Scalar, b: Scalar, c: Scalar, d: Scalar) -> Scalar {
        Scalar::of(norm_raw(a@ * a@ + b@ * b@ + c@ * c@ + d@ * d@))
    }
}

/// Sum of the squares of the raw values of a sequence of numbers.
pub open spec fn sum_squares(s: Seq<Scalar>) -> int
    decreases s.len(),
{
    if s.len() == 0 {
        0
    } else {
        sum_squares(s.drop_last()) + s.last()@ * s.last()@
    }
}

/// Bound above which a sum of squares has a norm that saturates.
pub const SQUARE_CAP: u128 = 0x4000_0000_0000_0000_0000_0000_0000_0000;

/// A sum of squares, cut off at [`SQUARE_CAP`].
pub open spec fn capped(x: int) -> int {
    if x >= SQUARE_CAP {
        SQUARE_CAP as int
    } else {
        x
    }
}

/// Every natural number has a floor square root.
pub proof fn lemma_floor_sqrt_exists(n: int)
    requires
        0 <= n,
    ensures
        is_floor_sqrt(n, floor_sqrt(n)),
    decreases n,
{
    if n == 0 {
        assert(is_floor_sqrt(0, 0));
    } else {
        lemma_floor_sqrt_exists(n - 1);
        let r = floor_sqrt(n - 1);
        if n < (r + 1) * (r + 1) {
            assert(is_floor_sqrt(n, r));
        } else {
            assert((r + 1) * (r + 1) < (r + 2) * (r + 2)) by (nonlinear_arith)
                requires
                    0 <= r,
            ;
            assert(is_floor_sqrt(n, r + 1));
        }
    }
}

/// The floor square root does not decrease when its argument grows.
pub proof fn lemma_floor_sqrt_monotone(m: int, n: int)
    requires
        0 <= m <= n,
    ensures
        floor_sqrt(m) <= floor_sqrt(n),
{
    lemma_floor_sqrt_exists(m);
    lemma_floor_sqrt_exists(n);
    let a = floor_sqrt(m);
    let b = floor_sqrt(n);
    if b < a {
        assert((b + 1) * (b + 1) <= a * a) by (nonlinear_arith)
            requires
                0 <= b,
                b + 1 <= a,
        ;
    }
}

/// Cutting a sum of squares off at the cap does not change its saturated norm.
pub proof fn lemma_norm_capped(sum_sq: int)
    requires
        0 <= sum_sq,
    ensures
        norm_raw(capped(sum_sq)) == norm_raw(sum_sq),
{
    if sum_sq >= SQUARE_CAP {
        assert(0x8000_0000_0000_0000int * 0x8000_0000_0000_0000int == SQUARE_CAP as int)
            by (nonlinear_arith);
        lemma_floor_sqrt_square(0x8000_0000_0000_0000int);
        lemma_floor_sqrt_monotone(SQUARE_CAP as int, sum_sq);
    }
}

/// Clamps a wide integer into the `i64` range.
fn saturate_wide(x: i128) -> (r: i64)
    ensures
        r == saturate(x as int),
{
    if x < MIN_RAW as i128 {
        MIN_RAW
    } else if x > MAX_RAW as i128 {
        MAX_RAW
    } else {
        x as i64
    }
}

/// Quotient of two wide integers, rounded toward zero.
fn trunc_div_wide(n: i128, d: i128) -> (q: i128)
    requires
        d != 0,
        i128::MIN < n,
        i128::MIN < d,
    ensures
        q == trunc_div(n as int, d as int),
{
    let n_abs: u128 = if n < 0 {
        (-n) as u128
    } else {
        n as u128
    };
    let d_abs: u128 = if d < 0 {
        (-d) as u128
    } else {
        d as u128
    };
    let q_abs: u128 = n_abs / d_abs;
    assert(q_abs <= n_abs) by (nonlinear_arith)
        requires
            q_abs == n_abs / d_abs,
            d_abs >= 1,
    ;
    if (n < 0) == (d < 0) {
        q_abs as i128
    } else {
        -(q_abs as i128)
    }
}

/// Adds the square of `x` to a capped sum of squares.
pub fn add_square(acc: u128, x: Scalar) -> (r: u128)
    requires
        acc <= SQUARE_CAP,
    ensures
        r <= SQUARE_CAP,
        r == capped(acc + x@ * x@),
{
    let m: u128 = if x.raw < 0 {
        (-(x.raw as i128)) as u128
    } else {
        x.raw as u128
    };
    assert(m * m == x@ * x@ && m * m <= SQUARE_CAP) by (nonlinear_arith)
        requires
            m == x@ || m == -x@,
            0 <= m <= 0x8000_0000_0000_0000,
            SQUARE_CAP == 0x4000_0000_0000_0000_0000_0000_0000_0000,
    ;
    let sq: u128 = m * m;
    let sum: u128 = acc + sq;
    if sum >= SQUARE_CAP {
        SQUARE_CAP
    } else {
        sum
    }
}

/// The saturated norm that belongs to a capped sum of squares.
pub fn norm_of_capped(acc: u128) -> (r: Scalar)
    requires
        acc <= SQUARE_CAP,
    ensures
        r == Scalar::of(norm_raw(acc as int)),
{
    let root: u128 = floor_sqrt_u128(acc);
    if root > MAX_RAW as u128 {
        Scalar { raw: MAX_RAW }
    } else {
        Scalar { raw: root as i64 }
    }
}

/// Integer square root of an unsigned 128-bit number, by bisection.
pub fn floor_sqrt_u128(n: u128) -> (r: u128)
    ensures
        r == floor_sqrt(n as int),
        is_floor_sqrt(n as int, r as int),
        r < 0x1_0000_0000_0000_0000,
{
    let mut lo: u128 = 0;
    let mut hi: u128 = 0x1_0000_0000_0000_0000;
    assert(0x1_0000_0000_0000_0000int * 0x1_0000_0000_0000_0000int
        == 0x1_0000_0000_0000_0000_0000_0000_0000_0000int) by (nonlinear_arith);
    while hi - lo > 1
        invariant
            lo < hi <= 0x1_0000_0000_0000_0000,
            lo * lo <= n,
            n < hi * hi,
        decreases hi - lo,
    {
        let mid: u128 = lo + (hi - lo) / 2;
        assert(mid * mid <= 0xffff_ffff_ffff_ffffint * 0xffff_ffff_ffff_ffffint)
            by (nonlinear_arith)
            requires
                0 <= mid <= 0xffff_ffff_ffff_ffff,
        ;
        assert(0xffff_ffff_ffff_ffffint * 0xffff_ffff_ffff_ffffint
            < 0x1_0000_0000_0000_0000_0000_0000_0000_0000int) by (nonlinear_arith);
        if mid * mid <= n {
            lo = mid;
        } else {
            hi = mid;
        }
    }
    proof {
        assert(hi == lo + 1);
        lemma_floor_sqrt_is(n as int, lo as int);
    }
    lo
}

impl Scalar {
    /// The number with the given raw representation.
    pub fn from_raw(raw: i64) -> (r: Scalar)
        ensures
            r.raw == raw,
    {
        Scalar { raw }
    }

    /// Zero.
    pub fn zero() -> (r: Scalar)
        ensures
            r == Scalar::zero_spec(),
    {
        Scalar { raw: 0 }
    }

    /// One.
    pub fn one() -> (r: Scalar)
        ensures
            r == Scalar::one_spec(),
    {
        Scalar { raw: ONE_RAW }
    }

    /// The integer `i`, exactly.
    pub fn from_int(i: i32) -> (r: Scalar)
        ensures
            r == Scalar::int_spec(i as int),
            r@ == i * ONE_RAW,
    {
        let wide: i64 = i as i64;
        Scalar { raw: wide * ONE_RAW }
    }

    /// The whole number `n`; numbers from `2^31` on saturate.
    pub fn from_u32(n: u32) -> (r: Scalar)
        ensures
            r == Scalar::whole_spec(n as nat),
    {
        let wide: i128 = (n as i128) * 0x1_0000_0000;
        Scalar { raw: saturate_wide(wide) }
    }

    /// The fraction `n / d`, rounded toward zero and saturated; division by
    /// zero behaves as in [`Scalar::div`].
    pub fn from_ratio(n: i64, d: i64) -> (r: Scalar)
        ensures
            r == Scalar::ratio_spec(n as int, d as int),
    {
        reveal(Scalar::div_spec);
        Scalar { raw: n }.div(Scalar { raw: d })
    }

    /// Saturating sum.
    pub fn add(self, rhs: Scalar) -> (r: Scalar)
        ensures
            r == self.add_spec(rhs),
    {
        reveal(Scalar::add_spec);
        let wide: i128 = self.raw as i128 + rhs.raw as i128;
        Scalar { raw: saturate_wide(wide) }
    }

    /// Saturating difference.
    pub fn sub(self, rhs: Scalar) -> (r: Scalar)
        ensures
            r == self.sub_spec(rhs),
    {
        reveal(Scalar::sub_spec);
        let wide: i128 = self.raw as i128 - rhs.raw as i128;
        Scalar { raw: saturate_wide(wide) }
    }

    /// Saturating negation.
    pub fn neg(self) -> (r: Scalar)
        ensures
            r == self.neg_spec(),
    {
        reveal(Scalar::neg_spec);
        let wide: i128 = -(self.raw as i128);
        Scalar { raw: saturate_wide(wide) }
    }

    /// Saturating absolute value.
    pub fn abs(self) -> (r: Scalar)
        ensures
            r == self.abs_spec(),
    {
        if self.raw < 0 {
            self.neg()
        } else {
            self
        }
    }

    /// Product, rounded toward zero and saturated.
    pub fn mul(self, rhs: Scalar) -> (r: Scalar)
        ensures
            r == self.mul_spec(rhs),
    {
        reveal(Scalar::mul_spec);
        let a: i128 = self.raw as i128;
        let b: i128 = rhs.raw as i128;
        assert(-0x4000_0000_0000_0000_0000_0000_0000_0000 <= a * b
            <= 0x4000_0000_0000_0000_0000_0000_0000_0000) by (nonlinear_arith)
            requires
                -0x8000_0000_0000_0000 <= a <= 0x8000_0000_0000_0000,
                -0x8000_0000_0000_0000 <= b <= 0x8000_0000_0000_0000,
        ;
        let wide: i128 = a * b;
        let one: i128 = ONE_RAW as i128;
        Scalar { raw: saturate_wide(trunc_div_wide(wide, one)) }
    }

    /// Quotient, rounded toward zero and saturated. A non-zero number divided
    /// by zero saturates with the sign of the dividend; zero by zero is zero.
    pub fn div(self, rhs: Scalar) -> (r: Scalar)
        ensures
            r == self.div_spec(rhs),
    {
        reveal(Scalar::div_spec);
        if rhs.raw == 0 {
            if self.raw > 0 {
                Scalar { raw: MAX_RAW }
            } else if self.raw < 0 {
                Scalar { raw: MIN_RAW }
            } else {
                Scalar { raw: 0 }
            }
        } else {
            let one: i128 = ONE_RAW as i128;
            let wide: i128 = (self.raw as i128) * one;
            let d: i128 = rhs.raw as i128;
            Scalar { raw: saturate_wide(trunc_div_wide(wide, d)) }
        }
    }

    /// Square root, rounded down; zero for a negative number.
    pub fn sqrt(self) -> (r: Scalar)
        ensures
            r == self.sqrt_spec(),
    {
        reveal(Scalar::sqrt_spec);
        if self.raw <= 0 {
            Scalar { raw: 0 }
        } else {
            let wide: u128 = (self.raw as u128) * (ONE_RAW as u128);
            let root: u128 = floor_sqrt_u128(wide);
            proof {
                // wide < 2^95, so its root is below 2^48
                assert(root < 0x1_0000_0000_0000) by (nonlinear_arith)
                    requires
                        root * root <= wide,
                        wide < 0x8000_0000_0000_0000_0000_0000,
                ;
            }
            Scalar { raw: root as i64 }
        }
    }

    /// The smaller of two numbers.
    pub fn min(self, rhs: Scalar) -> (r: Scalar)
        ensures
            r == self.min_spec(rhs),
    {
        if self.raw <= rhs.raw {
            self
        } else {
            rhs
        }
    }

    /// The larger of two numbers.
    pub fn max(self, rhs: Scalar) -> (r: Scalar)
        ensures
            r == self.max_spec(rhs),
    {
        if self.raw >= rhs.raw {
            self
        } else {
            rhs
        }
    }

    /// This number limited to the interval from `lo` to `hi`: first cut off
    /// above at `hi`, then below at `lo`.
    pub fn clamp(self, lo: Scalar, hi: Scalar) -> (r: Scalar)
        ensures
            r == self.clamp_spec(lo, hi),
    {
        self.min(hi).max(lo)
    }

    /// Strictly less than.
    pub fn lt(self, rhs: Scalar) -> (r: bool)
        ensures
            r == self.lt_spec(rhs),
    {
        self.raw < rhs.raw
    }

    /// The Euclidean norm of three numbers, rounded down and saturated. The
    /// squares are summed exactly, so the only rounding is that of the root.
    pub fn norm3(x: Scalar, y: Scalar, z: Scalar) -> (r: Scalar)
        ensures
            r == Scalar::norm3_spec(x, y, z),
    {
        reveal(Scalar::norm3_spec);
        let acc: u128 = add_square(add_square(add_square(0, x), y), z);
        proof {
            assert(x@ * x@ >= 0 && y@ * y@ >= 0 && z@ * z@ >= 0) by (nonlinear_arith);
            lemma_norm_capped(x@ * x@ + y@ * y@ + z@ * z@);
        }
        norm_of_capped(acc)
    }

    /// The Euclidean norm of four numbers, rounded down and saturated. The
    /// squares are summed exactly, so the only rounding is that of the root.
    pub fn norm4(a: Scalar, b: Scalar, c: Scalar, d: Scalar) -> (r: Scalar)
        ensures
            r == Scalar::norm4_spec(a, b, c, d),
    {
        reveal(Scalar::norm4_spec);
        let acc: u128 = add_square(add_square(add_square(add_square(0, a), b), c), d);
        proof {
            assert(a@ * a@ >= 0 && b@ * b@ >= 0 && c@ * c@ >= 0 && d@ * d@ >= 0)
                by (nonlinear_arith);
            lemma_norm_capped(a@ * a@ + b@ * b@ + c@ * c@ + d@ * d@);
        }
        norm_of_capped(acc)
    }

    /// The integer part of this number, rounded toward zero.
    pub fn trunc(self) -> (r: i64)
        ensures
            r == trunc_raw(self@),
    {
        self.raw / ONE_RAW
    }

    /// The smallest integer that is not below this number.
    pub fn ceil(self) -> (r: i64)
        ensures
            r == ceil_raw(self@),
    {
        let q: i64 = self.trunc();
        if q * ONE_RAW < self.raw {
            q + 1
        } else {
            q
        }
    }
}

impl Default for Scalar {
    /// Zero.
    fn default() -> (r: Scalar)
        ensures
            r == Scalar::zero_spec(),
    {
        Scalar::zero()
    }
}

} // verus!
