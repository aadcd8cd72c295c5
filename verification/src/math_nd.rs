//! Vectors, bivectors and rotors with any number of coordinates.
//!
//! All the types of one computation are meant to have matching numbers of
//! coordinates; where a function reads two of them side by side, its
//! `requires` says how long the second has to be.

use crate::scalar::{
    add_square, capped, lemma_norm_capped, norm_of_capped, norm_raw, sum_squares, Scalar,
};
use vstd::prelude::*;

verus! {

/// A rotor: a scalar and the areas of a bivector.
#[derive(Debug)]
pub struct Rotor {
    pub a: Scalar,
    pub areas: Vec<Scalar>,
}

/// A bivector, by its areas.
#[derive(Debug)]
pub struct BiVector {
    pub areas: Vec<Scalar>,
}

/// A multivector: a grade and its terms.
#[derive(Debug)]
pub struct MultiVector {
    pub grade: usize,
    pub terms: Vec<Scalar>,
}

/// A vector, by its coordinates.
#[derive(Debug)]
pub struct Vector {
    pub dimensions: Vec<Scalar>,
}

/// What a rotor holds.
pub struct RotorModel {
    pub a: Scalar,
    pub areas: Seq<Scalar>,
}

/// What a multivector holds.
pub struct MultiVectorModel {
    pub grade: nat,
    pub terms: Seq<Scalar>,
}

impl View for Rotor {
    type V = RotorModel;

    open spec fn view(&self) -> RotorModel {
        RotorModel { a: self.a, areas: self.areas@ }
    }
}

impl View for BiVector {
    type V = Seq<Scalar>;

    open spec fn view(&self) -> Seq<Scalar> {
        self.areas@
    }
}

impl View for MultiVector {
    type V = MultiVectorModel;

    open spec fn view(&self) -> MultiVectorModel {
        MultiVectorModel { grade: self.grade as nat, terms: self.terms@ }
    }
}

impl View for Vector {
    type V = Seq<Scalar>;

    open spec fn view(&self) -> Seq<Scalar> {
        self.dimensions@
    }
}

/// The sum of the products of the coordinates of `u` with those of `v`,
/// added up from the first coordinate on, starting from zero.
pub open spec fn dot_spec(u: Seq<Scalar>, v: Seq<Scalar>) -> Scalar
    decreases u.len(),
{
    if u.len() == 0 {
        Scalar::zero_spec()
    } else {
        dot_spec(u.drop_last(), v).add_spec(u.last().mul_spec(v[u.len() - 1]))
    }
}

/// The sum of the numbers of a sequence, added up from the first on,
/// starting from zero.
pub open spec fn sum_spec(s: Seq<Scalar>) -> Scalar
    decreases s.len(),
{
    if s.len() == 0 {
        Scalar::zero_spec()
    } else {
        sum_spec(s.drop_last()).add_spec(s.last())
    }
}

/// The Euclidean norm of a scalar and a sequence of numbers together:
/// the exact root of the exact sum of squares, rounded down and saturated.
pub open spec fn norm_spec(a: Scalar, s: Seq<Scalar>) -> Scalar {
    Scalar::of(norm_raw(a@ * a@ + sum_squares(s)))
}

/// Every number of a sequence divided by `l`.
pub open spec fn div_all_spec(s: Seq<Scalar>, l: Scalar) -> Seq<Scalar> {
    s.map_values(|d: Scalar| d.div_spec(l))
}

/// Every number of a sequence negated.
pub open spec fn neg_all_spec(s: Seq<Scalar>) -> Seq<Scalar> {
    s.map_values(|d: Scalar| d.neg_spec())
}

/// Every number of a sequence multiplied by `k`, with `k` as the first factor.
pub open spec fn scale_all_spec(k: Scalar, s: Seq<Scalar>) -> Seq<Scalar> {
    s.map_values(|d: Scalar| k.mul_spec(d))
}

/// The areas of the outer product as it is computed here: the first
/// `u.len() - 1` coordinates of `u`, each paired with the coordinate of `v`
/// that mirrors it, as `u[i] * w - w * u[i]`.
pub open spec fn outer_spec(u: Seq<Scalar>, v: Seq<Scalar>) -> Seq<Scalar> {
    Seq::new(
        (u.len() - 1) as nat,
        |i: int|
            u[i].mul_spec(v[v.len() - 1 - i]).sub_spec(v[v.len() - 1 - i].mul_spec(u[i])),
    )
}

/// One area of a product of rotors: over all `j` in order, starting from
/// zero, one is added for `j != i`, and `u[i] * b + v[i] + a` for `j == i`.
pub open spec fn product_area_spec(
    a: Scalar,
    u: Seq<Scalar>,
    b: Scalar,
    v: Seq<Scalar>,
    i: int,
    n: int,
) -> Scalar
    decreases n,
{
    if n <= 0 {
        Scalar::zero_spec()
    } else {
        product_area_spec(a, u, b, v, i, n - 1).add_spec(
            if n - 1 == i {
                u[i].mul_spec(b).add_spec(v[i]).add_spec(a)
            } else {
                Scalar::one_spec()
            },
        )
    }
}

/// One coordinate of a product of vectors: the sum over `v` of `v[j] * d`.
pub open spec fn scaled_sum_spec(v: Seq<Scalar>, d: Scalar, n: int) -> Scalar
    decreases n,
{
    if n <= 0 {
        Scalar::zero_spec()
    } else {
        scaled_sum_spec(v, d, n - 1).add_spec(v[n - 1].mul_spec(d))
    }
}

impl RotorModel {
    /// The reverse: the same scalar, the areas negated.
    pub open spec fn reverse(self) -> RotorModel {
        RotorModel { a: self.a, areas: neg_all_spec(self.areas) }
    }

    /// The squares of the areas, added up in order, and then the square of
    /// the scalar.
    pub open spec fn length_sqrd(self) -> Scalar {
        dot_spec(self.areas, self.areas).add_spec(self.a.mul_spec(self.a))
    }

    /// The Euclidean norm over the scalar and all areas.
    pub open spec fn length(self) -> Scalar {
        norm_spec(self.a, self.areas)
    }

    /// Every component divided by the length.
    pub open spec fn normal(self) -> RotorModel {
        let l = self.length();
        RotorModel { a: self.a.div_spec(l), areas: div_all_spec(self.areas, l) }
    }

    /// The product `self * rhs`: the scalar is `a * b` less the inner
    /// product of the areas; for the areas see [`product_area_spec`].
    pub open spec fn mul(self, rhs: RotorModel) -> RotorModel {
        RotorModel {
            a: self.a.mul_spec(rhs.a).sub_spec(dot_spec(self.areas, rhs.areas)),
            areas: Seq::new(
                self.areas.len(),
                |i: int|
                    product_area_spec(
                        self.a,
                        self.areas,
                        rhs.a,
                        rhs.areas,
                        i,
                        rhs.areas.len() as int,
                    ),
            ),
        }
    }
}

/// Copies the coordinates of a slice.
fn copy_all(s: &Vec<Scalar>) -> (r: Vec<Scalar>)
    ensures
        r@ == s@,
{
    let mut r: Vec<Scalar> = Vec::new();
    let mut i: usize = 0;
    while i < s.len()
        invariant
            i <= s.len(),
            r@ == s@.take(i as int),
        decreases s.len() - i,
    {
        r.push(s[i]);
        assert(r@ =~= s@.take(i + 1));
        i += 1;
    }
    assert(s@.take(i as int) =~= s@);
    r
}

/// Divides every number of a list by `l`.
fn div_all(s: &Vec<Scalar>, l: Scalar) -> (r: Vec<Scalar>)
    ensures
        r@ == div_all_spec(s@, l),
{
    let mut r: Vec<Scalar> = Vec::new();
    let mut i: usize = 0;
    while i < s.len()
        invariant
            i <= s.len(),
            r@.len() == i,
            forall|k: int| 0 <= k < i ==> r@[k] == s@[k].div_spec(l),
        decreases s.len() - i,
    {
        r.push(s[i].div(l));
        i += 1;
    }
    assert(r@ =~= div_all_spec(s@, l));
    r
}

/// The inner product of two lists of coordinates.
fn dot_all(u: &Vec<Scalar>, v: &Vec<Scalar>) -> (r: Scalar)
    requires
        u@.len() <= v@.len(),
    ensures
        r == dot_spec(u@, v@),
{
    let mut acc = Scalar::zero();
    let mut i: usize = 0;
    while i < u.len()
        invariant
            i <= u.len(),
            u@.len() <= v@.len(),
            acc == dot_spec(u@.take(i as int), v@),
        decreases u.len() - i,
    {
        proof {
            assert(u@.take(i + 1).drop_last() =~= u@.take(i as int));
        }
        acc = acc.add(u[i].mul(v[i]));
        i += 1;
    }
    assert(u@.take(i as int) =~= u@);
    acc
}

/// The Euclidean norm of a scalar and a list of numbers together.
fn norm_all(a: Scalar, s: &Vec<Scalar>) -> (r: Scalar)
    ensures
        r == norm_spec(a, s@),
{
    let mut acc: u128 = add_square(0, a);
    let mut i: usize = 0;
    proof {
        assert(a@ * a@ >= 0) by (nonlinear_arith);
        assert(s@.take(0) =~= Seq::<Scalar>::empty());
    }
    while i < s.len()
        invariant
            i <= s.len(),
            sum_squares(s@.take(i as int)) >= 0,
            a@ * a@ >= 0,
            acc == capped(a@ * a@ + sum_squares(s@.take(i as int))),
        decreases s.len() - i,
    {
        proof {
            assert(s@.take(i + 1).drop_last() =~= s@.take(i as int));
            assert(s@[i as int]@ * s@[i as int]@ >= 0) by (nonlinear_arith);
        }
        acc = add_square(acc, s[i]);
        i += 1;
    }
    proof {
        assert(s@.take(i as int) =~= s@);
        lemma_norm_capped(a@ * a@ + sum_squares(s@));
    }
    norm_of_capped(acc)
}

/// The outer product of two vectors, as [`outer_spec`] describes it.
pub fn outer(u: Vector, v: Vector) -> (r: BiVector)
    requires
        u@.len() >= 1,
        v@.len() >= u@.len() - 1,
    ensures
        r@ == outer_spec(u@, v@),
{
    let n = v.dimensions.len();
    let mut areas: Vec<Scalar> = Vec::new();
    let mut ci: usize = 0;
    while ci < u.dimensions.len() - 1
        invariant
            ci <= u@.len() - 1,
            u@.len() >= 1,
            n == v@.len(),
            n >= u@.len() - 1,
            areas@.len() == ci,
            forall|k: int|
                0 <= k < ci ==> areas@[k] == u@[k].mul_spec(v@[n - 1 - k]).sub_spec(
                    v@[n - 1 - k].mul_spec(u@[k]),
                ),
        decreases u@.len() - 1 - ci,
    {
        let c = u.dimensions[ci];
        let d = v.dimensions[n - 1 - ci];
        areas.push(c.mul(d).sub(d.mul(c)));
        ci += 1;
    }
    assert(areas@ =~= outer_spec(u@, v@));
    BiVector { areas }
}

/// The geometric product of two vectors: the inner product followed by
/// the areas of the outer product, with the length of `u` as the grade.
pub fn geo(u: Vector, v: Vector) -> (r: MultiVector)
    requires
        u@.len() >= 1,
        v@.len() >= u@.len(),
    ensures
        r@.grade == u@.len(),
        r@.terms == seq![dot_spec(u@, v@)] + outer_spec(u@, v@),
{
    let grade = u.dimensions.len();
    let mut terms: Vec<Scalar> = Vec::new();
    terms.push(u.dot(&v));
    let ghost head = terms@;
    let mut wedge = outer(u, v);
    terms.append(&mut wedge.areas);
    assert(head =~= seq![dot_spec(u@, v@)]);
    MultiVector { grade, terms }
}

impl BiVector {
    /// The bivector with the given areas.
    pub fn from_slice(s: &Vec<Scalar>) -> (r: BiVector)
        ensures
            r@ == s@,
    {
        BiVector { areas: copy_all(s) }
    }
}

impl Vector {
    /// The vector with the given coordinates.
    pub fn from_slice(s: &Vec<Scalar>) -> (r: Vector)
        ensures
            r@ == s@,
    {
        Vector { dimensions: copy_all(s) }
    }

    /// The inner product with `rhs`, which has at least as many coordinates.
    pub fn dot(&self, rhs: &Vector) -> (r: Scalar)
        requires
            self@.len() <= rhs@.len(),
        ensures
            r == dot_spec(self@, rhs@),
    {
        dot_all(&self.dimensions, &rhs.dimensions)
    }

    /// The squared length: the squares of the coordinates, added up in order.
    pub fn length_sqrd(&self) -> (r: Scalar)
        ensures
            r == dot_spec(self@, self@),
    {
        dot_all(&self.dimensions, &self.dimensions)
    }

    /// The length: the Euclidean norm of the coordinates.
    pub fn length(&self) -> (r: Scalar)
        ensures
            r == norm_spec(Scalar::zero_spec(), self@),
    {
        norm_all(Scalar::zero(), &self.dimensions)
    }

    /// Scales this vector to unit length in place.
    pub fn normalize(&mut self)
        ensures
            final(self)@ == div_all_spec(old(self)@, norm_spec(Scalar::zero_spec(), old(self)@)),
    {
        let n = self.normal();
        self.dimensions = n.dimensions;
    }

    /// This vector scaled to unit length; the vector itself stays as it is.
    pub fn normal(&mut self) -> (r: Vector)
        ensures
            final(self)@ == old(self)@,
            r@ == div_all_spec(old(self)@, norm_spec(Scalar::zero_spec(), old(self)@)),
    {
        let l = self.length();
        Vector { dimensions: div_all(&self.dimensions, l) }
    }

    /// The product with `rhs`: coordinate `i` is the sum over `rhs` of
    /// `rhs[j] * self[i]`.
    pub fn mul(self, rhs: Vector) -> (r: Vector)
        ensures
            r@.len() == self@.len(),
            forall|i: int|
                0 <= i < self@.len() ==> r@[i] == scaled_sum_spec(
                    rhs@,
                    self@[i],
                    rhs@.len() as int,
                ),
    {
        let mut dimensions: Vec<Scalar> = Vec::new();
        let mut i: usize = 0;
        while i < self.dimensions.len()
            invariant
                i <= self@.len(),
                dimensions@.len() == i,
                forall|k: int|
                    0 <= k < i ==> dimensions@[k] == scaled_sum_spec(
                        rhs@,
                        self@[k],
                        rhs@.len() as int,
                    ),
            decreases self@.len() - i,
        {
            let d = self.dimensions[i];
            let mut acc = Scalar::zero();
            let mut j: usize = 0;
            while j < rhs.dimensions.len()
                invariant
                    j <= rhs@.len(),
                    acc == scaled_sum_spec(rhs@, d, j as int),
                decreases rhs@.len() - j,
            {
                acc = acc.add(rhs.dimensions[j].mul(d));
                j += 1;
            }
            dimensions.push(acc);
            i += 1;
        }
        Vector { dimensions }
    }
}

impl Rotor {
    /// The rotor with the first number of the list as scalar and the rest as areas.
    pub fn from_slice(s: &Vec<Scalar>) -> (r: Rotor)
        requires
            s@.len() >= 1,
        ensures
            r@.a == s@[0],
            r@.areas == s@.subrange(1, s@.len() as int),
    {
        let mut areas: Vec<Scalar> = Vec::new();
        let mut i: usize = 1;
        while i < s.len()
            invariant
                1 <= i <= s.len(),
                areas@ == s@.subrange(1, i as int),
            decreases s.len() - i,
        {
            areas.push(s[i]);
            assert(areas@ =~= s@.subrange(1, i + 1));
            i += 1;
        }
        Rotor { a: s[0], areas }
    }

    /// The rotor with scalar `a` and the areas of `bv`.
    pub fn from_bivector(a: Scalar, bv: BiVector) -> (r: Rotor)
        ensures
            r@ == (RotorModel { a, areas: bv@ }),
    {
        Rotor { a, areas: bv.areas }
    }

    /// The rotor from `v_from` to `v_to`: the scalar is one more than
    /// their inner product, the areas are those of their outer product, and
    /// the whole is scaled to unit length.
    pub fn from_vectors(v_from: Vector, v_to: Vector) -> (r: Rotor)
        requires
            v_to@.len() >= 1,
            v_from@.len() >= v_to@.len(),
        ensures
            r@ == (RotorModel {
                a: dot_spec(v_to@, v_from@).add_spec(Scalar::one_spec()),
                areas: outer_spec(v_to@, v_from@),
            }).normal(),
    {
        let a = v_to.dot(&v_from).add(Scalar::one());
        let mut r = Rotor { a, areas: outer(v_to, v_from).areas };
        r.normalize();
        r
    }

    /// The rotor by an angle in the plane `bv_plane`, from the cosine and
    /// the sine of half the angle: the scalar is the cosine, and every area
    /// of the plane is multiplied by the negated sine.
    pub fn from_angle_and_axis(cos_half: Scalar, sin_half: Scalar, bv_plane: &BiVector) -> (r: Rotor)
        ensures
            r@ == (RotorModel { a: cos_half, areas: scale_all_spec(sin_half.neg_spec(), bv_plane@) }),
    {
        let s = sin_half.neg();
        let mut areas: Vec<Scalar> = Vec::new();
        let mut i: usize = 0;
        while i < bv_plane.areas.len()
            invariant
                i <= bv_plane@.len(),
                areas@.len() == i,
                forall|k: int| 0 <= k < i ==> areas@[k] == s.mul_spec(bv_plane@[k]),
            decreases bv_plane@.len() - i,
        {
            areas.push(s.mul(bv_plane.areas[i]));
            i += 1;
        }
        assert(areas@ =~= scale_all_spec(s, bv_plane@));
        Rotor { a: cos_half, areas }
    }

    /// The product `self * rhs`, see [`RotorModel::mul`].
    pub fn mul(self, rhs: &Rotor) -> (r: Rotor)
        requires
            self@.areas.len() <= rhs@.areas.len(),
        ensures
            r@ == self@.mul(rhs@),
    {
        let a = self.a.mul(rhs.a).sub(dot_all(&self.areas, &rhs.areas));
        let mut areas: Vec<Scalar> = Vec::new();
        let mut i: usize = 0;
        while i < self.areas.len()
            invariant
                i <= self@.areas.len(),
                self@.areas.len() <= rhs@.areas.len(),
                areas@.len() == i,
                forall|k: int|
                    0 <= k < i ==> areas@[k] == product_area_spec(
                        self.a,
                        self.areas@,
                        rhs.a,
                        rhs.areas@,
                        k,
                        rhs.areas@.len() as int,
                    ),
            decreases self@.areas.len() - i,
        {
            let d = self.areas[i];
            let mut acc = Scalar::zero();
            let mut j: usize = 0;
            while j < rhs.areas.len()
                invariant
                    j <= rhs@.areas.len(),
                    i < self@.areas.len(),
                    self@.areas.len() <= rhs@.areas.len(),
                    d == self.areas@[i as int],
                    acc == product_area_spec(
                        self.a,
                        self.areas@,
                        rhs.a,
                        rhs.areas@,
                        i as int,
                        j as int,
                    ),
                decreases rhs@.areas.len() - j,
            {
                let term = if i == j {
                    d.mul(rhs.a).add(rhs.areas[j]).add(self.a)
                } else {
                    Scalar::one()
                };
                acc = acc.add(term);
                j += 1;
            }
            areas.push(acc);
            i += 1;
        }
        assert(areas@ =~= self@.mul(rhs@).areas);
        Rotor { a, areas }
    }

    /// The rotor `r` turned by this one: `self * r * reverse(self)`.
    pub fn rotate_by_rotor(self, r: Rotor) -> (out: Rotor)
        requires
            self@.areas.len() <= r@.areas.len(),
        ensures
            out@ == self@.mul(r@).mul(self@.reverse()),
    {
        let rev = self.reverse();
        self.mul(&r).mul(&rev)
    }

    /// The reverse: the same scalar, the areas negated.
    pub fn reverse(&self) -> (r: Rotor)
        ensures
            r@ == self@.reverse(),
    {
        let mut areas: Vec<Scalar> = Vec::new();
        let mut i: usize = 0;
        while i < self.areas.len()
            invariant
                i <= self@.areas.len(),
                areas@.len() == i,
                forall|k: int| 0 <= k < i ==> areas@[k] == self@.areas[k].neg_spec(),
            decreases self@.areas.len() - i,
        {
            areas.push(self.areas[i].neg());
            i += 1;
        }
        assert(areas@ =~= neg_all_spec(self@.areas));
        Rotor { a: self.a, areas }
    }

    /// The squared length: the squares of the areas, added up in order,
    /// and then the square of the scalar.
    pub fn length_sqrd(&self) -> (r: Scalar)
        ensures
            r == self@.length_sqrd(),
    {
        dot_all(&self.areas, &self.areas).add(self.a.mul(self.a))
    }

    /// The length: the Euclidean norm over the scalar and all areas.
    pub fn length(&self) -> (r: Scalar)
        ensures
            r == self@.length(),
    {
        norm_all(self.a, &self.areas)
    }

    /// Scales this rotor to unit length in place.
    pub fn normalize(&mut self)
        ensures
            final(self)@ == old(self)@.normal(),
    {
        let n = self.normal();
        self.a = n.a;
        self.areas = n.areas;
    }

    /// This rotor scaled to unit length; the rotor itself stays as it is.
    pub fn normal(&mut self) -> (r: Rotor)
        ensures
            final(self)@ == old(self)@,
            r@ == old(self)@.normal(),
    {
        let l = self.length();
        let a = self.a.div(l);
        Rotor { a, areas: div_all(&self.areas, l) }
    }
}

} // verus!
