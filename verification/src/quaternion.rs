//! Quaternions: numbers of four dimensions.
//!
//! A quaternion has a scalar part and a vector part. Quaternions are added
//! part by part and multiplied by the Hamilton product, which depends on
//! the order of its factors.

use crate::number::{Math, Number};
use crate::vec3::Vec3;
use std::ops::{Add, Mul};
use vstd::prelude::*;

verus! {

/// A quaternion: a scalar part and a vector part.
#[derive(Copy, Clone, Debug)]
pub struct Quaternion<S> {
    s: S,
    v: Vec3<S>,
}

/// Whether `square` is a value that the numbers can give for the sum of the
/// squares of the four parts of `q`, added up from the left, scalar part
/// first.
pub open spec fn is_square_sum<S: Number>(q: Quaternion<S>, square: S) -> bool {
    exists|ss: S, xx: S, yy: S, zz: S, sx: S, sxy: S|
        #![trigger crate::number::is_sum(ss, xx, sx), crate::number::is_sum(sx, yy, sxy), crate::number::is_sum(sxy, zz, square)]
        crate::number::is_product(q.scalar(), q.scalar(), ss) && crate::number::is_product(
            q.vector().x,
            q.vector().x,
            xx,
        ) && crate::number::is_product(q.vector().y, q.vector().y, yy)
            && crate::number::is_product(q.vector().z, q.vector().z, zz) && crate::number::is_sum(
            ss,
            xx,
            sx,
        ) && crate::number::is_sum(sx, yy, sxy) && crate::number::is_sum(sxy, zz, square)
}

/// Whether `magnitude` is a value that can be had for the magnitude of `q`:
/// a square root of the sum of the squares of its four parts.
pub open spec fn is_magnitude<S: Number, M: Math<S>>(math: M, q: Quaternion<S>, magnitude: S) -> bool {
    exists|square: S|
        is_square_sum(q, square) && #[trigger] crate::number::is_square_root(
            math,
            square,
            magnitude,
        )
}

/// Whether `sum` is a quaternion that addition can give for `a` and `b`,
/// part by part.
pub open spec fn is_quat_sum<S: Number>(a: Quaternion<S>, b: Quaternion<S>, sum: Quaternion<S>) -> bool {
    &&& crate::number::is_sum(a.scalar(), b.scalar(), sum.scalar())
    &&& crate::vec3::is_vec_sum(a.vector(), b.vector(), sum.vector())
}

/// Whether `scaled` is a quaternion that multiplication can give for the
/// number `k` times `q`: `k` times each part.
pub open spec fn is_quat_scaled<S: Number>(q: Quaternion<S>, k: S, scaled: Quaternion<S>) -> bool {
    &&& crate::number::is_product(k, q.scalar(), scaled.scalar())
    &&& crate::vec3::is_scaled(q.vector(), k, scaled.vector())
}

/// Whether `s` is a value that the numbers can give for the scalar part of
/// the product of `a` and `b`: the product of the scalar parts minus the dot
/// product of the vector parts.
pub open spec fn is_product_scalar<S: Number>(a: Quaternion<S>, b: Quaternion<S>, s: S) -> bool {
    exists|ss: S, dot: S|
        #![trigger crate::number::is_difference(ss, dot, s)]
        crate::number::is_product(a.scalar(), b.scalar(), ss) && crate::vec3::is_dot(
            a.vector(),
            b.vector(),
            dot,
        ) && crate::number::is_difference(ss, dot, s)
}

/// Whether `v` is a vector that the numbers can give for the vector part of
/// the product of `a` and `b`: the scalar part of `a` times the vector part
/// of `b`, plus the scalar part of `b` times the vector part of `a`, plus
/// the cross product of the vector parts.
pub open spec fn is_product_vector<S: Number>(a: Quaternion<S>, b: Quaternion<S>, v: Vec3<S>) -> bool {
    exists|ab: Vec3<S>, ba: Vec3<S>, both: Vec3<S>, cross: Vec3<S>|
        #![trigger crate::vec3::is_vec_sum(ab, ba, both), crate::vec3::is_vec_sum(both, cross, v)]
        crate::vec3::is_scaled(b.vector(), a.scalar(), ab) && crate::vec3::is_scaled(
            a.vector(),
            b.scalar(),
            ba,
        ) && crate::vec3::is_vec_sum(ab, ba, both) && crate::vec3::is_cross(
            a.vector(),
            b.vector(),
            cross,
        ) && crate::vec3::is_vec_sum(both, cross, v)
}

/// Whether `product` is a quaternion that the numbers can give for the
/// Hamilton product of `a` and `b`.
pub open spec fn is_quat_product<S: Number>(
    a: Quaternion<S>,
    b: Quaternion<S>,
    product: Quaternion<S>,
) -> bool {
    &&& is_product_scalar(a, b, product.scalar())
    &&& is_product_vector(a, b, product.vector())
}

impl<S: Number> Quaternion<S> {
    /// The scalar part.
    pub closed spec fn scalar(self) -> S {
        self.s
    }

    /// The vector part.
    pub closed spec fn vector(self) -> Vec3<S> {
        self.v
    }

    /// The quaternion with the scalar part `r` and the vector part
    /// `(i, j, k)`.
    pub fn new(r: S, i: S, j: S, k: S) -> (q: Quaternion<S>)
        ensures
            q.scalar() == r,
            q.vector() == (Vec3 { x: i, y: j, z: k }),
    {
        Quaternion { s: r, v: Vec3 { x: i, y: j, z: k } }
    }

    /// The scalar part.
    pub fn s(&self) -> (s: S)
        ensures
            s == self.scalar(),
    {
        self.s
    }

    /// The vector part.
    pub fn v(&self) -> (v: Vec3<S>)
        ensures
            v == self.vector(),
    {
        self.v
    }

    /// The sum with another quaternion, part by part.
    pub fn plus(self, other: Quaternion<S>) -> (sum: Quaternion<S>)
        requires
            crate::number::is_total::<S>(),
        ensures
            is_quat_sum(self, other, sum),
    {
        Quaternion { s: self.s + other.s, v: self.v.plus(other.v) }
    }

    /// The Hamilton product with another quaternion:
    /// `(s1, v1) * (s2, v2) = (s1 s2 - v1 . v2, s1 v2 + s2 v1 + v1 x v2)`.
    pub fn times(self, other: Quaternion<S>) -> (product: Quaternion<S>)
        requires
            crate::number::is_total::<S>(),
        ensures
            is_quat_product(self, other, product),
    {
        let ss = self.s * other.s;
        let dot = self.v.dot(other.v);
        let s = ss - dot;
        assert(crate::number::is_difference(ss, dot, s));
        let ab = other.v.scaled(self.s);
        let ba = self.v.scaled(other.s);
        let both = ab.plus(ba);
        let cross = self.v.cross(other.v);
        let v = both.plus(cross);
        assert(crate::vec3::is_vec_sum(ab, ba, both) && crate::vec3::is_vec_sum(both, cross, v));
        Quaternion { s, v }
    }

    /// The quaternion times a number: the number times each part.
    pub fn scaled(self, k: S) -> (scaled: Quaternion<S>)
        requires
            crate::number::is_total::<S>(),
        ensures
            is_quat_scaled(self, k, scaled),
    {
        Quaternion { s: k * self.s, v: self.v.scaled(k) }
    }

    /// The Euclidean norm in four dimensions.
    pub fn magnitude<M: Math<S>>(&self, math: &M) -> (magnitude: S)
        requires
            crate::number::is_total::<S>(),
        ensures
            is_magnitude(*math, *self, magnitude),
    {
        let ss = self.s * self.s;
        let xx = self.v.x * self.v.x;
        let yy = self.v.y * self.v.y;
        let zz = self.v.z * self.v.z;
        let sx = ss + xx;
        let sxy = sx + yy;
        let square = sxy + zz;
        assert(crate::number::is_sum(ss, xx, sx) && crate::number::is_sum(sx, yy, sxy)
            && crate::number::is_sum(sxy, zz, square));
        assert(is_square_sum(*self, square));
        let magnitude = math.sqrt(square);
        assert(crate::number::is_square_root(*math, square, magnitude));
        magnitude
    }
}

impl<S: Number> vstd::std_specs::ops::AddSpecImpl<Quaternion<S>> for Quaternion<S> {
    open spec fn obeys_add_spec() -> bool {
        false
    }

    open spec fn add_req(self, rhs: Quaternion<S>) -> bool {
        crate::number::is_total::<S>()
    }

    open spec fn add_spec(self, rhs: Quaternion<S>) -> Quaternion<S> {
        self
    }
}

impl<S: Number> Add<Quaternion<S>> for Quaternion<S> {
    type Output = Quaternion<S>;

    /// The sum of two quaternions, part by part.
    fn add(self, rhs: Quaternion<S>) -> (sum: Quaternion<S>)
        ensures
            is_quat_sum(self, rhs, sum),
    {
        self.plus(rhs)
    }
}

impl<S: Number> vstd::std_specs::ops::MulSpecImpl<Quaternion<S>> for Quaternion<S> {
    open spec fn obeys_mul_spec() -> bool {
        false
    }

    open spec fn mul_req(self, rhs: Quaternion<S>) -> bool {
        crate::number::is_total::<S>()
    }

    open spec fn mul_spec(self, rhs: Quaternion<S>) -> Quaternion<S> {
        self
    }
}

impl<S: Number> Mul<Quaternion<S>> for Quaternion<S> {
    type Output = Quaternion<S>;

    /// The Hamilton product:
    /// `(s1, v1) * (s2, v2) = (s1 s2 - v1 . v2, s1 v2 + s2 v1 + v1 x v2)`.
    fn mul(self, rhs: Quaternion<S>) -> (product: Quaternion<S>)
        ensures
            is_quat_product(self, rhs, product),
    {
        self.times(rhs)
    }
}

impl<S: Number> vstd::std_specs::ops::MulSpecImpl<S> for Quaternion<S> {
    open spec fn obeys_mul_spec() -> bool {
        false
    }

    open spec fn mul_req(self, rhs: S) -> bool {
        crate::number::is_total::<S>()
    }

    open spec fn mul_spec(self, rhs: S) -> Quaternion<S> {
        self
    }
}

impl<S: Number> Mul<S> for Quaternion<S> {
    type Output = Quaternion<S>;

    /// The quaternion times a number: the number times each part.
    fn mul(self, rhs: S) -> (scaled: Quaternion<S>)
        ensures
            is_quat_scaled(self, rhs, scaled),
    {
        self.scaled(rhs)
    }
}

/// The sum of the squares of the parts of a quaternion has one value where
/// each operation of the numbers gives one result.
pub proof fn lemma_square_sum_is_unique<S: Number>(q: Quaternion<S>, a: S, b: S)
    requires
        is_square_sum(q, a),
        is_square_sum(q, b),
        crate::number::is_exact::<S>(),
    ensures
        a == b,
{
    let (ss, xx, yy, zz, sx, sxy) = choose|ss: S, xx: S, yy: S, zz: S, sx: S, sxy: S|
        #![trigger crate::number::is_sum(ss, xx, sx), crate::number::is_sum(sx, yy, sxy), crate::number::is_sum(sxy, zz, a)]
        crate::number::is_product(q.scalar(), q.scalar(), ss) && crate::number::is_product(
            q.vector().x,
            q.vector().x,
            xx,
        ) && crate::number::is_product(q.vector().y, q.vector().y, yy)
            && crate::number::is_product(q.vector().z, q.vector().z, zz) && crate::number::is_sum(
            ss,
            xx,
            sx,
        ) && crate::number::is_sum(sx, yy, sxy) && crate::number::is_sum(sxy, zz, a);
    let (ss2, xx2, yy2, zz2, sx2, sxy2) = choose|ss: S, xx: S, yy: S, zz: S, sx: S, sxy: S|
        #![trigger crate::number::is_sum(ss, xx, sx), crate::number::is_sum(sx, yy, sxy), crate::number::is_sum(sxy, zz, b)]
        crate::number::is_product(q.scalar(), q.scalar(), ss) && crate::number::is_product(
            q.vector().x,
            q.vector().x,
            xx,
        ) && crate::number::is_product(q.vector().y, q.vector().y, yy)
            && crate::number::is_product(q.vector().z, q.vector().z, zz) && crate::number::is_sum(
            ss,
            xx,
            sx,
        ) && crate::number::is_sum(sx, yy, sxy) && crate::number::is_sum(sxy, zz, b);
    assert(ss == ss2 && xx == xx2 && yy == yy2 && zz == zz2);
    assert(sx == sx2);
    assert(sxy == sxy2);
}

/// A quaternion has one magnitude where each operation of the numbers and of
/// `math` gives one result.
pub proof fn lemma_magnitude_is_unique<S: Number, M: Math<S>>(math: M, q: Quaternion<S>, a: S, b: S)
    requires
        is_magnitude(math, q, a),
        is_magnitude(math, q, b),
        crate::number::is_exact::<S>(),
        crate::number::is_exact_math(math),
    ensures
        a == b,
{
    let sa = choose|square: S|
        is_square_sum(q, square) && #[trigger] crate::number::is_square_root(math, square, a);
    let sb = choose|square: S|
        is_square_sum(q, square) && #[trigger] crate::number::is_square_root(math, square, b);
    lemma_square_sum_is_unique(q, sa, sb);
}

/// Two quaternions have one sum where each operation of the numbers gives
/// one result.
pub proof fn lemma_quat_sum_is_unique<S: Number>(
    a: Quaternion<S>,
    b: Quaternion<S>,
    p: Quaternion<S>,
    q: Quaternion<S>,
)
    requires
        is_quat_sum(a, b, p),
        is_quat_sum(a, b, q),
        crate::number::is_exact::<S>(),
    ensures
        p == q,
{
    assert(p.s == q.s);
    assert(p.v.x == q.v.x && p.v.y == q.v.y && p.v.z == q.v.z);
}

/// A quaternion has one multiple by a number where each operation of the
/// numbers gives one result.
pub proof fn lemma_quat_scaled_is_unique<S: Number>(
    a: Quaternion<S>,
    k: S,
    p: Quaternion<S>,
    q: Quaternion<S>,
)
    requires
        is_quat_scaled(a, k, p),
        is_quat_scaled(a, k, q),
        crate::number::is_exact::<S>(),
    ensures
        p == q,
{
    assert(p.s == q.s);
    assert(p.v.x == q.v.x && p.v.y == q.v.y && p.v.z == q.v.z);
}

/// Two quaternions have one product where each operation of the numbers
/// gives one result.
pub proof fn lemma_quat_product_is_unique<S: Number>(
    a: Quaternion<S>,
    b: Quaternion<S>,
    p: Quaternion<S>,
    q: Quaternion<S>,
)
    requires
        is_quat_product(a, b, p),
        is_quat_product(a, b, q),
        crate::number::is_exact::<S>(),
    ensures
        p == q,
{
    let (ss, dot) = choose|ss: S, dot: S|
        #![trigger crate::number::is_difference(ss, dot, p.scalar())]
        crate::number::is_product(a.scalar(), b.scalar(), ss) && crate::vec3::is_dot(
            a.vector(),
            b.vector(),
            dot,
        ) && crate::number::is_difference(ss, dot, p.scalar());
    let (ss2, dot2) = choose|ss: S, dot: S|
        #![trigger crate::number::is_difference(ss, dot, q.scalar())]
        crate::number::is_product(a.scalar(), b.scalar(), ss) && crate::vec3::is_dot(
            a.vector(),
            b.vector(),
            dot,
        ) && crate::number::is_difference(ss, dot, q.scalar());
    crate::vec3::lemma_dot_is_unique(a.vector(), b.vector(), dot, dot2);
    assert(ss == ss2);
    assert(p.s == q.s);
    let (ab, ba, both, cross) = choose|ab: Vec3<S>, ba: Vec3<S>, both: Vec3<S>, cross: Vec3<S>|
        #![trigger crate::vec3::is_vec_sum(ab, ba, both), crate::vec3::is_vec_sum(both, cross, p.vector())]
        crate::vec3::is_scaled(b.vector(), a.scalar(), ab) && crate::vec3::is_scaled(
            a.vector(),
            b.scalar(),
            ba,
        ) && crate::vec3::is_vec_sum(ab, ba, both) && crate::vec3::is_cross(
            a.vector(),
            b.vector(),
            cross,
        ) && crate::vec3::is_vec_sum(both, cross, p.vector());
    let (ab2, ba2, both2, cross2) = choose|
        ab: Vec3<S>,
        ba: Vec3<S>,
        both: Vec3<S>,
        cross: Vec3<S>,
    |
        #![trigger crate::vec3::is_vec_sum(ab, ba, both), crate::vec3::is_vec_sum(both, cross, q.vector())]
        crate::vec3::is_scaled(b.vector(), a.scalar(), ab) && crate::vec3::is_scaled(
            a.vector(),
            b.scalar(),
            ba,
        ) && crate::vec3::is_vec_sum(ab, ba, both) && crate::vec3::is_cross(
            a.vector(),
            b.vector(),
            cross,
        ) && crate::vec3::is_vec_sum(both, cross, q.vector());
    assert(ab.x == ab2.x && ab.y == ab2.y && ab.z == ab2.z);
    assert(ba.x == ba2.x && ba.y == ba2.y && ba.z == ba2.z);
    assert(both.x == both2.x && both.y == both2.y && both.z == both2.z);
    crate::vec3::lemma_cross_is_unique(a.vector(), b.vector(), cross, cross2);
    assert(p.v.x == q.v.x && p.v.y == q.v.y && p.v.z == q.v.z);
}

/// Two quaternions with the same scalar part and the same vector part are
/// the same quaternion.
pub proof fn lemma_parts_make_the_quaternion<S: Number>(a: Quaternion<S>, b: Quaternion<S>)
    requires
        a.scalar() == b.scalar(),
        a.vector() == b.vector(),
    ensures
        a == b,
{
}

/// Whether `one` is a quaternion one: its scalar part is a number one and
/// each coordinate of its vector part a number zero.
pub open spec fn is_one<S: Number>(one: Quaternion<S>) -> bool {
    &&& crate::number::is_whole(1, one.scalar())
    &&& crate::number::is_whole(0, one.vector().x)
    &&& crate::number::is_whole(0, one.vector().y)
    &&& crate::number::is_whole(0, one.vector().z)
}

/// The product of a quaternion with the quaternion one, on either side, is
/// the quaternion itself, for numbers of which one and zero do what they are
/// named for: one times a number is the number, zero times a number is
/// zero, and adding or subtracting zero changes nothing.
pub proof fn lemma_product_with_one<S: Number>(
    q: Quaternion<S>,
    one: Quaternion<S>,
    right: Quaternion<S>,
    left: Quaternion<S>,
)
    requires
        is_one(one),
        is_quat_product(q, one, right),
        is_quat_product(one, q, left),
        crate::number::has_one_and_zero::<S>(),
    ensures
        right == q,
        left == q,
{
    let o = one.scalar();
    let z = one.vector().x;
    assert(one.vector().y == z && one.vector().z == z) by {
        assert(crate::number::is_whole(0, one.vector().y));
        assert(crate::number::is_whole(0, one.vector().z));
    }
    lemma_product_on_the_right(q, one, right);
    lemma_product_on_the_left(q, one, left);
}

/// The product with the quaternion one on the right.
proof fn lemma_product_on_the_right<S: Number>(q: Quaternion<S>, one: Quaternion<S>, r: Quaternion<S>)
    requires
        is_one(one),
        one.vector().y == one.vector().x,
        one.vector().z == one.vector().x,
        is_quat_product(q, one, r),
        crate::number::has_one_and_zero::<S>(),
    ensures
        r == q,
{
    let o = one.scalar();
    let z = one.vector().x;
    let (ss, dot) = choose|ss: S, dot: S|
        #![trigger crate::number::is_difference(ss, dot, r.scalar())]
        crate::number::is_product(q.scalar(), one.scalar(), ss) && crate::vec3::is_dot(
            q.vector(),
            one.vector(),
            dot,
        ) && crate::number::is_difference(ss, dot, r.scalar());
    let (xx, yy, zz, xy) = choose|xx: S, yy: S, zz: S, xy: S|
        #![trigger crate::number::is_sum(xx, yy, xy), crate::number::is_sum(xy, zz, dot)]
        crate::number::is_product(q.vector().x, one.vector().x, xx) && crate::number::is_product(
            q.vector().y,
            one.vector().y,
            yy,
        ) && crate::number::is_product(q.vector().z, one.vector().z, zz) && crate::number::is_sum(
            xx,
            yy,
            xy,
        ) && crate::number::is_sum(xy, zz, dot);
    assert(xx == z && yy == z && zz == z);
    assert(xy == z);
    assert(dot == z);
    assert(ss == q.scalar());
    assert(r.s == q.s);
    let (ab, ba, both, cross) = choose|ab: Vec3<S>, ba: Vec3<S>, both: Vec3<S>, cross: Vec3<S>|
        #![trigger crate::vec3::is_vec_sum(ab, ba, both), crate::vec3::is_vec_sum(both, cross, r.vector())]
        crate::vec3::is_scaled(one.vector(), q.scalar(), ab) && crate::vec3::is_scaled(
            q.vector(),
            one.scalar(),
            ba,
        ) && crate::vec3::is_vec_sum(ab, ba, both) && crate::vec3::is_cross(
            q.vector(),
            one.vector(),
            cross,
        ) && crate::vec3::is_vec_sum(both, cross, r.vector());
    assert(ab.x == z && ab.y == z && ab.z == z);
    assert(ba.x == q.vector().x && ba.y == q.vector().y && ba.z == q.vector().z);
    assert(both.x == q.vector().x && both.y == q.vector().y && both.z == q.vector().z);
    lemma_cross_term_with_zero(q.vector().y, z, q.vector().z, z, cross.x, z);
    lemma_cross_term_with_zero(q.vector().z, z, q.vector().x, z, cross.y, z);
    lemma_cross_term_with_zero(q.vector().x, z, q.vector().y, z, cross.z, z);
    assert(r.v.x == q.v.x && r.v.y == q.v.y && r.v.z == q.v.z);
}

/// The product with the quaternion one on the left.
proof fn lemma_product_on_the_left<S: Number>(q: Quaternion<S>, one: Quaternion<S>, r: Quaternion<S>)
    requires
        is_one(one),
        one.vector().y == one.vector().x,
        one.vector().z == one.vector().x,
        is_quat_product(one, q, r),
        crate::number::has_one_and_zero::<S>(),
    ensures
        r == q,
{
    let o = one.scalar();
    let z = one.vector().x;
    let (ss, dot) = choose|ss: S, dot: S|
        #![trigger crate::number::is_difference(ss, dot, r.scalar())]
        crate::number::is_product(one.scalar(), q.scalar(), ss) && crate::vec3::is_dot(
            one.vector(),
            q.vector(),
            dot,
        ) && crate::number::is_difference(ss, dot, r.scalar());
    let (xx, yy, zz, xy) = choose|xx: S, yy: S, zz: S, xy: S|
        #![trigger crate::number::is_sum(xx, yy, xy), crate::number::is_sum(xy, zz, dot)]
        crate::number::is_product(one.vector().x, q.vector().x, xx) && crate::number::is_product(
            one.vector().y,
            q.vector().y,
            yy,
        ) && crate::number::is_product(one.vector().z, q.vector().z, zz) && crate::number::is_sum(
            xx,
            yy,
            xy,
        ) && crate::number::is_sum(xy, zz, dot);
    assert(xx == z && yy == z && zz == z);
    assert(xy == z);
    assert(dot == z);
    assert(ss == q.scalar());
    assert(r.s == q.s);
    let (ab, ba, both, cross) = choose|ab: Vec3<S>, ba: Vec3<S>, both: Vec3<S>, cross: Vec3<S>|
        #![trigger crate::vec3::is_vec_sum(ab, ba, both), crate::vec3::is_vec_sum(both, cross, r.vector())]
        crate::vec3::is_scaled(q.vector(), one.scalar(), ab) && crate::vec3::is_scaled(
            one.vector(),
            q.scalar(),
            ba,
        ) && crate::vec3::is_vec_sum(ab, ba, both) && crate::vec3::is_cross(
            one.vector(),
            q.vector(),
            cross,
        ) && crate::vec3::is_vec_sum(both, cross, r.vector());
    assert(ab.x == q.vector().x && ab.y == q.vector().y && ab.z == q.vector().z);
    assert(ba.x == z && ba.y == z && ba.z == z);
    assert(both.x == q.vector().x && both.y == q.vector().y && both.z == q.vector().z);
    lemma_cross_term_with_zero(z, q.vector().z, z, q.vector().y, cross.x, z);
    lemma_cross_term_with_zero(z, q.vector().x, z, q.vector().z, cross.y, z);
    lemma_cross_term_with_zero(z, q.vector().y, z, q.vector().x, cross.z, z);
    assert(r.v.x == q.v.x && r.v.y == q.v.y && r.v.z == q.v.z);
}

/// A cross term of which each product has a factor zero is zero.
proof fn lemma_cross_term_with_zero<S: Number>(a: S, b: S, c: S, d: S, r: S, zero: S)
    requires
        crate::vec3::is_cross_term(a, b, c, d, r),
        crate::number::is_whole(0, zero),
        a == zero || b == zero,
        c == zero || d == zero,
        crate::number::has_one_and_zero::<S>(),
    ensures
        r == zero,
{
    let (ab, cd) = choose|ab: S, cd: S|
        #![trigger crate::number::is_difference(ab, cd, r)]
        crate::number::is_product(a, b, ab) && crate::number::is_product(c, d, cd)
            && crate::number::is_difference(ab, cd, r);
    assert(ab == zero);
    assert(cd == zero);
}

} // verus!
