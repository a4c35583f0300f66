//! Vectors of three numbers.
//!
//! A vector serves as a point, as a direction and as a colour of three
//! channels. Its operators go coordinate by coordinate. Each method is also
//! there under a name, for use where an operator will not do.

use crate::number::{inverse, signed, Math, Number};
use std::ops::{Add, Mul, Neg, Sub};
use vstd::prelude::*;
use vstd::std_specs::ops::{AddSpec, MulSpec, NegSpec, SubSpec};

verus! {

/// A vector of three numbers.
#[derive(Copy, Clone, Debug, PartialEq)]
pub struct Vec3<S> {
    pub x: S,
    pub y: S,
    pub z: S,
}

/// Whether `sum` is a vector that addition can give for `a` and `b`,
/// coordinate by coordinate.
pub open spec fn is_vec_sum<S: Number>(a: Vec3<S>, b: Vec3<S>, sum: Vec3<S>) -> bool {
    &&& crate::number::is_sum(a.x, b.x, sum.x)
    &&& crate::number::is_sum(a.y, b.y, sum.y)
    &&& crate::number::is_sum(a.z, b.z, sum.z)
}

/// Whether `difference` is a vector that subtraction can give for `a` and
/// `b`, coordinate by coordinate.
pub open spec fn is_vec_difference<S: Number>(a: Vec3<S>, b: Vec3<S>, difference: Vec3<S>) -> bool {
    &&& crate::number::is_difference(a.x, b.x, difference.x)
    &&& crate::number::is_difference(a.y, b.y, difference.y)
    &&& crate::number::is_difference(a.z, b.z, difference.z)
}

/// Whether `opposite` is a vector that negation can give for `a`, coordinate
/// by coordinate.
pub open spec fn is_vec_opposite<S: Number>(a: Vec3<S>, opposite: Vec3<S>) -> bool {
    &&& crate::number::is_opposite(a.x, opposite.x)
    &&& crate::number::is_opposite(a.y, opposite.y)
    &&& crate::number::is_opposite(a.z, opposite.z)
}

/// Whether `scaled` is a vector that multiplication can give for the number
/// `k` times `v`: `k` times each coordinate.
pub open spec fn is_scaled<S: Number>(v: Vec3<S>, k: S, scaled: Vec3<S>) -> bool {
    &&& crate::number::is_product(k, v.x, scaled.x)
    &&& crate::number::is_product(k, v.y, scaled.y)
    &&& crate::number::is_product(k, v.z, scaled.z)
}

/// Whether `shifted` is a vector that addition can give for `v` and the
/// number `k`: each coordinate plus `k`.
pub open spec fn is_shifted<S: Number>(v: Vec3<S>, k: S, shifted: Vec3<S>) -> bool {
    &&& crate::number::is_sum(v.x, k, shifted.x)
    &&& crate::number::is_sum(v.y, k, shifted.y)
    &&& crate::number::is_sum(v.z, k, shifted.z)
}

/// Whether `v` is a vector that the numbers can give for the three whole
/// numbers `x`, `y` and `z`.
pub open spec fn is_whole_vec<S: Number>(x: i32, y: i32, z: i32, v: Vec3<S>) -> bool {
    &&& crate::number::is_signed(x, v.x)
    &&& crate::number::is_signed(y, v.y)
    &&& crate::number::is_signed(z, v.z)
}

/// Whether `dot` is a value that the numbers can give for the dot product of
/// `a` and `b`: the products of the first, the second and the third
/// coordinates, added up from the left.
pub open spec fn is_dot<S: Number>(a: Vec3<S>, b: Vec3<S>, dot: S) -> bool {
    exists|xx: S, yy: S, zz: S, xy: S|
        #![trigger crate::number::is_sum(xx, yy, xy), crate::number::is_sum(xy, zz, dot)]
        crate::number::is_product(a.x, b.x, xx) && crate::number::is_product(a.y, b.y, yy)
            && crate::number::is_product(a.z, b.z, zz) && crate::number::is_sum(xx, yy, xy)
            && crate::number::is_sum(xy, zz, dot)
}

/// Whether `r` is a value that the numbers can give for `a` times `b` minus
/// `c` times `d`.
pub open spec fn is_cross_term<S: Number>(a: S, b: S, c: S, d: S, r: S) -> bool {
    exists|ab: S, cd: S|
        #![trigger crate::number::is_difference(ab, cd, r)]
        crate::number::is_product(a, b, ab) && crate::number::is_product(c, d, cd)
            && crate::number::is_difference(ab, cd, r)
}

/// Whether `cross` is a vector that the numbers can give for the cross
/// product of `a` and `b`.
pub open spec fn is_cross<S: Number>(a: Vec3<S>, b: Vec3<S>, cross: Vec3<S>) -> bool {
    &&& is_cross_term(a.y, b.z, a.z, b.y, cross.x)
    &&& is_cross_term(a.z, b.x, a.x, b.z, cross.y)
    &&& is_cross_term(a.x, b.y, a.y, b.x, cross.z)
}

/// Whether `magnitude` is a value that can be had for the magnitude of `v`:
/// a square root of its dot product with itself.
pub open spec fn is_magnitude<S: Number, M: Math<S>>(math: M, v: Vec3<S>, magnitude: S) -> bool {
    exists|square: S|
        is_dot(v, v, square) && #[trigger] crate::number::is_square_root(math, square, magnitude)
}

/// Whether `unit` is what can be had for `v` brought to a magnitude of one:
/// nothing where the magnitude of `v` has no inverse, that is, where it is
/// zero; else the inverse of the magnitude times `v`.
pub open spec fn is_normalized<S: Number, M: Math<S>>(
    math: M,
    v: Vec3<S>,
    unit: Option<Vec3<S>>,
) -> bool {
    exists|magnitude: S, factor: Option<S>|
        #![trigger is_magnitude(math, v, magnitude), crate::number::is_inverse(magnitude, factor)]
        is_magnitude(math, v, magnitude) && crate::number::is_inverse(magnitude, factor)
            && match factor {
            None => unit is None,
            Some(k) => unit is Some && is_scaled(v, k, unit->0),
        }
}

/// Whether `mirrored` is a vector that can be had for `v` reflected about
/// the unit vector `unit`: `v` minus `unit` times twice the dot product of
/// the two.
pub open spec fn is_mirrored<S: Number>(v: Vec3<S>, unit: Vec3<S>, mirrored: Vec3<S>) -> bool {
    exists|two: S, dot: S, twice: S, back: Vec3<S>|
        #![trigger crate::number::is_product(two, dot, twice), is_scaled(unit, twice, back)]
        crate::number::is_whole(2, two) && is_dot(v, unit, dot) && crate::number::is_product(
            two,
            dot,
            twice,
        ) && is_scaled(unit, twice, back) && is_vec_difference(v, back, mirrored)
}

/// Whether `reflected` is what can be had for `v` reflected about the normal
/// `norm`: nothing where `norm` cannot be brought to a magnitude of one,
/// else `v` reflected about `norm` of magnitude one.
pub open spec fn is_reflected<S: Number, M: Math<S>>(
    math: M,
    v: Vec3<S>,
    norm: Vec3<S>,
    reflected: Option<Vec3<S>>,
) -> bool {
    exists|unit: Option<Vec3<S>>| #[trigger]
        is_normalized(math, norm, unit) && match unit {
            None => reflected is None,
            Some(u) => reflected is Some && is_mirrored(v, u, reflected->0),
        }
}

/// Whether `mix` is a vector that the numbers can give for the point
/// between `a` and `b` at the share `t`: `a` plus `t` times the difference
/// of `b` and `a`.
pub open spec fn is_lerp<S: Number>(a: Vec3<S>, b: Vec3<S>, t: S, mix: Vec3<S>) -> bool {
    exists|way: Vec3<S>, part: Vec3<S>|
        #![trigger is_vec_difference(b, a, way), is_scaled(way, t, part)]
        is_vec_difference(b, a, way) && is_scaled(way, t, part) && is_vec_sum(a, part, mix)
}

/// Whether `k` is a value that the numbers can give for the discriminant of
/// a refraction, where `dot` is the dot product of the ray and the normal
/// and `eta` the relative index: one minus the square of `eta` times one
/// minus the square of `dot`.
pub open spec fn is_discriminant<S: Number>(dot: S, eta: S, k: S) -> bool {
    exists|one: S, eta_square: S, dot_square: S, rest: S, part: S|
        #![trigger crate::number::is_product(eta, eta, eta_square), crate::number::is_product(dot, dot, dot_square), crate::number::is_difference(one, dot_square, rest), crate::number::is_product(eta_square, rest, part)]
        crate::number::is_whole(1, one) && crate::number::is_product(eta, eta, eta_square)
            && crate::number::is_product(dot, dot, dot_square) && crate::number::is_difference(
            one,
            dot_square,
            rest,
        ) && crate::number::is_product(eta_square, rest, part) && crate::number::is_difference(
            one,
            part,
            k,
        )
}

/// Whether `bent` is a vector that can be had for the refracted ray where
/// the discriminant `k` is not negative: `eta` times `v`, minus `norm` times
/// the sum of `eta` times `dot` and a square root of `k`.
pub open spec fn is_bent<S: Number, M: Math<S>>(
    math: M,
    v: Vec3<S>,
    norm: Vec3<S>,
    eta: S,
    dot: S,
    k: S,
    bent: Vec3<S>,
) -> bool {
    exists|along: Vec3<S>, part: S, root: S, depth: S, across: Vec3<S>|
        #![trigger is_scaled(v, eta, along), crate::number::is_product(eta, dot, part), crate::number::is_sum(part, root, depth), is_scaled(norm, depth, across)]
        is_scaled(v, eta, along) && crate::number::is_product(eta, dot, part)
            && crate::number::is_square_root(math, k, root) && crate::number::is_sum(
            part,
            root,
            depth,
        ) && is_scaled(norm, depth, across) && is_vec_difference(along, across, bent)
}

/// Whether `refracted` is a vector that can be had for `v` refracted
/// through a surface with the normal `norm` and the relative index `eta`:
/// the zero vector where the numbers find the discriminant less than zero,
/// which is total internal reflection; else the refracted ray.
pub open spec fn is_refracted<S: Number, M: Math<S>>(
    math: M,
    v: Vec3<S>,
    norm: Vec3<S>,
    eta: S,
    refracted: Vec3<S>,
) -> bool {
    exists|dot: S, k: S, zero: S, negative: bool|
        #![trigger is_discriminant(dot, eta, k), crate::number::is_less(k, zero, negative)]
        is_dot(v, norm, dot) && is_discriminant(dot, eta, k) && crate::number::is_whole(0, zero)
            && crate::number::is_less(k, zero, negative) && if negative {
            is_whole_vec(0, 0, 0, refracted)
        } else {
            is_bent(math, v, norm, eta, dot, k, refracted)
        }
}

impl<S: Number> vstd::std_specs::ops::AddSpecImpl<Vec3<S>> for Vec3<S> {
    open spec fn obeys_add_spec() -> bool {
        <S as AddSpec<S>>::obeys_add_spec()
    }

    open spec fn add_req(self, rhs: Vec3<S>) -> bool {
        &&& call_requires(<S as Add<S>>::add, (self.x, rhs.x))
        &&& call_requires(<S as Add<S>>::add, (self.y, rhs.y))
        &&& call_requires(<S as Add<S>>::add, (self.z, rhs.z))
    }

    open spec fn add_spec(self, rhs: Vec3<S>) -> Vec3<S> {
        Vec3 { x: self.x.add_spec(rhs.x), y: self.y.add_spec(rhs.y), z: self.z.add_spec(rhs.z) }
    }
}

impl<S: Number> Add<Vec3<S>> for Vec3<S> {
    type Output = Vec3<S>;

    /// The sum of two vectors, coordinate by coordinate.
    fn add(self, rhs: Vec3<S>) -> (sum: Vec3<S>)
        ensures
            is_vec_sum(self, rhs, sum),
    {
        Vec3 { x: self.x + rhs.x, y: self.y + rhs.y, z: self.z + rhs.z }
    }
}

impl<S: Number> vstd::std_specs::ops::SubSpecImpl<Vec3<S>> for Vec3<S> {
    open spec fn obeys_sub_spec() -> bool {
        <S as SubSpec<S>>::obeys_sub_spec()
    }

    open spec fn sub_req(self, rhs: Vec3<S>) -> bool {
        &&& call_requires(<S as Sub<S>>::sub, (self.x, rhs.x))
        &&& call_requires(<S as Sub<S>>::sub, (self.y, rhs.y))
        &&& call_requires(<S as Sub<S>>::sub, (self.z, rhs.z))
    }

    open spec fn sub_spec(self, rhs: Vec3<S>) -> Vec3<S> {
        Vec3 { x: self.x.sub_spec(rhs.x), y: self.y.sub_spec(rhs.y), z: self.z.sub_spec(rhs.z) }
    }
}

impl<S: Number> Sub<Vec3<S>> for Vec3<S> {
    type Output = Vec3<S>;

    /// The difference of two vectors, coordinate by coordinate.
    fn sub(self, rhs: Vec3<S>) -> (difference: Vec3<S>)
        ensures
            is_vec_difference(self, rhs, difference),
    {
        Vec3 { x: self.x - rhs.x, y: self.y - rhs.y, z: self.z - rhs.z }
    }
}

impl<S: Number> vstd::std_specs::ops::NegSpecImpl for Vec3<S> {
    open spec fn obeys_neg_spec() -> bool {
        <S as NegSpec>::obeys_neg_spec()
    }

    open spec fn neg_req(self) -> bool {
        &&& call_requires(<S as Neg>::neg, (self.x,))
        &&& call_requires(<S as Neg>::neg, (self.y,))
        &&& call_requires(<S as Neg>::neg, (self.z,))
    }

    open spec fn neg_spec(self) -> Vec3<S> {
        Vec3 { x: self.x.neg_spec(), y: self.y.neg_spec(), z: self.z.neg_spec() }
    }
}

impl<S: Number> Neg for Vec3<S> {
    type Output = Vec3<S>;

    /// The opposite vector.
    fn neg(self) -> (opposite: Vec3<S>)
        ensures
            is_vec_opposite(self, opposite),
    {
        Vec3 { x: self.x.neg(), y: self.y.neg(), z: self.z.neg() }
    }
}

impl<S: Number> vstd::std_specs::ops::MulSpecImpl<S> for Vec3<S> {
    open spec fn obeys_mul_spec() -> bool {
        <S as MulSpec<S>>::obeys_mul_spec()
    }

    open spec fn mul_req(self, rhs: S) -> bool {
        &&& call_requires(<S as Mul<S>>::mul, (rhs, self.x))
        &&& call_requires(<S as Mul<S>>::mul, (rhs, self.y))
        &&& call_requires(<S as Mul<S>>::mul, (rhs, self.z))
    }

    open spec fn mul_spec(self, rhs: S) -> Vec3<S> {
        Vec3 { x: rhs.mul_spec(self.x), y: rhs.mul_spec(self.y), z: rhs.mul_spec(self.z) }
    }
}

impl<S: Number> Mul<S> for Vec3<S> {
    type Output = Vec3<S>;

    /// The vector times a number: the number times each coordinate.
    fn mul(self, rhs: S) -> (scaled: Vec3<S>)
        ensures
            is_scaled(self, rhs, scaled),
    {
        Vec3 { x: rhs * self.x, y: rhs * self.y, z: rhs * self.z }
    }
}

impl<S: Number> vstd::std_specs::ops::AddSpecImpl<S> for Vec3<S> {
    open spec fn obeys_add_spec() -> bool {
        <S as AddSpec<S>>::obeys_add_spec()
    }

    open spec fn add_req(self, rhs: S) -> bool {
        &&& call_requires(<S as Add<S>>::add, (self.x, rhs))
        &&& call_requires(<S as Add<S>>::add, (self.y, rhs))
        &&& call_requires(<S as Add<S>>::add, (self.z, rhs))
    }

    open spec fn add_spec(self, rhs: S) -> Vec3<S> {
        Vec3 { x: self.x.add_spec(rhs), y: self.y.add_spec(rhs), z: self.z.add_spec(rhs) }
    }
}

impl<S: Number> Add<S> for Vec3<S> {
    type Output = Vec3<S>;

    /// The vector with a number added to each coordinate.
    fn add(self, rhs: S) -> (shifted: Vec3<S>)
        ensures
            is_shifted(self, rhs, shifted),
    {
        Vec3 { x: self.x + rhs, y: self.y + rhs, z: self.z + rhs }
    }
}

impl<S: Number> Default for Vec3<S> {
    /// The zero vector.
    fn default() -> (zero: Vec3<S>)
        ensures
            is_whole_vec(0, 0, 0, zero),
    {
        Vec3 { x: S::from(0u32), y: S::from(0u32), z: S::from(0u32) }
    }
}

impl<S: Number> vstd::std_specs::convert::FromSpecImpl<(S, S, S)> for Vec3<S> {
    open spec fn obeys_from_spec() -> bool {
        true
    }

    open spec fn from_spec(v: (S, S, S)) -> Vec3<S> {
        Vec3 { x: v.0, y: v.1, z: v.2 }
    }
}

impl<S: Number> From<(S, S, S)> for Vec3<S> {
    /// The vector of three coordinates.
    fn from(v: (S, S, S)) -> (r: Vec3<S>)
        ensures
            r == (Vec3 { x: v.0, y: v.1, z: v.2 }),
    {
        Vec3 { x: v.0, y: v.1, z: v.2 }
    }
}

impl<S: Number> Vec3<S> {
    /// The vector of three whole numbers.
    pub fn whole(x: i32, y: i32, z: i32) -> (v: Vec3<S>)
        requires
            crate::number::is_total::<S>(),
        ensures
            is_whole_vec(x, y, z, v),
    {
        Vec3 { x: signed(x), y: signed(y), z: signed(z) }
    }

    /// The vector whose three coordinates are `n`.
    pub fn splat(n: S) -> (v: Vec3<S>)
        ensures
            v == (Vec3 { x: n, y: n, z: n }),
    {
        Vec3 { x: n, y: n, z: n }
    }

    /// The sum with another vector, coordinate by coordinate.
    pub fn plus(self, other: Vec3<S>) -> (sum: Vec3<S>)
        requires
            crate::number::is_total::<S>(),
        ensures
            is_vec_sum(self, other, sum),
    {
        Vec3 { x: self.x + other.x, y: self.y + other.y, z: self.z + other.z }
    }

    /// The difference to another vector, coordinate by coordinate.
    pub fn minus(self, other: Vec3<S>) -> (difference: Vec3<S>)
        requires
            crate::number::is_total::<S>(),
        ensures
            is_vec_difference(self, other, difference),
    {
        Vec3 { x: self.x - other.x, y: self.y - other.y, z: self.z - other.z }
    }

    /// The opposite vector.
    pub fn negated(self) -> (opposite: Vec3<S>)
        requires
            crate::number::is_total::<S>(),
        ensures
            is_vec_opposite(self, opposite),
    {
        Vec3 { x: self.x.neg(), y: self.y.neg(), z: self.z.neg() }
    }

    /// The vector times a number: the number times each coordinate.
    pub fn scaled(self, k: S) -> (scaled: Vec3<S>)
        requires
            crate::number::is_total::<S>(),
        ensures
            is_scaled(self, k, scaled),
    {
        Vec3 { x: k * self.x, y: k * self.y, z: k * self.z }
    }

    /// The Euclidean norm: the square root of the dot product of the vector
    /// with itself.
    pub fn magnitude<M: Math<S>>(self, math: &M) -> (magnitude: S)
        requires
            crate::number::is_total::<S>(),
        ensures
            is_magnitude(*math, self, magnitude),
    {
        let square = self.dot(self);
        let magnitude = math.sqrt(square);
        assert(crate::number::is_square_root(*math, square, magnitude));
        magnitude
    }

    /// The dot product with another vector.
    pub fn dot(self, other: Vec3<S>) -> (dot: S)
        requires
            crate::number::is_total::<S>(),
        ensures
            is_dot(self, other, dot),
    {
        let xx = self.x * other.x;
        let yy = self.y * other.y;
        let zz = self.z * other.z;
        let xy = xx + yy;
        let dot = xy + zz;
        assert(crate::number::is_sum(xx, yy, xy) && crate::number::is_sum(xy, zz, dot));
        dot
    }

    /// The vector brought to a magnitude of one, or `None` where its
    /// magnitude is zero: such a vector has no direction.
    pub fn normalized<M: Math<S>>(self, math: &M) -> (unit: Option<Vec3<S>>)
        requires
            crate::number::is_total::<S>(),
        ensures
            is_normalized(*math, self, unit),
    {
        let magnitude = self.magnitude(math);
        let factor = inverse(magnitude);
        assert(is_magnitude(*math, self, magnitude) && crate::number::is_inverse(
            magnitude,
            factor,
        ));
        match factor {
            None => None,
            Some(k) => Some(self.scaled(k)),
        }
    }

    /// The vector reflected about a normal, which need not have a magnitude
    /// of one; `None` where the normal has a magnitude of zero.
    pub fn reflect<M: Math<S>>(self, norm: Vec3<S>, math: &M) -> (reflected: Option<Vec3<S>>)
        requires
            crate::number::is_total::<S>(),
        ensures
            is_reflected(*math, self, norm, reflected),
    {
        let unit = norm.normalized(math);
        match unit {
            None => None,
            Some(u) => {
                let two = S::from(2u32);
                let dot = self.dot(u);
                let twice = two * dot;
                let back = u.scaled(twice);
                let mirrored = self.minus(back);
                assert(crate::number::is_product(two, dot, twice) && is_scaled(u, twice, back));
                assert(is_mirrored(self, u, mirrored));
                Some(mirrored)
            },
        }
    }

    /// The cross product with another vector.
    pub fn cross(self, other: Vec3<S>) -> (cross: Vec3<S>)
        requires
            crate::number::is_total::<S>(),
        ensures
            is_cross(self, other, cross),
    {
        Vec3 {
            x: cross_term(self.y, other.z, self.z, other.y),
            y: cross_term(self.z, other.x, self.x, other.z),
            z: cross_term(self.x, other.y, self.y, other.x),
        }
    }

    /// The ray refracted by Snell's law through a surface with the normal
    /// `norm`, where `eta` is the relative index of refraction; the zero
    /// vector on total internal reflection.
    pub fn refract<M: Math<S>>(self, norm: Vec3<S>, eta: S, math: &M) -> (refracted: Vec3<S>)
        requires
            crate::number::is_total::<S>(),
        ensures
            is_refracted(*math, self, norm, eta, refracted),
    {
        let dot = self.dot(norm);
        let k = discriminant(dot, eta);
        let zero = S::from(0u32);
        let negative = k.lt(&zero);
        assert(is_discriminant(dot, eta, k) && crate::number::is_less(k, zero, negative));
        if negative {
            Vec3::whole(0, 0, 0)
        } else {
            let along = self.scaled(eta);
            let part = eta * dot;
            let root = math.sqrt(k);
            let depth = part + root;
            let across = norm.scaled(depth);
            let bent = along.minus(across);
            assert(is_scaled(self, eta, along) && crate::number::is_product(eta, dot, part)
                && crate::number::is_sum(part, root, depth) && is_scaled(norm, depth, across));
            assert(crate::number::is_square_root(*math, k, root));
            assert(is_bent(*math, self, norm, eta, dot, k, bent));
            bent
        }
    }

    /// The point between this vector and `other` at the share `t`.
    pub fn lerp(self, other: Vec3<S>, t: S) -> (mix: Vec3<S>)
        requires
            crate::number::is_total::<S>(),
        ensures
            is_lerp(self, other, t, mix),
    {
        let way = other.minus(self);
        let part = way.scaled(t);
        let mix = self.plus(part);
        assert(is_vec_difference(other, self, way) && is_scaled(way, t, part));
        mix
    }
}

/// `a` times `b` minus `c` times `d`.
fn cross_term<S: Number>(a: S, b: S, c: S, d: S) -> (r: S)
    requires
        crate::number::is_total::<S>(),
    ensures
        is_cross_term(a, b, c, d, r),
{
    let ab = a * b;
    let cd = c * d;
    let r = ab - cd;
    assert(crate::number::is_difference(ab, cd, r));
    r
}

/// One minus the square of `eta` times one minus the square of `dot`.
fn discriminant<S: Number>(dot: S, eta: S) -> (k: S)
    requires
        crate::number::is_total::<S>(),
    ensures
        is_discriminant(dot, eta, k),
{
    let one = S::from(1u32);
    let eta_square = eta * eta;
    let dot_square = dot * dot;
    let rest = one - dot_square;
    let part = eta_square * rest;
    let k = one - part;
    assert(crate::number::is_product(eta, eta, eta_square) && crate::number::is_product(
        dot,
        dot,
        dot_square,
    ) && crate::number::is_difference(one, dot_square, rest) && crate::number::is_product(
        eta_square,
        rest,
        part,
    ));
    k
}

/// Two vectors have one dot product where each operation of the numbers
/// gives one result.
pub proof fn lemma_dot_is_unique<S: Number>(a: Vec3<S>, b: Vec3<S>, p: S, q: S)
    requires
        is_dot(a, b, p),
        is_dot(a, b, q),
        crate::number::is_exact::<S>(),
    ensures
        p == q,
{
    let (xx, yy, zz, xy) = choose|xx: S, yy: S, zz: S, xy: S|
        #![trigger crate::number::is_sum(xx, yy, xy), crate::number::is_sum(xy, zz, p)]
        crate::number::is_product(a.x, b.x, xx) && crate::number::is_product(a.y, b.y, yy)
            && crate::number::is_product(a.z, b.z, zz) && crate::number::is_sum(xx, yy, xy)
            && crate::number::is_sum(xy, zz, p);
    let (xx2, yy2, zz2, xy2) = choose|xx: S, yy: S, zz: S, xy: S|
        #![trigger crate::number::is_sum(xx, yy, xy), crate::number::is_sum(xy, zz, q)]
        crate::number::is_product(a.x, b.x, xx) && crate::number::is_product(a.y, b.y, yy)
            && crate::number::is_product(a.z, b.z, zz) && crate::number::is_sum(xx, yy, xy)
            && crate::number::is_sum(xy, zz, q);
    assert(xx == xx2 && yy == yy2 && zz == zz2);
    assert(xy == xy2);
}

/// A cross term has one value where each operation of the numbers gives one
/// result.
pub proof fn lemma_cross_term_is_unique<S: Number>(a: S, b: S, c: S, d: S, p: S, q: S)
    requires
        is_cross_term(a, b, c, d, p),
        is_cross_term(a, b, c, d, q),
        crate::number::is_exact::<S>(),
    ensures
        p == q,
{
    let (ab, cd) = choose|ab: S, cd: S|
        #![trigger crate::number::is_difference(ab, cd, p)]
        crate::number::is_product(a, b, ab) && crate::number::is_product(c, d, cd)
            && crate::number::is_difference(ab, cd, p);
    let (ab2, cd2) = choose|ab: S, cd: S|
        #![trigger crate::number::is_difference(ab, cd, q)]
        crate::number::is_product(a, b, ab) && crate::number::is_product(c, d, cd)
            && crate::number::is_difference(ab, cd, q);
    assert(ab == ab2 && cd == cd2);
}

/// Two vectors have one cross product where each operation of the numbers
/// gives one result.
pub proof fn lemma_cross_is_unique<S: Number>(a: Vec3<S>, b: Vec3<S>, p: Vec3<S>, q: Vec3<S>)
    requires
        is_cross(a, b, p),
        is_cross(a, b, q),
        crate::number::is_exact::<S>(),
    ensures
        p == q,
{
    lemma_cross_term_is_unique(a.y, b.z, a.z, b.y, p.x, q.x);
    lemma_cross_term_is_unique(a.z, b.x, a.x, b.z, p.y, q.y);
    lemma_cross_term_is_unique(a.x, b.y, a.y, b.x, p.z, q.z);
}

/// A vector has one magnitude where each operation of the numbers and of
/// `math` gives one result.
pub proof fn lemma_magnitude_is_unique<S: Number, M: Math<S>>(math: M, v: Vec3<S>, p: S, q: S)
    requires
        is_magnitude(math, v, p),
        is_magnitude(math, v, q),
        crate::number::is_exact::<S>(),
        crate::number::is_exact_math(math),
    ensures
        p == q,
{
    let a = choose|square: S|
        is_dot(v, v, square) && #[trigger] crate::number::is_square_root(math, square, p);
    let b = choose|square: S|
        is_dot(v, v, square) && #[trigger] crate::number::is_square_root(math, square, q);
    lemma_dot_is_unique(v, v, a, b);
}

/// A vector has one vector of magnitude one, or none, where each operation
/// of the numbers and of `math` gives one result.
pub proof fn lemma_normalized_is_unique<S: Number, M: Math<S>>(
    math: M,
    v: Vec3<S>,
    p: Option<Vec3<S>>,
    q: Option<Vec3<S>>,
)
    requires
        is_normalized(math, v, p),
        is_normalized(math, v, q),
        crate::number::is_exact::<S>(),
        crate::number::is_exact_math(math),
    ensures
        p == q,
{
    let (ma, fa) = choose|magnitude: S, factor: Option<S>|
        #![trigger is_magnitude(math, v, magnitude), crate::number::is_inverse(magnitude, factor)]
        is_magnitude(math, v, magnitude) && crate::number::is_inverse(magnitude, factor)
            && match factor {
            None => p is None,
            Some(k) => p is Some && is_scaled(v, k, p->0),
        };
    let (mb, fb) = choose|magnitude: S, factor: Option<S>|
        #![trigger is_magnitude(math, v, magnitude), crate::number::is_inverse(magnitude, factor)]
        is_magnitude(math, v, magnitude) && crate::number::is_inverse(magnitude, factor)
            && match factor {
            None => q is None,
            Some(k) => q is Some && is_scaled(v, k, q->0),
        };
    lemma_magnitude_is_unique(math, v, ma, mb);
    crate::number::lemma_inverse_is_unique(ma, fa, fb);
    if fa is Some {
        assert(p->0.x == q->0.x && p->0.y == q->0.y && p->0.z == q->0.z);
    }
}

/// A vector has one mirror image about a unit vector where each operation
/// of the numbers gives one result.
pub proof fn lemma_mirrored_is_unique<S: Number>(v: Vec3<S>, unit: Vec3<S>, p: Vec3<S>, q: Vec3<S>)
    requires
        is_mirrored(v, unit, p),
        is_mirrored(v, unit, q),
        crate::number::is_exact::<S>(),
    ensures
        p == q,
{
    let (two, dot, twice, back) = choose|two: S, dot: S, twice: S, back: Vec3<S>|
        #![trigger crate::number::is_product(two, dot, twice), is_scaled(unit, twice, back)]
        crate::number::is_whole(2, two) && is_dot(v, unit, dot) && crate::number::is_product(
            two,
            dot,
            twice,
        ) && is_scaled(unit, twice, back) && is_vec_difference(v, back, p);
    let (two2, dot2, twice2, back2) = choose|two: S, dot: S, twice: S, back: Vec3<S>|
        #![trigger crate::number::is_product(two, dot, twice), is_scaled(unit, twice, back)]
        crate::number::is_whole(2, two) && is_dot(v, unit, dot) && crate::number::is_product(
            two,
            dot,
            twice,
        ) && is_scaled(unit, twice, back) && is_vec_difference(v, back, q);
    lemma_dot_is_unique(v, unit, dot, dot2);
    assert(two == two2);
    assert(twice == twice2);
    assert(back.x == back2.x && back.y == back2.y && back.z == back2.z);
    assert(p.x == q.x && p.y == q.y && p.z == q.z);
}

/// A vector has one reflection about a normal, or none, where each
/// operation of the numbers and of `math` gives one result.
pub proof fn lemma_reflected_is_unique<S: Number, M: Math<S>>(
    math: M,
    v: Vec3<S>,
    norm: Vec3<S>,
    p: Option<Vec3<S>>,
    q: Option<Vec3<S>>,
)
    requires
        is_reflected(math, v, norm, p),
        is_reflected(math, v, norm, q),
        crate::number::is_exact::<S>(),
        crate::number::is_exact_math(math),
    ensures
        p == q,
{
    let ua = choose|unit: Option<Vec3<S>>| #[trigger]
        is_normalized(math, norm, unit) && match unit {
            None => p is None,
            Some(u) => p is Some && is_mirrored(v, u, p->0),
        };
    let ub = choose|unit: Option<Vec3<S>>| #[trigger]
        is_normalized(math, norm, unit) && match unit {
            None => q is None,
            Some(u) => q is Some && is_mirrored(v, u, q->0),
        };
    lemma_normalized_is_unique(math, norm, ua, ub);
    if ua is Some {
        lemma_mirrored_is_unique(v, ua->0, p->0, q->0);
    }
}

/// Whether the numbers reckon like whole numbers under `val`: the value of
/// a sum is the sum of the values, and so for a difference and a product.
pub open spec fn reckons_like_whole_numbers<S: Number>(val: spec_fn(S) -> int) -> bool {
    &&& forall|a: S, b: S, r: S| #[trigger] crate::number::is_sum(a, b, r) ==> val(r) == val(a) + val(b)
    &&& forall|a: S, b: S, r: S| #[trigger]
        crate::number::is_difference(a, b, r) ==> val(r) == val(a) - val(b)
    &&& forall|a: S, b: S, r: S| #[trigger]
        crate::number::is_product(a, b, r) ==> val(r) == val(a) * val(b)
}

/// The value of a dot product, for numbers that reckon like whole numbers.
proof fn lemma_value_of_dot<S: Number>(val: spec_fn(S) -> int, a: Vec3<S>, b: Vec3<S>, dot: S)
    requires
        reckons_like_whole_numbers(val),
        is_dot(a, b, dot),
    ensures
        val(dot) == val(a.x) * val(b.x) + val(a.y) * val(b.y) + val(a.z) * val(b.z),
{
    let (xx, yy, zz, xy) = choose|xx: S, yy: S, zz: S, xy: S|
        #![trigger crate::number::is_sum(xx, yy, xy), crate::number::is_sum(xy, zz, dot)]
        crate::number::is_product(a.x, b.x, xx) && crate::number::is_product(a.y, b.y, yy)
            && crate::number::is_product(a.z, b.z, zz) && crate::number::is_sum(xx, yy, xy)
            && crate::number::is_sum(xy, zz, dot);
}

/// The value of a cross term, for numbers that reckon like whole numbers.
proof fn lemma_value_of_cross_term<S: Number>(val: spec_fn(S) -> int, a: S, b: S, c: S, d: S, r: S)
    requires
        reckons_like_whole_numbers(val),
        is_cross_term(a, b, c, d, r),
    ensures
        val(r) == val(a) * val(b) - val(c) * val(d),
{
    let (ab, cd) = choose|ab: S, cd: S|
        #![trigger crate::number::is_difference(ab, cd, r)]
        crate::number::is_product(a, b, ab) && crate::number::is_product(c, d, cd)
            && crate::number::is_difference(ab, cd, r);
}

/// The cross product of two vectors stands at right angles to both: its dot
/// product with either has the value zero, for numbers that reckon like
/// whole numbers.
pub proof fn lemma_cross_is_at_right_angles<S: Number>(
    val: spec_fn(S) -> int,
    a: Vec3<S>,
    b: Vec3<S>,
    cross: Vec3<S>,
    along_a: S,
    along_b: S,
)
    requires
        reckons_like_whole_numbers(val),
        is_cross(a, b, cross),
        is_dot(cross, a, along_a),
        is_dot(cross, b, along_b),
    ensures
        val(along_a) == 0,
        val(along_b) == 0,
{
    lemma_value_of_cross_term(val, a.y, b.z, a.z, b.y, cross.x);
    lemma_value_of_cross_term(val, a.z, b.x, a.x, b.z, cross.y);
    lemma_value_of_cross_term(val, a.x, b.y, a.y, b.x, cross.z);
    lemma_value_of_dot(val, cross, a, along_a);
    lemma_value_of_dot(val, cross, b, along_b);
    let ax = val(a.x);
    let ay = val(a.y);
    let az = val(a.z);
    let bx = val(b.x);
    let by = val(b.y);
    let bz = val(b.z);
    assert((ay * bz - az * by) * ax + (az * bx - ax * bz) * ay + (ax * by - ay * bx) * az == 0)
        by (nonlinear_arith);
    assert((ay * bz - az * by) * bx + (az * bx - ax * bz) * by + (ax * by - ay * bx) * bz == 0)
        by (nonlinear_arith);
}

} // verus!
