//! What a value must offer to be used as a pixel colour.

use crate::number::Number;
use crate::vec3::Vec3;
use std::ops::{Add, Mul};
use vstd::prelude::*;

verus! {

/// A pixel colour over numbers of type `S`.
///
/// A colour has a zero (its `Default`), two colours add up to a colour, a
/// colour times a number is a colour, and one colour is named white. Shading
/// needs no more than that, so the same shading serves a grey level and a
/// red-green-blue triple alike.
pub trait Color<S>: Default + Copy + Add<Self, Output = Self> + Mul<S, Output = Self> {
    /// The colour of full intensity.
    fn white() -> Self;
}

/// A bare number is a grey level, and its white is the number one.
impl<S> Color<S> for S where S: Number + Default {
    fn white() -> (w: S)
        ensures
            crate::number::is_whole(1, w),
    {
        S::from(1u32)
    }
}

/// A vector is a colour of three channels, and its white is one in each.
impl<S: Number> Color<S> for Vec3<S> {
    fn white() -> (w: Vec3<S>)
        ensures
            crate::number::is_whole(1, w.x),
            crate::number::is_whole(1, w.y),
            crate::number::is_whole(1, w.z),
    {
        Vec3 { x: S::from(1u32), y: S::from(1u32), z: S::from(1u32) }
    }
}

/// Whether `zero` is a value that the colour's `default` can give.
pub open spec fn is_zero<S, C: Color<S>>(zero: C) -> bool {
    call_ensures(<C as Default>::default, (), zero)
}

/// Whether `white` is a value that the colour's `white` can give.
pub open spec fn is_white<S, C: Color<S>>(white: C) -> bool {
    call_ensures(<C as Color<S>>::white, (), white)
}

/// Whether `sum` is a value that the colour's addition can give for `a` and
/// `b`.
pub open spec fn adds_to<S, C: Color<S>>(a: C, b: C, sum: C) -> bool {
    call_ensures(<C as Add<C>>::add, (a, b), sum)
}

/// Whether `product` is a value that the colour's multiplication can give for
/// `a` and the number `k`.
pub open spec fn scales_to<S, C: Color<S>>(a: C, k: S, product: C) -> bool {
    call_ensures(<C as Mul<S>>::mul, (a, k), product)
}

/// Whether the operators of the colour accept every operand: none of them
/// ever fails.
pub open spec fn is_total<S, C: Color<S>>() -> bool {
    &&& forall|a: C, b: C| #[trigger] call_requires(<C as Add<C>>::add, (a, b))
    &&& forall|a: C, k: S| #[trigger] call_requires(<C as Mul<S>>::mul, (a, k))
}

/// Whether the colour's zero, addition and multiplication each give one
/// result for given operands.
pub open spec fn is_exact<S, C: Color<S>>() -> bool {
    &&& forall|a: C, b: C| is_zero::<S, C>(a) && is_zero::<S, C>(b) ==> a == b
    &&& forall|a: C, b: C, p: C, q: C|
        adds_to::<S, C>(a, b, p) && adds_to::<S, C>(a, b, q) ==> p == q
    &&& forall|a: C, k: S, p: C, q: C| scales_to(a, k, p) && scales_to(a, k, q) ==> p == q
}

} // verus!
