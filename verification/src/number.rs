//! The numbers of a renderer.
//!
//! The renderer works on whatever type offers the operations below. Nothing
//! is supposed of them but what they themselves promise: each predicate here
//! says that a value is one that an operation can give for given operands.
//! Where an operation gives one result only, that pins the value.

use std::ops::{Add, Div, Mul, Neg, Rem, Sub};
use vstd::prelude::*;

verus! {

/// A type of numbers: it can be copied and compared, made of a whole number,
/// negated, added, subtracted, multiplied and divided, and it has a
/// remainder.
pub trait Number: Copy + PartialOrd + From<u32> + Neg<Output = Self> + Add<
    Self,
    Output = Self,
> + Sub<Self, Output = Self> + Mul<Self, Output = Self> + Div<Self, Output = Self> + Rem<
    Self,
    Output = Self,
> {

}

impl<S> Number for S where
    S: Copy + PartialOrd + From<u32> + Neg<Output = S> + Add<S, Output = S> + Sub<
        S,
        Output = S,
    > + Mul<S, Output = S> + Div<S, Output = S> + Rem<S, Output = S>,
 {
}

/// What the renderer needs of its numbers beyond the operators: a square
/// root, a logarithm and a power, a number for a count, and a byte for a
/// number. A value of a type that knows them is handed to whatever needs
/// them; it need hold nothing.
pub trait Math<S> {
    /// The square root of `x`.
    fn sqrt(&self, x: S) -> S;

    /// The natural logarithm of `x`.
    fn ln(&self, x: S) -> S;

    /// `x` to the power of `exponent`.
    fn powf(&self, x: S, exponent: S) -> S;

    /// The number that stands for the count `n`.
    fn from_usize(&self, n: usize) -> S;

    /// `x` cut to a whole number that fits a byte.
    fn to_byte(&self, x: S) -> u8;
}

/// Whether `s` is a number that `S` can make of the whole number `n`.
pub open spec fn is_whole<S: Number>(n: u32, s: S) -> bool {
    call_ensures(<S as From<u32>>::from, (n,), s)
}

/// Whether `opposite` is a value that negation can give for `a`.
pub open spec fn is_opposite<S: Number>(a: S, opposite: S) -> bool {
    call_ensures(<S as Neg>::neg, (a,), opposite)
}

/// Whether `sum` is a value that addition can give for `a` and `b`.
pub open spec fn is_sum<S: Number>(a: S, b: S, sum: S) -> bool {
    call_ensures(<S as Add<S>>::add, (a, b), sum)
}

/// Whether `difference` is a value that subtraction can give for `a` and
/// `b`.
pub open spec fn is_difference<S: Number>(a: S, b: S, difference: S) -> bool {
    call_ensures(<S as Sub<S>>::sub, (a, b), difference)
}

/// Whether `product` is a value that multiplication can give for `a` and
/// `b`.
pub open spec fn is_product<S: Number>(a: S, b: S, product: S) -> bool {
    call_ensures(<S as Mul<S>>::mul, (a, b), product)
}

/// Whether `quotient` is a value that division can give for `a` and `b`.
pub open spec fn is_quotient<S: Number>(a: S, b: S, quotient: S) -> bool {
    call_ensures(<S as Div<S>>::div, (a, b), quotient)
}

/// Whether `remainder` is a value that the remainder can have for `a` and
/// `b`.
pub open spec fn is_remainder<S: Number>(a: S, b: S, remainder: S) -> bool {
    call_ensures(<S as Rem<S>>::rem, (a, b), remainder)
}

/// Whether `answer` is what the comparison can give to the question whether
/// `a` is less than `b`.
pub open spec fn is_less<S: Number>(a: S, b: S, answer: bool) -> bool {
    call_ensures(<S as PartialOrd>::lt, (&a, &b), answer)
}

/// Whether `answer` is what the comparison can give to the question whether
/// `a` is greater than `b`.
pub open spec fn is_greater<S: Number>(a: S, b: S, answer: bool) -> bool {
    call_ensures(<S as PartialOrd>::gt, (&a, &b), answer)
}

/// Whether `answer` is what the comparison can give to the question whether
/// `a` is equal to `b`.
pub open spec fn is_equal<S: Number>(a: S, b: S, answer: bool) -> bool {
    call_ensures(<S as PartialEq>::eq, (&a, &b), answer)
}

/// Whether `root` is a value that `math` can give for the square root of
/// `x`.
pub open spec fn is_square_root<S, M: Math<S>>(math: M, x: S, root: S) -> bool {
    call_ensures(<M as Math<S>>::sqrt, (&math, x), root)
}

/// Whether `logarithm` is a value that `math` can give for the logarithm of
/// `x`.
pub open spec fn is_logarithm<S, M: Math<S>>(math: M, x: S, logarithm: S) -> bool {
    call_ensures(<M as Math<S>>::ln, (&math, x), logarithm)
}

/// Whether `power` is a value that `math` can give for `x` to the power of
/// `exponent`.
pub open spec fn is_power<S, M: Math<S>>(math: M, x: S, exponent: S, power: S) -> bool {
    call_ensures(<M as Math<S>>::powf, (&math, x, exponent), power)
}

/// Whether `s` is a number that `math` can give for the count `n`.
pub open spec fn is_count<S, M: Math<S>>(math: M, n: usize, s: S) -> bool {
    call_ensures(<M as Math<S>>::from_usize, (&math, n), s)
}

/// Whether `byte` is a byte that `math` can give for `x`.
pub open spec fn is_byte<S, M: Math<S>>(math: M, x: S, byte: u8) -> bool {
    call_ensures(<M as Math<S>>::to_byte, (&math, x), byte)
}

/// Whether the operators of the numbers accept every operand: none of them
/// ever fails.
pub open spec fn is_total<S: Number>() -> bool {
    &&& forall|a: S| #[trigger] call_requires(<S as Neg>::neg, (a,))
    &&& forall|a: S, b: S| #[trigger] call_requires(<S as Add<S>>::add, (a, b))
    &&& forall|a: S, b: S| #[trigger] call_requires(<S as Sub<S>>::sub, (a, b))
    &&& forall|a: S, b: S| #[trigger] call_requires(<S as Mul<S>>::mul, (a, b))
    &&& forall|a: S, b: S| #[trigger] call_requires(<S as Div<S>>::div, (a, b))
    &&& forall|a: S, b: S| #[trigger] call_requires(<S as Rem<S>>::rem, (a, b))
}

/// Whether each operation of the numbers gives one result for given
/// operands.
pub open spec fn is_exact<S: Number>() -> bool {
    &&& forall|n: u32, p: S, q: S| is_whole(n, p) && is_whole(n, q) ==> p == q
    &&& forall|a: S, p: S, q: S| is_opposite(a, p) && is_opposite(a, q) ==> p == q
    &&& forall|a: S, b: S, p: S, q: S| is_sum(a, b, p) && is_sum(a, b, q) ==> p == q
    &&& forall|a: S, b: S, p: S, q: S| is_difference(a, b, p) && is_difference(a, b, q) ==> p == q
    &&& forall|a: S, b: S, p: S, q: S| is_product(a, b, p) && is_product(a, b, q) ==> p == q
    &&& forall|a: S, b: S, p: S, q: S| is_quotient(a, b, p) && is_quotient(a, b, q) ==> p == q
    &&& forall|a: S, b: S, p: S, q: S| is_remainder(a, b, p) && is_remainder(a, b, q) ==> p == q
    &&& forall|a: S, b: S, p: bool, q: bool| is_less(a, b, p) && is_less(a, b, q) ==> p == q
    &&& forall|a: S, b: S, p: bool, q: bool| is_greater(a, b, p) && is_greater(a, b, q) ==> p == q
    &&& forall|a: S, b: S, p: bool, q: bool| is_equal(a, b, p) && is_equal(a, b, q) ==> p == q
}

/// Whether one and zero do among the numbers what they are named for: each
/// is one number only, one times a number is the number, zero times a number
/// is zero, and adding or subtracting zero changes nothing.
pub open spec fn has_one_and_zero<S: Number>() -> bool {
    &&& forall|a: S, b: S| is_whole(0, a) && is_whole(0, b) ==> a == b
    &&& forall|a: S, b: S| is_whole(1, a) && is_whole(1, b) ==> a == b
    &&& forall|one: S, a: S, r: S| is_whole(1, one) && #[trigger] is_product(one, a, r) ==> r == a
    &&& forall|one: S, a: S, r: S| is_whole(1, one) && #[trigger] is_product(a, one, r) ==> r == a
    &&& forall|zero: S, a: S, r: S|
        is_whole(0, zero) && #[trigger] is_product(zero, a, r) ==> r == zero
    &&& forall|zero: S, a: S, r: S|
        is_whole(0, zero) && #[trigger] is_product(a, zero, r) ==> r == zero
    &&& forall|zero: S, a: S, r: S| is_whole(0, zero) && #[trigger] is_sum(zero, a, r) ==> r == a
    &&& forall|zero: S, a: S, r: S| is_whole(0, zero) && #[trigger] is_sum(a, zero, r) ==> r == a
    &&& forall|zero: S, a: S, r: S|
        is_whole(0, zero) && #[trigger] is_difference(a, zero, r) ==> r == a
}

/// Whether each function of `math` gives one result for given operands.
pub open spec fn is_exact_math<S, M: Math<S>>(math: M) -> bool {
    &&& forall|x: S, p: S, q: S| is_square_root(math, x, p) && is_square_root(math, x, q) ==> p == q
    &&& forall|x: S, p: S, q: S| is_logarithm(math, x, p) && is_logarithm(math, x, q) ==> p == q
    &&& forall|x: S, e: S, p: S, q: S| is_power(math, x, e, p) && is_power(math, x, e, q) ==> p == q
    &&& forall|n: usize, p: S, q: S| is_count(math, n, p) && is_count(math, n, q) ==> p == q
    &&& forall|x: S, p: u8, q: u8| is_byte(math, x, p) && is_byte(math, x, q) ==> p == q
}

/// Whether `s` is a number that the numbers can give for the whole number
/// `n`, which may be negative: what `S` can make of `n` where `n` is not
/// negative, else the opposite of what it can make of `-n`.
pub open spec fn is_signed<S: Number>(n: i32, s: S) -> bool {
    if n < 0 {
        exists|positive: S| is_whole((-n) as u32, positive) && #[trigger] is_opposite(positive, s)
    } else {
        is_whole(n as u32, s)
    }
}

/// The number for the whole number `n`, which may be negative.
pub fn signed<S: Number>(n: i32) -> (s: S)
    requires
        is_total::<S>(),
    ensures
        is_signed(n, s),
{
    if n < 0 {
        let magnitude: u32 = ((-(n + 1)) as u32) + 1;
        let positive = S::from(magnitude);
        let s = positive.neg();
        assert(is_whole((-n) as u32, positive) && is_opposite(positive, s));
        s
    } else {
        S::from(n as u32)
    }
}

/// Whether `ratio` is a value that the numbers can give for the whole number
/// `n` over the whole number `d`, each made a number first.
pub open spec fn is_ratio<S: Number>(n: u32, d: u32, ratio: S) -> bool {
    exists|a: S, b: S| is_whole(n, a) && is_whole(d, b) && #[trigger] is_quotient(a, b, ratio)
}

/// The whole number `n` over the whole number `d`, each made a number first.
pub fn ratio<S: Number>(n: u32, d: u32) -> (ratio: S)
    requires
        is_total::<S>(),
    ensures
        is_ratio(n, d, ratio),
{
    let a = S::from(n);
    let b = S::from(d);
    let ratio = a / b;
    assert(is_quotient(a, b, ratio));
    ratio
}

/// Whether `answer` is what the numbers can give to the question whether the
/// magnitude of `x` is greater than `bound`: whether `x` or its opposite is
/// greater than `bound`.
pub open spec fn is_beyond<S: Number>(x: S, bound: S, answer: bool) -> bool {
    exists|over: bool, opposite: S, under: bool|
        #![trigger is_greater(x, bound, over), is_greater(opposite, bound, under)]
        is_greater(x, bound, over) && is_opposite(x, opposite) && is_greater(
            opposite,
            bound,
            under,
        ) && answer == (over || under)
}

/// Whether the magnitude of `x` is greater than `bound`.
pub fn beyond<S: Number>(x: S, bound: S) -> (answer: bool)
    requires
        is_total::<S>(),
    ensures
        is_beyond(x, bound, answer),
{
    let over = x.gt(&bound);
    let opposite = x.neg();
    let under = opposite.gt(&bound);
    assert(is_greater(x, bound, over) && is_greater(opposite, bound, under));
    over || under
}

/// Whether `inverse` is what the numbers can give for one over `a`: nothing
/// where they find `a` equal to zero, else a value of one over `a`.
pub open spec fn is_inverse<S: Number>(a: S, inverse: Option<S>) -> bool {
    exists|zero: S, none: bool|
        #![trigger is_equal(a, zero, none)]
        is_whole(0, zero) && is_equal(a, zero, none) && if none {
            inverse is None
        } else {
            exists|one: S, quotient: S|
                is_whole(1, one) && #[trigger] is_quotient(one, a, quotient) && inverse == Some(
                    quotient,
                )
        }
}

/// One over `a`, or `None` where `a` is zero.
pub fn inverse<S: Number>(a: S) -> (inverse: Option<S>)
    requires
        is_total::<S>(),
    ensures
        is_inverse(a, inverse),
{
    let zero = S::from(0u32);
    let none = a.eq(&zero);
    assert(is_equal(a, zero, none));
    if none {
        None
    } else {
        let one = S::from(1u32);
        let quotient = one / a;
        assert(is_quotient(one, a, quotient));
        Some(quotient)
    }
}

/// A whole number has one number where each operation of the numbers gives
/// one result.
pub proof fn lemma_signed_is_unique<S: Number>(n: i32, p: S, q: S)
    requires
        is_signed(n, p),
        is_signed(n, q),
        is_exact::<S>(),
    ensures
        p == q,
{
    if n < 0 {
        let a = choose|positive: S| is_whole((-n) as u32, positive) && #[trigger] is_opposite(positive, p);
        let b = choose|positive: S| is_whole((-n) as u32, positive) && #[trigger] is_opposite(positive, q);
        assert(a == b);
    }
}

/// A ratio has one value where each operation of the numbers gives one
/// result.
pub proof fn lemma_ratio_is_unique<S: Number>(n: u32, d: u32, p: S, q: S)
    requires
        is_ratio(n, d, p),
        is_ratio(n, d, q),
        is_exact::<S>(),
    ensures
        p == q,
{
    let (a, b) = choose|a: S, b: S| is_whole(n, a) && is_whole(d, b) && #[trigger] is_quotient(a, b, p);
    let (c, e) = choose|a: S, b: S| is_whole(n, a) && is_whole(d, b) && #[trigger] is_quotient(a, b, q);
    assert(a == c && b == e);
}

/// The question whether a magnitude is greater than a bound has one answer
/// where each operation of the numbers gives one result.
pub proof fn lemma_beyond_is_unique<S: Number>(x: S, bound: S, p: bool, q: bool)
    requires
        is_beyond(x, bound, p),
        is_beyond(x, bound, q),
        is_exact::<S>(),
    ensures
        p == q,
{
    let (over_p, opposite_p, under_p) = choose|over: bool, opposite: S, under: bool|
        #![trigger is_greater(x, bound, over), is_greater(opposite, bound, under)]
        is_greater(x, bound, over) && is_opposite(x, opposite) && is_greater(
            opposite,
            bound,
            under,
        ) && p == (over || under);
    let (over_q, opposite_q, under_q) = choose|over: bool, opposite: S, under: bool|
        #![trigger is_greater(x, bound, over), is_greater(opposite, bound, under)]
        is_greater(x, bound, over) && is_opposite(x, opposite) && is_greater(
            opposite,
            bound,
            under,
        ) && q == (over || under);
    assert(over_p == over_q);
    assert(opposite_p == opposite_q);
    assert(under_p == under_q);
}

/// A number has one inverse where each operation of the numbers gives one
/// result.
pub proof fn lemma_inverse_is_unique<S: Number>(a: S, p: Option<S>, q: Option<S>)
    requires
        is_inverse(a, p),
        is_inverse(a, q),
        is_exact::<S>(),
    ensures
        p == q,
{
    let (zero_p, none_p) = choose|zero: S, none: bool|
        #![trigger is_equal(a, zero, none)]
        is_whole(0, zero) && is_equal(a, zero, none) && if none {
            p is None
        } else {
            exists|one: S, quotient: S|
                is_whole(1, one) && #[trigger] is_quotient(one, a, quotient) && p == Some(quotient)
        };
    let (zero_q, none_q) = choose|zero: S, none: bool|
        #![trigger is_equal(a, zero, none)]
        is_whole(0, zero) && is_equal(a, zero, none) && if none {
            q is None
        } else {
            exists|one: S, quotient: S|
                is_whole(1, one) && #[trigger] is_quotient(one, a, quotient) && q == Some(quotient)
        };
    assert(zero_p == zero_q);
    assert(none_p == none_q);
    if !none_p {
        let (one_p, quotient_p) = choose|one: S, quotient: S|
            is_whole(1, one) && #[trigger] is_quotient(one, a, quotient) && p == Some(quotient);
        let (one_q, quotient_q) = choose|one: S, quotient: S|
            is_whole(1, one) && #[trigger] is_quotient(one, a, quotient) && q == Some(quotient);
        assert(one_p == one_q);
        assert(quotient_p == quotient_q);
    }
}

} // verus!
