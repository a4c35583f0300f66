//! Objects that have a distance field.

use crate::color::Color;
use crate::number::{ratio, Math, Number};
use crate::vec3::Vec3;
use vstd::prelude::*;

verus! {

/// The step of the central differences that find a normal is one part in
/// this many: one ten-millionth.
pub const NORMAL_EPSILON_PARTS: u32 = 10_000_000;

/// The period with which a [`Sphere`] is repeated along the x axis.
pub const SPHERE_PERIOD: u32 = 5;

/// The central differences of a distance field at a point: the step, the
/// coordinates one step up and one step down each axis, the distances that
/// were found there, and the gradient that they give.
pub struct Differences<S> {
    /// The step.
    pub epsilon: S,
    /// The x coordinate one step up.
    pub right: S,
    /// The x coordinate one step down.
    pub left: S,
    /// The y coordinate one step up.
    pub up: S,
    /// The y coordinate one step down.
    pub down: S,
    /// The z coordinate one step up.
    pub fore: S,
    /// The z coordinate one step down.
    pub back: S,
    /// The distance one step up the x axis.
    pub at_right: S,
    /// The distance one step down the x axis.
    pub at_left: S,
    /// The distance one step up the y axis.
    pub at_up: S,
    /// The distance one step down the y axis.
    pub at_down: S,
    /// The distance one step up the z axis.
    pub at_fore: S,
    /// The distance one step down the z axis.
    pub at_back: S,
    /// The gradient: for each axis the distance one step up minus the
    /// distance one step down.
    pub gradient: Vec3<S>,
}

/// Whether `d` holds what the numbers can give for the central differences
/// at `p`, whatever the distances are: a step of one over
/// [`NORMAL_EPSILON_PARTS`], each coordinate of `p` plus and minus the step,
/// and the gradient of the distances.
pub open spec fn is_differences<S: Number>(p: Vec3<S>, d: Differences<S>) -> bool {
    &&& crate::number::is_ratio(1, NORMAL_EPSILON_PARTS, d.epsilon)
    &&& crate::number::is_sum(p.x, d.epsilon, d.right)
    &&& crate::number::is_difference(p.x, d.epsilon, d.left)
    &&& crate::number::is_sum(p.y, d.epsilon, d.up)
    &&& crate::number::is_difference(p.y, d.epsilon, d.down)
    &&& crate::number::is_sum(p.z, d.epsilon, d.fore)
    &&& crate::number::is_difference(p.z, d.epsilon, d.back)
    &&& crate::number::is_difference(d.at_right, d.at_left, d.gradient.x)
    &&& crate::number::is_difference(d.at_up, d.at_down, d.gradient.y)
    &&& crate::number::is_difference(d.at_fore, d.at_back, d.gradient.z)
}

/// Something that has a distance field and a colour, and so can be rendered.
pub trait SceneObject<S: Number, M: Math<S>, C>: Sized {
    /// The distance from `point` to the nearest surface of the object, or an
    /// estimate of it from below. `t` is the varied parameter of an
    /// animation.
    fn distance_to(&self, math: &M, point: Vec3<S>, t: S) -> S
        requires
            crate::number::is_total::<S>(),
    ;

    /// The colour of the object.
    fn get_color(&self, math: &M, t: S) -> C;

    /// The normal of the surface near `p`, of magnitude one, or `None`
    /// where the object has no normal there.
    ///
    /// Unless an object knows better, this is the gradient of its distance
    /// field, found by central differences and brought to a magnitude of
    /// one. The distance is evaluated six times, one step up and one step
    /// down each axis. Where the gradient has a magnitude of zero the field
    /// is flat, and there is no normal.
    fn normal(&self, math: &M, p: Vec3<S>, t: S) -> (normal: Option<Vec3<S>>)
        requires
            crate::number::is_total::<S>(),
        default_ensures
            exists|d: Differences<S>| #[trigger]
                is_differences(p, d) && call_ensures(
                    Self::distance_to,
                    (self, math, Vec3 { x: d.right, y: p.y, z: p.z }, t),
                    d.at_right,
                ) && call_ensures(
                    Self::distance_to,
                    (self, math, Vec3 { x: d.left, y: p.y, z: p.z }, t),
                    d.at_left,
                ) && call_ensures(
                    Self::distance_to,
                    (self, math, Vec3 { x: p.x, y: d.up, z: p.z }, t),
                    d.at_up,
                ) && call_ensures(
                    Self::distance_to,
                    (self, math, Vec3 { x: p.x, y: d.down, z: p.z }, t),
                    d.at_down,
                ) && call_ensures(
                    Self::distance_to,
                    (self, math, Vec3 { x: p.x, y: p.y, z: d.fore }, t),
                    d.at_fore,
                ) && call_ensures(
                    Self::distance_to,
                    (self, math, Vec3 { x: p.x, y: p.y, z: d.back }, t),
                    d.at_back,
                ) && crate::vec3::is_normalized(*math, d.gradient, normal),
    {
        let epsilon: S = ratio(1, NORMAL_EPSILON_PARTS);
        let right = p.x + epsilon;
        let at_right = self.distance_to(math, Vec3 { x: right, y: p.y, z: p.z }, t);
        let left = p.x - epsilon;
        let at_left = self.distance_to(math, Vec3 { x: left, y: p.y, z: p.z }, t);
        let up = p.y + epsilon;
        let at_up = self.distance_to(math, Vec3 { x: p.x, y: up, z: p.z }, t);
        let down = p.y - epsilon;
        let at_down = self.distance_to(math, Vec3 { x: p.x, y: down, z: p.z }, t);
        let fore = p.z + epsilon;
        let at_fore = self.distance_to(math, Vec3 { x: p.x, y: p.y, z: fore }, t);
        let back = p.z - epsilon;
        let at_back = self.distance_to(math, Vec3 { x: p.x, y: p.y, z: back }, t);

        let x = at_right - at_left;
        let y = at_up - at_down;
        let z = at_fore - at_back;
        let gradient = Vec3 { x, y, z };
        let normal = gradient.normalized(math);
        proof {
            let d = Differences {
                epsilon,
                right,
                left,
                up,
                down,
                fore,
                back,
                at_right,
                at_left,
                at_up,
                at_down,
                at_fore,
                at_back,
                gradient,
            };
            assert(is_differences(p, d) && call_ensures(
                Self::distance_to,
                (self, math, Vec3 { x: d.right, y: p.y, z: p.z }, t),
                d.at_right,
            ) && call_ensures(
                Self::distance_to,
                (self, math, Vec3 { x: d.left, y: p.y, z: p.z }, t),
                d.at_left,
            ) && call_ensures(
                Self::distance_to,
                (self, math, Vec3 { x: p.x, y: d.up, z: p.z }, t),
                d.at_up,
            ) && call_ensures(
                Self::distance_to,
                (self, math, Vec3 { x: p.x, y: d.down, z: p.z }, t),
                d.at_down,
            ) && call_ensures(
                Self::distance_to,
                (self, math, Vec3 { x: p.x, y: p.y, z: d.fore }, t),
                d.at_fore,
            ) && call_ensures(
                Self::distance_to,
                (self, math, Vec3 { x: p.x, y: p.y, z: d.back }, t),
                d.at_back,
            ) && crate::vec3::is_normalized(*math, d.gradient, normal));
        }
        normal
    }
}

/// Whether `distance` is a value that the object can give for its distance
/// from `point`.
pub open spec fn is_distance<S: Number, M: Math<S>, C, O: SceneObject<S, M, C>>(
    object: O,
    math: M,
    point: Vec3<S>,
    t: S,
    distance: S,
) -> bool {
    call_ensures(<O as SceneObject<S, M, C>>::distance_to, (&object, &math, point, t), distance)
}

/// Whether `color` is a value that the object can give for its colour.
pub open spec fn is_color_of<S: Number, M: Math<S>, C, O: SceneObject<S, M, C>>(
    object: O,
    math: M,
    t: S,
    color: C,
) -> bool {
    call_ensures(<O as SceneObject<S, M, C>>::get_color, (&object, &math, t), color)
}

/// Whether `normal` is what the object can give for its normal near `p`.
pub open spec fn is_normal<S: Number, M: Math<S>, C, O: SceneObject<S, M, C>>(
    object: O,
    math: M,
    p: Vec3<S>,
    t: S,
    normal: Option<Vec3<S>>,
) -> bool {
    call_ensures(<O as SceneObject<S, M, C>>::normal, (&object, &math, p, t), normal)
}

/// Whether the object gives one answer each for its distance, its colour
/// and its normal.
pub open spec fn is_function<S: Number, M: Math<S>, C, O: SceneObject<S, M, C>>(
    object: O,
    math: M,
) -> bool {
    &&& forall|point: Vec3<S>, t: S, a: S, b: S|
        is_distance::<S, M, C, O>(object, math, point, t, a) && is_distance::<S, M, C, O>(
            object,
            math,
            point,
            t,
            b,
        ) ==> a == b
    &&& forall|t: S, a: C, b: C|
        is_color_of::<S, M, C, O>(object, math, t, a) && is_color_of::<S, M, C, O>(
            object,
            math,
            t,
            b,
        ) ==> a == b
    &&& forall|p: Vec3<S>, t: S, a: Option<Vec3<S>>, b: Option<Vec3<S>>|
        is_normal::<S, M, C, O>(object, math, p, t, a) && is_normal::<S, M, C, O>(
            object,
            math,
            p,
            t,
            b,
        ) ==> a == b
}

/// A sphere, repeated along the x axis with a period of [`SPHERE_PERIOD`].
pub struct Sphere<S, C> {
    pub center: Vec3<S>,
    pub radius: S,
    pub color: C,
}

/// Whether `distance` is a value that can be had for the distance from
/// `point` to the sphere: the x coordinate of the point is taken modulo the
/// period, and the distance is the magnitude of the difference of that
/// point and the centre, minus the radius.
pub open spec fn is_sphere_distance<S: Number, M: Math<S>, C>(
    sphere: Sphere<S, C>,
    math: M,
    point: Vec3<S>,
    distance: S,
) -> bool {
    exists|period: S, wrapped: S, offset: Vec3<S>, magnitude: S|
        #![trigger crate::number::is_remainder(point.x, period, wrapped), crate::vec3::is_magnitude(math, offset, magnitude)]
        crate::number::is_whole(SPHERE_PERIOD, period) && crate::number::is_remainder(
            point.x,
            period,
            wrapped,
        ) && crate::vec3::is_vec_difference(
            Vec3 { x: wrapped, y: point.y, z: point.z },
            sphere.center,
            offset,
        ) && crate::vec3::is_magnitude(math, offset, magnitude) && crate::number::is_difference(
            magnitude,
            sphere.radius,
            distance,
        )
}

impl<S: Number, M: Math<S>, C: Color<S>> SceneObject<S, M, C> for Sphere<S, C> {
    fn distance_to(&self, math: &M, point: Vec3<S>, t: S) -> (distance: S)
        ensures
            is_sphere_distance(*self, *math, point, distance),
    {
        let period = S::from(SPHERE_PERIOD);
        let wrapped = point.x % period;
        let tiled = Vec3 { x: wrapped, y: point.y, z: point.z };
        let offset = tiled.minus(self.center);
        let magnitude = offset.magnitude(math);
        let distance = magnitude - self.radius;
        assert(crate::number::is_remainder(point.x, period, wrapped) && crate::vec3::is_magnitude(
            *math,
            offset,
            magnitude,
        ));
        distance
    }

    fn get_color(&self, math: &M, t: S) -> (color: C)
        ensures
            color == self.color,
    {
        self.color
    }
}

/// Whether `normal` is what can be had for the normal of the object at `p`
/// by central differences: the gradient of its distance field with a step
/// of one over [`NORMAL_EPSILON_PARTS`], brought to a magnitude of one;
/// nothing where the gradient has a magnitude of zero. This is what the
/// normal of an object is unless the object knows better.
pub open spec fn is_central_normal<S: Number, M: Math<S>, C, O: SceneObject<S, M, C>>(
    object: O,
    math: M,
    p: Vec3<S>,
    t: S,
    normal: Option<Vec3<S>>,
) -> bool {
    exists|d: Differences<S>| #[trigger]
        is_differences(p, d) && is_distance::<S, M, C, O>(
            object,
            math,
            Vec3 { x: d.right, y: p.y, z: p.z },
            t,
            d.at_right,
        ) && is_distance::<S, M, C, O>(
            object,
            math,
            Vec3 { x: d.left, y: p.y, z: p.z },
            t,
            d.at_left,
        ) && is_distance::<S, M, C, O>(
            object,
            math,
            Vec3 { x: p.x, y: d.up, z: p.z },
            t,
            d.at_up,
        ) && is_distance::<S, M, C, O>(
            object,
            math,
            Vec3 { x: p.x, y: d.down, z: p.z },
            t,
            d.at_down,
        ) && is_distance::<S, M, C, O>(
            object,
            math,
            Vec3 { x: p.x, y: p.y, z: d.fore },
            t,
            d.at_fore,
        ) && is_distance::<S, M, C, O>(
            object,
            math,
            Vec3 { x: p.x, y: p.y, z: d.back },
            t,
            d.at_back,
        ) && crate::vec3::is_normalized(math, d.gradient, normal)
}

/// Whether the object gives one answer for its distance.
pub open spec fn has_one_distance<S: Number, M: Math<S>, C, O: SceneObject<S, M, C>>(
    object: O,
    math: M,
) -> bool {
    forall|point: Vec3<S>, t: S, a: S, b: S|
        is_distance::<S, M, C, O>(object, math, point, t, a) && is_distance::<S, M, C, O>(
            object,
            math,
            point,
            t,
            b,
        ) ==> a == b
}

/// An object has one normal by central differences, or none, where it gives
/// one answer for its distance and each operation of the numbers and of
/// `math` gives one result.
pub proof fn lemma_central_normal_is_unique<S: Number, M: Math<S>, C, O: SceneObject<S, M, C>>(
    object: O,
    math: M,
    p: Vec3<S>,
    t: S,
    a: Option<Vec3<S>>,
    b: Option<Vec3<S>>,
)
    requires
        is_central_normal::<S, M, C, O>(object, math, p, t, a),
        is_central_normal::<S, M, C, O>(object, math, p, t, b),
        has_one_distance::<S, M, C, O>(object, math),
        crate::number::is_exact::<S>(),
        crate::number::is_exact_math(math),
    ensures
        a == b,
{
    let d = choose|d: Differences<S>| #[trigger]
        is_differences(p, d) && is_distance::<S, M, C, O>(
            object,
            math,
            Vec3 { x: d.right, y: p.y, z: p.z },
            t,
            d.at_right,
        ) && is_distance::<S, M, C, O>(
            object,
            math,
            Vec3 { x: d.left, y: p.y, z: p.z },
            t,
            d.at_left,
        ) && is_distance::<S, M, C, O>(
            object,
            math,
            Vec3 { x: p.x, y: d.up, z: p.z },
            t,
            d.at_up,
        ) && is_distance::<S, M, C, O>(
            object,
            math,
            Vec3 { x: p.x, y: d.down, z: p.z },
            t,
            d.at_down,
        ) && is_distance::<S, M, C, O>(
            object,
            math,
            Vec3 { x: p.x, y: p.y, z: d.fore },
            t,
            d.at_fore,
        ) && is_distance::<S, M, C, O>(
            object,
            math,
            Vec3 { x: p.x, y: p.y, z: d.back },
            t,
            d.at_back,
        ) && crate::vec3::is_normalized(math, d.gradient, a);
    let e = choose|d: Differences<S>| #[trigger]
        is_differences(p, d) && is_distance::<S, M, C, O>(
            object,
            math,
            Vec3 { x: d.right, y: p.y, z: p.z },
            t,
            d.at_right,
        ) && is_distance::<S, M, C, O>(
            object,
            math,
            Vec3 { x: d.left, y: p.y, z: p.z },
            t,
            d.at_left,
        ) && is_distance::<S, M, C, O>(
            object,
            math,
            Vec3 { x: p.x, y: d.up, z: p.z },
            t,
            d.at_up,
        ) && is_distance::<S, M, C, O>(
            object,
            math,
            Vec3 { x: p.x, y: d.down, z: p.z },
            t,
            d.at_down,
        ) && is_distance::<S, M, C, O>(
            object,
            math,
            Vec3 { x: p.x, y: p.y, z: d.fore },
            t,
            d.at_fore,
        ) && is_distance::<S, M, C, O>(
            object,
            math,
            Vec3 { x: p.x, y: p.y, z: d.back },
            t,
            d.at_back,
        ) && crate::vec3::is_normalized(math, d.gradient, b);
    crate::number::lemma_ratio_is_unique(1, NORMAL_EPSILON_PARTS, d.epsilon, e.epsilon);
    assert(d.right == e.right && d.left == e.left);
    assert(d.up == e.up && d.down == e.down);
    assert(d.fore == e.fore && d.back == e.back);
    assert(d.at_right == e.at_right && d.at_left == e.at_left);
    assert(d.at_up == e.at_up && d.at_down == e.at_down);
    assert(d.at_fore == e.at_fore && d.at_back == e.at_back);
    assert(d.gradient.x == e.gradient.x && d.gradient.y == e.gradient.y && d.gradient.z
        == e.gradient.z);
    crate::vec3::lemma_normalized_is_unique(math, d.gradient, a, b);
}

/// A point has one distance to a sphere where each operation of the numbers
/// and of `math` gives one result.
pub proof fn lemma_sphere_distance_is_unique<S: Number, M: Math<S>, C>(
    sphere: Sphere<S, C>,
    math: M,
    point: Vec3<S>,
    a: S,
    b: S,
)
    requires
        is_sphere_distance(sphere, math, point, a),
        is_sphere_distance(sphere, math, point, b),
        crate::number::is_exact::<S>(),
        crate::number::is_exact_math(math),
    ensures
        a == b,
{
    let (pa, wa, oa, ma) = choose|period: S, wrapped: S, offset: Vec3<S>, magnitude: S|
        #![trigger crate::number::is_remainder(point.x, period, wrapped), crate::vec3::is_magnitude(math, offset, magnitude)]
        crate::number::is_whole(SPHERE_PERIOD, period) && crate::number::is_remainder(
            point.x,
            period,
            wrapped,
        ) && crate::vec3::is_vec_difference(
            Vec3 { x: wrapped, y: point.y, z: point.z },
            sphere.center,
            offset,
        ) && crate::vec3::is_magnitude(math, offset, magnitude) && crate::number::is_difference(
            magnitude,
            sphere.radius,
            a,
        );
    let (pb, wb, ob, mb) = choose|period: S, wrapped: S, offset: Vec3<S>, magnitude: S|
        #![trigger crate::number::is_remainder(point.x, period, wrapped), crate::vec3::is_magnitude(math, offset, magnitude)]
        crate::number::is_whole(SPHERE_PERIOD, period) && crate::number::is_remainder(
            point.x,
            period,
            wrapped,
        ) && crate::vec3::is_vec_difference(
            Vec3 { x: wrapped, y: point.y, z: point.z },
            sphere.center,
            offset,
        ) && crate::vec3::is_magnitude(math, offset, magnitude) && crate::number::is_difference(
            magnitude,
            sphere.radius,
            b,
        );
    assert(pa == pb);
    assert(wa == wb);
    assert(oa.x == ob.x && oa.y == ob.y && oa.z == ob.z);
    crate::vec3::lemma_magnitude_is_unique(math, oa, ma, mb);
}

/// A sphere gives one answer each for its distance, its colour and its
/// normal where each operation of the numbers and of `math` gives one
/// result.
pub proof fn lemma_sphere_is_a_function<S: Number, M: Math<S>, C: Color<S>>(
    sphere: Sphere<S, C>,
    math: M,
)
    requires
        crate::number::is_exact::<S>(),
        crate::number::is_exact_math(math),
    ensures
        is_function::<S, M, C, Sphere<S, C>>(sphere, math),
{
    assert forall|point: Vec3<S>, t: S, a: S, b: S|
        is_distance::<S, M, C, Sphere<S, C>>(sphere, math, point, t, a) && is_distance::<
            S,
            M,
            C,
            Sphere<S, C>,
        >(sphere, math, point, t, b) implies a == b by {
        lemma_sphere_distance_is_unique(sphere, math, point, a, b);
    }
    assert(has_one_distance::<S, M, C, Sphere<S, C>>(sphere, math));
    assert forall|p: Vec3<S>, t: S, a: Option<Vec3<S>>, b: Option<Vec3<S>>|
        is_normal::<S, M, C, Sphere<S, C>>(sphere, math, p, t, a) && is_normal::<
            S,
            M,
            C,
            Sphere<S, C>,
        >(sphere, math, p, t, b) implies a == b by {
        assert(is_central_normal::<S, M, C, Sphere<S, C>>(sphere, math, p, t, a));
        assert(is_central_normal::<S, M, C, Sphere<S, C>>(sphere, math, p, t, b));
        lemma_central_normal_is_unique::<S, M, C, Sphere<S, C>>(sphere, math, p, t, a, b);
    }
}

} // verus!
