//! The quaternion Julia set and its distance estimate.
//!
//! The distance from a point to the Julia set of a parameter `c` is
//! estimated from the orbit of the point under `z -> z * z + c`, followed
//! together with its derivative, which goes by `dz -> 2 * z * dz` with the
//! `z` of before the step. The orbit is followed until it has escaped, that
//! is, until it reaches a point whose magnitude is greater than
//! [`ESCAPE_RADIUS`], and for [`MAX_ITERS`] steps at most; [`Orbit`] keeps
//! that count. The estimate is `|z| * ln |z| / |dz|` at the end of the
//! orbit, scaled by one fifth.

use crate::color::Color;
use crate::number::{ratio, Math, Number};
use crate::quaternion::Quaternion;
use crate::scene_object::SceneObject;
use crate::vec3::Vec3;
use vstd::prelude::*;

verus! {

/// The largest number of steps for which one orbit is followed.
pub const MAX_ITERS: u32 = 20;

/// The escape radius: an orbit has escaped when it reaches a point whose
/// magnitude is greater than this.
pub const ESCAPE_RADIUS: u32 = 4;

/// The distance estimate is scaled by one over this: by one fifth.
pub const DISTANCE_SCALE_PARTS: u32 = 5;

/// The course of one orbit: the steps it has made, and whether one of them
/// took it past the escape radius.
pub struct Orbit {
    steps: u32,
    escaped: bool,
}

impl Orbit {
    #[verifier::type_invariant]
    spec fn bounded(self) -> bool {
        self.steps <= MAX_ITERS
    }

    /// The number of steps made so far.
    pub closed spec fn steps(&self) -> nat {
        self.steps as nat
    }

    /// Whether a step has taken the orbit past the escape radius.
    pub closed spec fn escaped(&self) -> bool {
        self.escaped
    }

    /// Whether one more step is due: the orbit has not escaped and has steps
    /// left.
    pub open spec fn pending_spec(&self) -> bool {
        !self.escaped() && self.steps() < MAX_ITERS
    }

    /// An orbit at its starting point.
    pub fn new() -> (o: Orbit)
        ensures
            o.steps() == 0,
            !o.escaped(),
    {
        Orbit { steps: 0, escaped: false }
    }

    /// The number of steps made so far; never more than [`MAX_ITERS`].
    pub fn iterations(&self) -> (n: u32)
        ensures
            n == self.steps(),
            n <= MAX_ITERS,
    {
        proof {
            use_type_invariant(self);
        }
        self.steps
    }

    /// Whether one more step is due.
    pub fn pending(&self) -> (b: bool)
        ensures
            b == self.pending_spec(),
    {
        !self.escaped && self.steps < MAX_ITERS
    }

    /// Records one step, `escaped` saying whether it took the orbit past the
    /// escape radius. On an orbit that had no step due nothing is recorded.
    pub fn advance(&mut self, escaped: bool)
        ensures
            old(self).pending_spec() ==> final(self).steps() == old(self).steps() + 1
                && final(self).escaped() == escaped,
            !old(self).pending_spec() ==> final(self).steps() == old(self).steps()
                && final(self).escaped() == old(self).escaped(),
    {
        if !self.escaped && self.steps < MAX_ITERS {
            self.steps = self.steps + 1;
            self.escaped = escaped;
        }
    }
}

/// A point of an orbit together with the derivative of the orbit there.
pub struct Iterate<S> {
    /// The point.
    pub z: Quaternion<S>,
    /// The derivative.
    pub dz: Quaternion<S>,
    /// The magnitude of the point.
    pub magnitude: S,
}

/// Whether `after` is what one step can give from the point `z` with the
/// derivative `dz`: the point `z * z + c`, the derivative `2 * z * dz` with
/// the `z` and the `dz` of before the step, where `two` is the number two,
/// and the magnitude of the new point.
pub open spec fn is_step<S: Number, M: Math<S>>(
    math: M,
    c: Quaternion<S>,
    two: S,
    z: Quaternion<S>,
    dz: Quaternion<S>,
    after: Iterate<S>,
) -> bool {
    exists|square: Quaternion<S>, doubled: Quaternion<S>|
        #![trigger crate::quaternion::is_quat_product(z, z, square), crate::quaternion::is_quat_scaled(z, two, doubled)]
        crate::quaternion::is_quat_product(z, z, square) && crate::quaternion::is_quat_sum(
            square,
            c,
            after.z,
        ) && crate::quaternion::is_quat_scaled(z, two, doubled)
            && crate::quaternion::is_quat_product(doubled, dz, after.dz)
            && crate::quaternion::is_magnitude(math, after.z, after.magnitude)
}

/// Whether `orbit` and `escapes` are what following an orbit from `z` and
/// `dz` can give: each entry of `orbit` holds the point and the derivative
/// after one step, each entry of `escapes` whether the magnitude of that
/// point is greater than `radius`. The first step is made from `z` and
/// `dz`, each later one from the entry before it, none but the last has
/// escaped, and the last has escaped or is step number `MAX_ITERS`.
pub open spec fn is_orbit<S: Number, M: Math<S>>(
    math: M,
    c: Quaternion<S>,
    two: S,
    radius: S,
    z: Quaternion<S>,
    dz: Quaternion<S>,
    orbit: Seq<Iterate<S>>,
    escapes: Seq<bool>,
) -> bool {
    &&& 1 <= orbit.len() <= MAX_ITERS
    &&& escapes.len() == orbit.len()
    &&& is_step(math, c, two, z, dz, orbit[0])
    &&& forall|i: int|
        0 <= i < orbit.len() - 1 ==> is_step(
            math,
            c,
            two,
            orbit[i].z,
            orbit[i].dz,
            #[trigger] orbit[i + 1],
        )
    &&& forall|i: int|
        0 <= i < orbit.len() ==> crate::number::is_greater(
            orbit[i].magnitude,
            radius,
            #[trigger] escapes[i],
        )
    &&& forall|i: int| 0 <= i < orbit.len() - 1 ==> !#[trigger] escapes[i]
    &&& escapes.last() || orbit.len() == MAX_ITERS
}

/// Whether `z` and `dz` are a start of the orbit of `point` at the parameter
/// `t`: the point is the quaternion of the three coordinates and `t`, in
/// this order, and the derivative is the quaternion one.
pub open spec fn is_seed<S: Number>(point: Vec3<S>, t: S, z: Quaternion<S>, dz: Quaternion<S>) -> bool {
    &&& z.scalar() == point.x
    &&& z.vector() == (Vec3 { x: point.y, y: point.z, z: t })
    &&& crate::number::is_whole(1, dz.scalar())
    &&& crate::number::is_whole(0, dz.vector().x)
    &&& dz.vector().y == dz.vector().x
    &&& dz.vector().z == dz.vector().x
}

/// Whether `estimate` is a value that can be had for the distance estimate
/// of an orbit that ends in the point `z` with the derivative `dz`: the
/// magnitude of `z` times its logarithm, over the magnitude of `dz`, times
/// one over [`DISTANCE_SCALE_PARTS`].
pub open spec fn is_estimate<S: Number, M: Math<S>>(
    math: M,
    z: Quaternion<S>,
    dz: Quaternion<S>,
    estimate: S,
) -> bool {
    exists|size: S, size_again: S, logarithm: S, product: S, slope: S, raw: S, scale: S|
        #![trigger crate::quaternion::is_magnitude(math, z, size), crate::number::is_logarithm(math, size_again, logarithm), crate::number::is_product(size, logarithm, product), crate::number::is_quotient(product, slope, raw), crate::number::is_product(raw, scale, estimate)]
        crate::quaternion::is_magnitude(math, z, size) && crate::quaternion::is_magnitude(
            math,
            z,
            size_again,
        ) && crate::number::is_logarithm(math, size_again, logarithm) && crate::number::is_product(
            size,
            logarithm,
            product,
        ) && crate::quaternion::is_magnitude(math, dz, slope) && crate::number::is_quotient(
            product,
            slope,
            raw,
        ) && crate::number::is_ratio(1, DISTANCE_SCALE_PARTS, scale) && crate::number::is_product(
            raw,
            scale,
            estimate,
        )
}

/// Whether `distance` is a value that can be had for the distance from
/// `point` to the Julia set of `c` at the parameter `t`: the estimate at the
/// end of an orbit of the point.
pub open spec fn is_julia_distance<S: Number, M: Math<S>>(
    math: M,
    c: Quaternion<S>,
    point: Vec3<S>,
    t: S,
    distance: S,
) -> bool {
    exists|
        z: Quaternion<S>,
        dz: Quaternion<S>,
        two: S,
        radius: S,
        orbit: Seq<Iterate<S>>,
        escapes: Seq<bool>,
    |
        #![trigger is_seed(point, t, z, dz), is_orbit(math, c, two, radius, z, dz, orbit, escapes)]
        is_seed(point, t, z, dz) && crate::number::is_whole(2, two) && crate::number::is_whole(
            ESCAPE_RADIUS,
            radius,
        ) && is_orbit(math, c, two, radius, z, dz, orbit, escapes) && is_estimate(
            math,
            orbit.last().z,
            orbit.last().dz,
            distance,
        )
}

/// One step of an orbit.
fn step<S: Number, M: Math<S>>(
    math: &M,
    c: Quaternion<S>,
    two: S,
    z: Quaternion<S>,
    dz: Quaternion<S>,
) -> (after: Iterate<S>)
    requires
        crate::number::is_total::<S>(),
    ensures
        is_step(*math, c, two, z, dz, after),
{
    let square = z.times(z);
    let z_new = square.plus(c);
    let doubled = z.scaled(two);
    let dz_new = doubled.times(dz);
    let magnitude = z_new.magnitude(math);
    assert(crate::quaternion::is_quat_product(z, z, square) && crate::quaternion::is_quat_scaled(
        z,
        two,
        doubled,
    ));
    Iterate { z: z_new, dz: dz_new, magnitude }
}

/// The distance estimate at the end of an orbit.
fn estimate<S: Number, M: Math<S>>(math: &M, z: Quaternion<S>, dz: Quaternion<S>) -> (estimate: S)
    requires
        crate::number::is_total::<S>(),
    ensures
        is_estimate(*math, z, dz, estimate),
{
    let size = z.magnitude(math);
    let size_again = z.magnitude(math);
    let logarithm = math.ln(size_again);
    let product = size * logarithm;
    let slope = dz.magnitude(math);
    let raw = product / slope;
    let scale: S = ratio(1, DISTANCE_SCALE_PARTS);
    let estimate = raw * scale;
    assert(crate::quaternion::is_magnitude(*math, z, size) && crate::number::is_logarithm(
        *math,
        size_again,
        logarithm,
    ) && crate::number::is_product(size, logarithm, product) && crate::number::is_quotient(
        product,
        slope,
        raw,
    ) && crate::number::is_product(raw, scale, estimate));
    estimate
}

/// A Julia set, defined by its parameter `c` in `z -> z * z + c`, with a
/// colour.
pub struct Julia<S, C> {
    pub c: Quaternion<S>,
    pub color: C,
}

impl<S: Number, M: Math<S>, C: Color<S>> SceneObject<S, M, C> for Julia<S, C> {
    /// The estimate of the distance from `point` to the set. The three
    /// coordinates of the point and `t` are the four parts of the quaternion
    /// at which the orbit starts.
    fn distance_to(&self, math: &M, point: Vec3<S>, t: S) -> (distance: S)
        ensures
            is_julia_distance(*math, self.c, point, t, distance),
    {
        let start = Quaternion::new(point.x, point.y, point.z, t);
        let one = S::from(1u32);
        let zero = S::from(0u32);
        let start_slope = Quaternion::new(one, zero, zero, zero);
        let two = S::from(2u32);
        let radius = S::from(ESCAPE_RADIUS);
        let mut course = Orbit::new();
        let mut z = start;
        let mut dz = start_slope;
        let ghost mut orbit: Seq<Iterate<S>> = Seq::empty();
        let ghost mut escapes: Seq<bool> = Seq::empty();
        while course.pending()
            invariant
                crate::number::is_total::<S>(),
                is_seed(point, t, start, start_slope),
                crate::number::is_whole(2, two),
                crate::number::is_whole(ESCAPE_RADIUS, radius),
                orbit.len() == course.steps(),
                escapes.len() == orbit.len(),
                orbit.len() <= MAX_ITERS,
                orbit.len() == 0 ==> z == start && dz == start_slope && !course.escaped(),
                orbit.len() > 0 ==> orbit.last().z == z && orbit.last().dz == dz && escapes.last()
                    == course.escaped() && is_step(*math, self.c, two, start, start_slope, orbit[0]),
                forall|i: int|
                    0 <= i < orbit.len() - 1 ==> is_step(
                        *math,
                        self.c,
                        two,
                        orbit[i].z,
                        orbit[i].dz,
                        #[trigger] orbit[i + 1],
                    ),
                forall|i: int|
                    0 <= i < orbit.len() ==> crate::number::is_greater(
                        orbit[i].magnitude,
                        radius,
                        #[trigger] escapes[i],
                    ),
                forall|i: int| 0 <= i < orbit.len() - 1 ==> !#[trigger] escapes[i],
            decreases MAX_ITERS - course.steps(),
        {
            let ghost orbit_before = orbit;
            let ghost escapes_before = escapes;
            let after = step(math, self.c, two, z, dz);
            z = after.z;
            dz = after.dz;
            let escaped = after.magnitude.gt(&radius);
            course.advance(escaped);
            proof {
                orbit = orbit_before.push(after);
                escapes = escapes_before.push(escaped);
                assert forall|i: int| 0 <= i < orbit.len() - 1 implies is_step(
                    *math,
                    self.c,
                    two,
                    orbit[i].z,
                    orbit[i].dz,
                    #[trigger] orbit[i + 1],
                ) by {
                    assert(orbit[i] == orbit_before[i]);
                    if i < orbit_before.len() - 1 {
                        assert(orbit[i + 1] == orbit_before[i + 1]);
                    }
                }
                assert forall|i: int| 0 <= i < orbit.len() implies crate::number::is_greater(
                    orbit[i].magnitude,
                    radius,
                    #[trigger] escapes[i],
                ) by {
                    if i < orbit_before.len() {
                        assert(orbit[i] == orbit_before[i]);
                        assert(escapes[i] == escapes_before[i]);
                    }
                }
                assert forall|i: int| 0 <= i < orbit.len() - 1 implies !#[trigger] escapes[i] by {
                    assert(escapes[i] == escapes_before[i]);
                }
                assert(is_step(*math, self.c, two, start, start_slope, orbit[0])) by {
                    if orbit_before.len() > 0 {
                        assert(orbit[0] == orbit_before[0]);
                    }
                }
            }
        }
        let distance = estimate(math, z, dz);
        proof {
            assert(is_orbit(*math, self.c, two, radius, start, start_slope, orbit, escapes));
            assert(is_seed(point, t, start, start_slope) && is_orbit(
                *math,
                self.c,
                two,
                radius,
                start,
                start_slope,
                orbit,
                escapes,
            ));
        }
        distance
    }

    fn get_color(&self, math: &M, t: S) -> (color: C)
        ensures
            color == self.color,
    {
        self.color
    }
}

/// A step of an orbit has one outcome where each operation of the numbers
/// and of `math` gives one result.
pub proof fn lemma_step_is_unique<S: Number, M: Math<S>>(
    math: M,
    c: Quaternion<S>,
    two: S,
    z: Quaternion<S>,
    dz: Quaternion<S>,
    a: Iterate<S>,
    b: Iterate<S>,
)
    requires
        is_step(math, c, two, z, dz, a),
        is_step(math, c, two, z, dz, b),
        crate::number::is_exact::<S>(),
        crate::number::is_exact_math(math),
    ensures
        a == b,
{
    let (sa, da) = choose|square: Quaternion<S>, doubled: Quaternion<S>|
        #![trigger crate::quaternion::is_quat_product(z, z, square), crate::quaternion::is_quat_scaled(z, two, doubled)]
        crate::quaternion::is_quat_product(z, z, square) && crate::quaternion::is_quat_sum(
            square,
            c,
            a.z,
        ) && crate::quaternion::is_quat_scaled(z, two, doubled)
            && crate::quaternion::is_quat_product(doubled, dz, a.dz)
            && crate::quaternion::is_magnitude(math, a.z, a.magnitude);
    let (sb, db) = choose|square: Quaternion<S>, doubled: Quaternion<S>|
        #![trigger crate::quaternion::is_quat_product(z, z, square), crate::quaternion::is_quat_scaled(z, two, doubled)]
        crate::quaternion::is_quat_product(z, z, square) && crate::quaternion::is_quat_sum(
            square,
            c,
            b.z,
        ) && crate::quaternion::is_quat_scaled(z, two, doubled)
            && crate::quaternion::is_quat_product(doubled, dz, b.dz)
            && crate::quaternion::is_magnitude(math, b.z, b.magnitude);
    crate::quaternion::lemma_quat_product_is_unique(z, z, sa, sb);
    crate::quaternion::lemma_quat_sum_is_unique(sa, c, a.z, b.z);
    crate::quaternion::lemma_quat_scaled_is_unique(z, two, da, db);
    crate::quaternion::lemma_quat_product_is_unique(da, dz, a.dz, b.dz);
    crate::quaternion::lemma_magnitude_is_unique(math, a.z, a.magnitude, b.magnitude);
}

/// Two orbits agree on each step that both have, and on whether it escaped,
/// where each operation of the numbers and of `math` gives one result.
proof fn lemma_orbits_agree<S: Number, M: Math<S>>(
    math: M,
    c: Quaternion<S>,
    two: S,
    radius: S,
    z: Quaternion<S>,
    dz: Quaternion<S>,
    a: Seq<Iterate<S>>,
    ea: Seq<bool>,
    b: Seq<Iterate<S>>,
    eb: Seq<bool>,
    i: int,
)
    requires
        is_orbit(math, c, two, radius, z, dz, a, ea),
        is_orbit(math, c, two, radius, z, dz, b, eb),
        crate::number::is_exact::<S>(),
        crate::number::is_exact_math(math),
        0 <= i < a.len(),
        i < b.len(),
    ensures
        a[i] == b[i],
        ea[i] == eb[i],
    decreases i,
{
    if i > 0 {
        lemma_orbits_agree(math, c, two, radius, z, dz, a, ea, b, eb, i - 1);
        assert(is_step(math, c, two, a[i - 1].z, a[i - 1].dz, a[i - 1 + 1]));
        assert(is_step(math, c, two, b[i - 1].z, b[i - 1].dz, b[i - 1 + 1]));
        lemma_step_is_unique(math, c, two, a[i - 1].z, a[i - 1].dz, a[i], b[i]);
    } else {
        lemma_step_is_unique(math, c, two, z, dz, a[0], b[0]);
    }
    assert(crate::number::is_greater(a[i].magnitude, radius, ea[i]));
    assert(crate::number::is_greater(b[i].magnitude, radius, eb[i]));
}

/// The end of an orbit has one distance estimate where each operation of
/// the numbers and of `math` gives one result.
pub proof fn lemma_estimate_is_unique<S: Number, M: Math<S>>(
    math: M,
    z: Quaternion<S>,
    dz: Quaternion<S>,
    a: S,
    b: S,
)
    requires
        is_estimate(math, z, dz, a),
        is_estimate(math, z, dz, b),
        crate::number::is_exact::<S>(),
        crate::number::is_exact_math(math),
    ensures
        a == b,
{
    let (size, size_again, logarithm, product, slope, raw, scale) = choose|
        size: S,
        size_again: S,
        logarithm: S,
        product: S,
        slope: S,
        raw: S,
        scale: S,
    |
        #![trigger crate::quaternion::is_magnitude(math, z, size), crate::number::is_logarithm(math, size_again, logarithm), crate::number::is_product(size, logarithm, product), crate::number::is_quotient(product, slope, raw), crate::number::is_product(raw, scale, a)]
        crate::quaternion::is_magnitude(math, z, size) && crate::quaternion::is_magnitude(
            math,
            z,
            size_again,
        ) && crate::number::is_logarithm(math, size_again, logarithm) && crate::number::is_product(
            size,
            logarithm,
            product,
        ) && crate::quaternion::is_magnitude(math, dz, slope) && crate::number::is_quotient(
            product,
            slope,
            raw,
        ) && crate::number::is_ratio(1, DISTANCE_SCALE_PARTS, scale) && crate::number::is_product(
            raw,
            scale,
            a,
        );
    let (size2, size_again2, logarithm2, product2, slope2, raw2, scale2) = choose|
        size: S,
        size_again: S,
        logarithm: S,
        product: S,
        slope: S,
        raw: S,
        scale: S,
    |
        #![trigger crate::quaternion::is_magnitude(math, z, size), crate::number::is_logarithm(math, size_again, logarithm), crate::number::is_product(size, logarithm, product), crate::number::is_quotient(product, slope, raw), crate::number::is_product(raw, scale, b)]
        crate::quaternion::is_magnitude(math, z, size) && crate::quaternion::is_magnitude(
            math,
            z,
            size_again,
        ) && crate::number::is_logarithm(math, size_again, logarithm) && crate::number::is_product(
            size,
            logarithm,
            product,
        ) && crate::quaternion::is_magnitude(math, dz, slope) && crate::number::is_quotient(
            product,
            slope,
            raw,
        ) && crate::number::is_ratio(1, DISTANCE_SCALE_PARTS, scale) && crate::number::is_product(
            raw,
            scale,
            b,
        );
    crate::quaternion::lemma_magnitude_is_unique(math, z, size, size2);
    crate::quaternion::lemma_magnitude_is_unique(math, z, size_again, size_again2);
    assert(logarithm == logarithm2);
    assert(product == product2);
    crate::quaternion::lemma_magnitude_is_unique(math, dz, slope, slope2);
    assert(raw == raw2);
    crate::number::lemma_ratio_is_unique(1, DISTANCE_SCALE_PARTS, scale, scale2);
}

/// A point has one distance to a Julia set where each operation of the
/// numbers and of `math` gives one result.
pub proof fn lemma_julia_distance_is_unique<S: Number, M: Math<S>>(
    math: M,
    c: Quaternion<S>,
    point: Vec3<S>,
    t: S,
    p: S,
    q: S,
)
    requires
        is_julia_distance(math, c, point, t, p),
        is_julia_distance(math, c, point, t, q),
        crate::number::is_exact::<S>(),
        crate::number::is_exact_math(math),
    ensures
        p == q,
{
    let (za, dza, ta, ra, a, ea) = choose|
        z: Quaternion<S>,
        dz: Quaternion<S>,
        two: S,
        radius: S,
        orbit: Seq<Iterate<S>>,
        escapes: Seq<bool>,
    |
        #![trigger is_seed(point, t, z, dz), is_orbit(math, c, two, radius, z, dz, orbit, escapes)]
        is_seed(point, t, z, dz) && crate::number::is_whole(2, two) && crate::number::is_whole(
            ESCAPE_RADIUS,
            radius,
        ) && is_orbit(math, c, two, radius, z, dz, orbit, escapes) && is_estimate(
            math,
            orbit.last().z,
            orbit.last().dz,
            p,
        );
    let (zb, dzb, tb, rb, b, eb) = choose|
        z: Quaternion<S>,
        dz: Quaternion<S>,
        two: S,
        radius: S,
        orbit: Seq<Iterate<S>>,
        escapes: Seq<bool>,
    |
        #![trigger is_seed(point, t, z, dz), is_orbit(math, c, two, radius, z, dz, orbit, escapes)]
        is_seed(point, t, z, dz) && crate::number::is_whole(2, two) && crate::number::is_whole(
            ESCAPE_RADIUS,
            radius,
        ) && is_orbit(math, c, two, radius, z, dz, orbit, escapes) && is_estimate(
            math,
            orbit.last().z,
            orbit.last().dz,
            q,
        );
    crate::quaternion::lemma_parts_make_the_quaternion(za, zb);
    assert(dza.scalar() == dzb.scalar());
    assert(dza.vector().x == dzb.vector().x);
    assert(dza.vector() == dzb.vector());
    crate::quaternion::lemma_parts_make_the_quaternion(dza, dzb);
    assert(ta == tb && ra == rb);
    if a.len() < b.len() {
        lemma_orbits_agree(math, c, ta, ra, za, dza, a, ea, b, eb, a.len() - 1);
        assert(!eb[a.len() - 1]);
    } else if b.len() < a.len() {
        lemma_orbits_agree(math, c, ta, ra, za, dza, a, ea, b, eb, b.len() - 1);
        assert(!ea[b.len() - 1]);
    }
    lemma_orbits_agree(math, c, ta, ra, za, dza, a, ea, b, eb, a.len() - 1);
    lemma_estimate_is_unique(math, a.last().z, a.last().dz, p, q);
}

/// A Julia set gives one answer each for its distance, its colour and its
/// normal where each operation of the numbers and of `math` gives one
/// result.
pub proof fn lemma_julia_is_a_function<S: Number, M: Math<S>, C: Color<S>>(julia: Julia<S, C>, math: M)
    requires
        crate::number::is_exact::<S>(),
        crate::number::is_exact_math(math),
    ensures
        crate::scene_object::is_function::<S, M, C, Julia<S, C>>(julia, math),
{
    assert forall|point: Vec3<S>, t: S, a: S, b: S|
        crate::scene_object::is_distance::<S, M, C, Julia<S, C>>(julia, math, point, t, a)
            && crate::scene_object::is_distance::<S, M, C, Julia<S, C>>(
            julia,
            math,
            point,
            t,
            b,
        ) implies a == b by {
        lemma_julia_distance_is_unique(math, julia.c, point, t, a, b);
    }
    assert(crate::scene_object::has_one_distance::<S, M, C, Julia<S, C>>(julia, math));
    assert forall|p: Vec3<S>, t: S, a: Option<Vec3<S>>, b: Option<Vec3<S>>|
        crate::scene_object::is_normal::<S, M, C, Julia<S, C>>(julia, math, p, t, a)
            && crate::scene_object::is_normal::<S, M, C, Julia<S, C>>(
            julia,
            math,
            p,
            t,
            b,
        ) implies a == b by {
        assert(crate::scene_object::is_central_normal::<S, M, C, Julia<S, C>>(
            julia,
            math,
            p,
            t,
            a,
        ));
        assert(crate::scene_object::is_central_normal::<S, M, C, Julia<S, C>>(
            julia,
            math,
            p,
            t,
            b,
        ));
        crate::scene_object::lemma_central_normal_is_unique::<S, M, C, Julia<S, C>>(
            julia,
            math,
            p,
            t,
            a,
            b,
        );
    }
}

} // verus!
