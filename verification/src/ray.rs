//! The march of a ray.
//!
//! A ray is marched by evaluating the distance to the scene at its tip and
//! moving the tip on by that distance, again and again: the distance is
//! added to the length of the ray, and the tip is put at that length from
//! the origin of the ray. After each evaluation the ray has hit if the
//! distance was below the hit threshold. If not, it is given up after
//! [`MAX_STEPS`] evaluations more than one, or when the moved tip has left
//! the box between the back culling planes. Else it is marched on.

use crate::number::{beyond, ratio, Math, Number};
use crate::scene_object::SceneObject;
use crate::vec3::Vec3;
use vstd::prelude::*;

verus! {

/// The number of distance evaluations after which a ray that has neither hit
/// nor left the box is still marched on. The evaluation after that is the
/// last one.
pub const MAX_STEPS: u32 = 200;

/// The hit threshold is one part in this many: a distance below one
/// ten-thousandth is a hit.
pub const HIT_THRESHOLD_PARTS: u32 = 10_000;

/// What went wrong where a vector was to be brought to a magnitude of one:
/// its magnitude was zero, so it has no direction.
#[derive(Clone, Copy, PartialEq, Eq, Debug, Structural)]
pub struct ZeroMagnitude;

/// How a ray fares after a distance evaluation.
#[derive(Clone, Copy, PartialEq, Eq, Debug, Structural)]
pub enum Verdict {
    /// The ray has met a surface; its tip is the hit point.
    Hit,
    /// The ray is given up: it met nothing.
    Miss,
    /// The ray is marched on.
    Continue,
}

/// The number of evaluations counted once one more is made after `taken`.
/// The count stops at `MAX_STEPS + 1`, where a march is exhausted.
pub open spec fn count_after(taken: nat) -> nat {
    if taken <= MAX_STEPS {
        taken + 1
    } else {
        taken
    }
}

/// The verdict on an evaluation that is number `taken` of its ray, counted
/// from one. `close` says that the distance was below the hit threshold,
/// `outside` that the tip has left the box. A hit is asked for first, so it
/// stands even on the last evaluation and outside the box.
pub open spec fn verdict_spec(taken: nat, close: bool, outside: bool) -> Verdict {
    if close {
        Verdict::Hit
    } else if taken > MAX_STEPS || outside {
        Verdict::Miss
    } else {
        Verdict::Continue
    }
}

/// The course of one ray: how many distance evaluations it has had.
pub struct March {
    taken: u32,
}

impl March {
    #[verifier::type_invariant]
    spec fn bounded(self) -> bool {
        self.taken <= MAX_STEPS + 1
    }

    /// The number of evaluations counted so far.
    pub closed spec fn taken(&self) -> nat {
        self.taken as nat
    }

    /// A ray that has not been evaluated yet.
    pub fn new() -> (m: March)
        ensures
            m.taken() == 0,
    {
        March { taken: 0 }
    }

    /// The number of evaluations counted so far; never more than
    /// `MAX_STEPS + 1`.
    pub fn evaluations(&self) -> (n: u32)
        ensures
            n == self.taken(),
            n <= MAX_STEPS + 1,
    {
        proof {
            use_type_invariant(self);
        }
        self.taken
    }

    /// Counts one distance evaluation and gives the verdict on it.
    ///
    /// A ray that is marched on has had `MAX_STEPS` evaluations at most, so
    /// no ray has more than `MAX_STEPS + 1`.
    pub fn step(&mut self, close: bool, outside: bool) -> (v: Verdict)
        ensures
            final(self).taken() == count_after(old(self).taken()),
            v == verdict_spec(final(self).taken(), close, outside),
            v == Verdict::Continue ==> final(self).taken() <= MAX_STEPS,
    {
        proof {
            use_type_invariant(&*self);
        }
        if self.taken <= MAX_STEPS {
            self.taken = self.taken + 1;
        }
        if close {
            Verdict::Hit
        } else if self.taken > MAX_STEPS || outside {
            Verdict::Miss
        } else {
            Verdict::Continue
        }
    }
}

/// A close evaluation is a hit whatever else holds of it, and nothing but a
/// close evaluation is a hit.
pub proof fn lemma_hit_comes_first(taken: nat, close: bool, outside: bool)
    ensures
        verdict_spec(taken, close, outside) == Verdict::Hit <==> close,
{
}

/// A ray that has hit.
#[derive(Debug)]
pub struct RayResult<S> {
    /// The length of the ray: the sum of the distances that were found.
    pub len: S,
    /// The point at which the ray met the scene.
    pub hit_point: Vec3<S>,
}

/// One distance evaluation of a ray and the move that followed it.
pub struct Probe<S> {
    /// The distance that was found at the ray's tip.
    pub radius: S,
    /// The length of the ray after the move: its length before, plus the
    /// distance.
    pub len: S,
    /// The ray's tip after the move: the point at that length.
    pub point: Vec3<S>,
}

/// What is made of one distance evaluation.
pub struct Finding {
    /// Whether the distance was below the hit threshold.
    pub close: bool,
    /// Whether the moved tip has left the box.
    pub outside: bool,
}

/// Whether `threshold` is a value that the numbers can give for the hit
/// threshold: one over [`HIT_THRESHOLD_PARTS`].
pub open spec fn is_hit_threshold<S: Number>(threshold: S) -> bool {
    crate::number::is_ratio(1, HIT_THRESHOLD_PARTS, threshold)
}

/// Whether `answer` is what the numbers can give to the question whether
/// `position` lies outside the box between the planes at `backplanes`:
/// whether on any axis the magnitude of the coordinate is greater than the
/// plane's.
pub open spec fn is_outside<S: Number>(position: Vec3<S>, backplanes: Vec3<S>, answer: bool) -> bool {
    exists|x: bool, y: bool, z: bool|
        #![trigger crate::number::is_beyond(position.x, backplanes.x, x), crate::number::is_beyond(position.y, backplanes.y, y), crate::number::is_beyond(position.z, backplanes.z, z)]
        crate::number::is_beyond(position.x, backplanes.x, x) && crate::number::is_beyond(
            position.y,
            backplanes.y,
            y,
        ) && crate::number::is_beyond(position.z, backplanes.z, z) && answer == (x || y || z)
}

/// Whether `position` lies outside the box between the planes at
/// `backplanes`.
pub fn outside<S: Number>(position: Vec3<S>, backplanes: Vec3<S>) -> (answer: bool)
    requires
        crate::number::is_total::<S>(),
    ensures
        is_outside(position, backplanes, answer),
{
    let x = beyond(position.x, backplanes.x);
    let y = beyond(position.y, backplanes.y);
    let z = beyond(position.z, backplanes.z);
    x || y || z
}

/// Whether `point` is a point that the numbers can give for the point at the
/// length `len` on the ray from `origin` along `dir`: `origin` plus `len`
/// times `dir`.
pub open spec fn is_point_at<S: Number>(origin: Vec3<S>, dir: Vec3<S>, len: S, point: Vec3<S>) -> bool {
    exists|along: Vec3<S>| #[trigger]
        crate::vec3::is_scaled(dir, len, along) && crate::vec3::is_vec_sum(origin, along, point)
}

/// Whether `probe` is what one evaluation can give for a ray of length `len`
/// with its tip at `tip`: the distance that the object can give at the tip,
/// the length plus that distance, and the point at the new length.
pub open spec fn is_probe<S: Number, M: Math<S>, C, O: SceneObject<S, M, C>>(
    object: O,
    math: M,
    origin: Vec3<S>,
    dir: Vec3<S>,
    t: S,
    len: S,
    tip: Vec3<S>,
    probe: Probe<S>,
) -> bool {
    &&& crate::scene_object::is_distance::<S, M, C, O>(object, math, tip, t, probe.radius)
    &&& crate::number::is_sum(len, probe.radius, probe.len)
    &&& is_point_at(origin, dir, probe.len, probe.point)
}

/// Whether `finding` is what can be made of `probe`: whether its distance is
/// less than `threshold`, and whether its point lies outside the box.
pub open spec fn is_finding<S: Number>(
    threshold: S,
    backplanes: Vec3<S>,
    probe: Probe<S>,
    finding: Finding,
) -> bool {
    &&& crate::number::is_less(probe.radius, threshold, finding.close)
    &&& is_outside(probe.point, backplanes, finding.outside)
}

/// The verdict on evaluation number `i + 1` of a ray that is marched from
/// its origin, where `findings` holds what was made of each evaluation.
pub open spec fn verdict_at(findings: Seq<Finding>, i: int) -> Verdict {
    verdict_spec((i + 1) as nat, findings[i].close, findings[i].outside)
}

/// Whether `course` and `findings` are what a ray from `origin` along the
/// unit vector `dir` can give, up to and including the evaluation that
/// decides it: the first evaluation is made at `origin` with the length
/// `zero`, each later one at the point and with the length that the one
/// before gave, of each its finding is made, all findings but the last say
/// that the ray is marched on, and the last is a hit or a miss.
pub open spec fn is_course<S: Number, M: Math<S>, C, O: SceneObject<S, M, C>>(
    object: O,
    math: M,
    origin: Vec3<S>,
    dir: Vec3<S>,
    t: S,
    zero: S,
    threshold: S,
    backplanes: Vec3<S>,
    course: Seq<Probe<S>>,
    findings: Seq<Finding>,
) -> bool {
    &&& course.len() >= 1
    &&& findings.len() == course.len()
    &&& is_probe::<S, M, C, O>(object, math, origin, dir, t, zero, origin, course[0])
    &&& forall|i: int|
        0 <= i < course.len() - 1 ==> is_probe::<S, M, C, O>(
            object,
            math,
            origin,
            dir,
            t,
            course[i].len,
            course[i].point,
            #[trigger] course[i + 1],
        )
    &&& forall|i: int|
        0 <= i < course.len() ==> is_finding(
            threshold,
            backplanes,
            course[i],
            #[trigger] findings[i],
        )
    &&& forall|i: int|
        0 <= i < course.len() - 1 ==> #[trigger] verdict_at(findings, i) == Verdict::Continue
    &&& verdict_at(findings, course.len() - 1) != Verdict::Continue
}

/// How the ray of `course` has ended: with its length and tip after the last
/// evaluation if that was a hit, with nothing if it was a miss.
pub open spec fn hit_of<S>(course: Seq<Probe<S>>, findings: Seq<Finding>) -> Option<RayResult<S>> {
    if verdict_at(findings, course.len() - 1) == Verdict::Hit {
        Some(RayResult { len: course.last().len, hit_point: course.last().point })
    } else {
        None
    }
}

/// Whether `hit` is how marching a ray from `origin` along the unit vector
/// `dir` can end: the outcome of a course of the ray that starts with a
/// length of zero, under a value of the hit threshold.
pub open spec fn is_march<S: Number, M: Math<S>, C, O: SceneObject<S, M, C>>(
    object: O,
    math: M,
    origin: Vec3<S>,
    dir: Vec3<S>,
    backplanes: Vec3<S>,
    t: S,
    hit: Option<RayResult<S>>,
) -> bool {
    exists|zero: S, threshold: S, course: Seq<Probe<S>>, findings: Seq<Finding>|
        crate::number::is_whole(0, zero) && is_hit_threshold(threshold) && #[trigger] is_course::<
            S,
            M,
            C,
            O,
        >(object, math, origin, dir, t, zero, threshold, backplanes, course, findings) && hit
            == hit_of(course, findings)
}

/// Whether `outcome` is what casting a ray from `point` in the direction
/// `dir` can give: the error where `dir` has a magnitude of zero, else how
/// marching the ray along `dir` brought to a magnitude of one ends.
pub open spec fn is_cast<S: Number, M: Math<S>, C, O: SceneObject<S, M, C>>(
    object: O,
    math: M,
    point: Vec3<S>,
    dir: Vec3<S>,
    backplanes: Vec3<S>,
    t: S,
    outcome: Result<Option<RayResult<S>>, ZeroMagnitude>,
) -> bool {
    exists|unit: Option<Vec3<S>>| #[trigger]
        crate::vec3::is_normalized(math, dir, unit) && match unit {
            None => outcome is Err,
            Some(u) => outcome is Ok && is_march::<S, M, C, O>(
                object,
                math,
                point,
                u,
                backplanes,
                t,
                outcome->Ok_0,
            ),
        }
}

/// Every ray is decided within `MAX_STEPS + 1` evaluations: no course is
/// longer than that, whatever the evaluations find.
pub proof fn lemma_course_is_bounded<S: Number, M: Math<S>, C, O: SceneObject<S, M, C>>(
    object: O,
    math: M,
    origin: Vec3<S>,
    dir: Vec3<S>,
    t: S,
    zero: S,
    threshold: S,
    backplanes: Vec3<S>,
    course: Seq<Probe<S>>,
    findings: Seq<Finding>,
)
    requires
        is_course::<S, M, C, O>(
            object,
            math,
            origin,
            dir,
            t,
            zero,
            threshold,
            backplanes,
            course,
            findings,
        ),
    ensures
        course.len() <= MAX_STEPS + 1,
{
    if course.len() > MAX_STEPS + 1 {
        assert(verdict_at(findings, MAX_STEPS as int) == Verdict::Continue);
    }
}

/// The question whether a position lies outside the box has one answer
/// where each operation of the numbers gives one result.
pub proof fn lemma_outside_is_unique<S: Number>(
    position: Vec3<S>,
    backplanes: Vec3<S>,
    p: bool,
    q: bool,
)
    requires
        is_outside(position, backplanes, p),
        is_outside(position, backplanes, q),
        crate::number::is_exact::<S>(),
    ensures
        p == q,
{
    let (xp, yp, zp) = choose|x: bool, y: bool, z: bool|
        #![trigger crate::number::is_beyond(position.x, backplanes.x, x), crate::number::is_beyond(position.y, backplanes.y, y), crate::number::is_beyond(position.z, backplanes.z, z)]
        crate::number::is_beyond(position.x, backplanes.x, x) && crate::number::is_beyond(
            position.y,
            backplanes.y,
            y,
        ) && crate::number::is_beyond(position.z, backplanes.z, z) && p == (x || y || z);
    let (xq, yq, zq) = choose|x: bool, y: bool, z: bool|
        #![trigger crate::number::is_beyond(position.x, backplanes.x, x), crate::number::is_beyond(position.y, backplanes.y, y), crate::number::is_beyond(position.z, backplanes.z, z)]
        crate::number::is_beyond(position.x, backplanes.x, x) && crate::number::is_beyond(
            position.y,
            backplanes.y,
            y,
        ) && crate::number::is_beyond(position.z, backplanes.z, z) && q == (x || y || z);
    crate::number::lemma_beyond_is_unique(position.x, backplanes.x, xp, xq);
    crate::number::lemma_beyond_is_unique(position.y, backplanes.y, yp, yq);
    crate::number::lemma_beyond_is_unique(position.z, backplanes.z, zp, zq);
}

/// A ray has one point at a given length where each operation of the numbers
/// gives one result.
pub proof fn lemma_point_at_is_unique<S: Number>(
    origin: Vec3<S>,
    dir: Vec3<S>,
    len: S,
    p: Vec3<S>,
    q: Vec3<S>,
)
    requires
        is_point_at(origin, dir, len, p),
        is_point_at(origin, dir, len, q),
        crate::number::is_exact::<S>(),
    ensures
        p == q,
{
    let a = choose|along: Vec3<S>| #[trigger]
        crate::vec3::is_scaled(dir, len, along) && crate::vec3::is_vec_sum(origin, along, p);
    let b = choose|along: Vec3<S>| #[trigger]
        crate::vec3::is_scaled(dir, len, along) && crate::vec3::is_vec_sum(origin, along, q);
    assert(a.x == b.x && a.y == b.y && a.z == b.z);
    assert(p.x == q.x && p.y == q.y && p.z == q.z);
}

/// An evaluation has one outcome where the object gives one answer for its
/// distance and each operation of the numbers gives one result.
proof fn lemma_probe_is_unique<S: Number, M: Math<S>, C, O: SceneObject<S, M, C>>(
    object: O,
    math: M,
    origin: Vec3<S>,
    dir: Vec3<S>,
    t: S,
    len: S,
    tip: Vec3<S>,
    a: Probe<S>,
    b: Probe<S>,
)
    requires
        is_probe::<S, M, C, O>(object, math, origin, dir, t, len, tip, a),
        is_probe::<S, M, C, O>(object, math, origin, dir, t, len, tip, b),
        crate::scene_object::is_function::<S, M, C, O>(object, math),
        crate::number::is_exact::<S>(),
    ensures
        a == b,
{
    assert(a.radius == b.radius);
    assert(a.len == b.len);
    lemma_point_at_is_unique(origin, dir, a.len, a.point, b.point);
}

/// Two courses of a ray agree on each evaluation that both have, and on what
/// is made of it, where the object gives one answer for its distance and
/// each operation of the numbers gives one result.
proof fn lemma_courses_agree<S: Number, M: Math<S>, C, O: SceneObject<S, M, C>>(
    object: O,
    math: M,
    origin: Vec3<S>,
    dir: Vec3<S>,
    t: S,
    zero: S,
    threshold: S,
    backplanes: Vec3<S>,
    a: Seq<Probe<S>>,
    fa: Seq<Finding>,
    b: Seq<Probe<S>>,
    fb: Seq<Finding>,
    i: int,
)
    requires
        is_course::<S, M, C, O>(object, math, origin, dir, t, zero, threshold, backplanes, a, fa),
        is_course::<S, M, C, O>(object, math, origin, dir, t, zero, threshold, backplanes, b, fb),
        crate::scene_object::is_function::<S, M, C, O>(object, math),
        crate::number::is_exact::<S>(),
        0 <= i < a.len(),
        i < b.len(),
    ensures
        a[i] == b[i],
        fa[i] == fb[i],
    decreases i,
{
    if i > 0 {
        lemma_courses_agree::<S, M, C, O>(
            object,
            math,
            origin,
            dir,
            t,
            zero,
            threshold,
            backplanes,
            a,
            fa,
            b,
            fb,
            i - 1,
        );
        assert(is_probe::<S, M, C, O>(
            object,
            math,
            origin,
            dir,
            t,
            a[i - 1].len,
            a[i - 1].point,
            a[i - 1 + 1],
        ));
        assert(is_probe::<S, M, C, O>(
            object,
            math,
            origin,
            dir,
            t,
            b[i - 1].len,
            b[i - 1].point,
            b[i - 1 + 1],
        ));
        lemma_probe_is_unique::<S, M, C, O>(
            object,
            math,
            origin,
            dir,
            t,
            a[i - 1].len,
            a[i - 1].point,
            a[i],
            b[i],
        );
    } else {
        lemma_probe_is_unique::<S, M, C, O>(object, math, origin, dir, t, zero, origin, a[0], b[0]);
    }
    assert(is_finding(threshold, backplanes, a[i], fa[i]));
    assert(is_finding(threshold, backplanes, b[i], fb[i]));
    lemma_outside_is_unique(a[i].point, backplanes, fa[i].outside, fb[i].outside);
}

/// A march has one end where the object gives one answer for its distance
/// and each operation of the numbers gives one result.
pub proof fn lemma_march_is_unique<S: Number, M: Math<S>, C, O: SceneObject<S, M, C>>(
    object: O,
    math: M,
    origin: Vec3<S>,
    dir: Vec3<S>,
    backplanes: Vec3<S>,
    t: S,
    p: Option<RayResult<S>>,
    q: Option<RayResult<S>>,
)
    requires
        is_march::<S, M, C, O>(object, math, origin, dir, backplanes, t, p),
        is_march::<S, M, C, O>(object, math, origin, dir, backplanes, t, q),
        crate::scene_object::is_function::<S, M, C, O>(object, math),
        crate::number::is_exact::<S>(),
    ensures
        p == q,
{
    let (za, ta, a, fa) = choose|
        zero: S,
        threshold: S,
        course: Seq<Probe<S>>,
        findings: Seq<Finding>,
    |
        crate::number::is_whole(0, zero) && is_hit_threshold(threshold) && #[trigger] is_course::<
            S,
            M,
            C,
            O,
        >(object, math, origin, dir, t, zero, threshold, backplanes, course, findings) && p
            == hit_of(course, findings);
    let (zb, tb, b, fb) = choose|
        zero: S,
        threshold: S,
        course: Seq<Probe<S>>,
        findings: Seq<Finding>,
    |
        crate::number::is_whole(0, zero) && is_hit_threshold(threshold) && #[trigger] is_course::<
            S,
            M,
            C,
            O,
        >(object, math, origin, dir, t, zero, threshold, backplanes, course, findings) && q
            == hit_of(course, findings);
    assert(za == zb);
    crate::number::lemma_ratio_is_unique(1, HIT_THRESHOLD_PARTS, ta, tb);
    if a.len() < b.len() {
        lemma_courses_agree::<S, M, C, O>(
            object,
            math,
            origin,
            dir,
            t,
            za,
            ta,
            backplanes,
            a,
            fa,
            b,
            fb,
            a.len() - 1,
        );
        assert(verdict_at(fb, a.len() - 1) == Verdict::Continue);
        assert(verdict_at(fa, a.len() - 1) == verdict_at(fb, a.len() - 1));
    } else if b.len() < a.len() {
        lemma_courses_agree::<S, M, C, O>(
            object,
            math,
            origin,
            dir,
            t,
            za,
            ta,
            backplanes,
            a,
            fa,
            b,
            fb,
            b.len() - 1,
        );
        assert(verdict_at(fa, b.len() - 1) == Verdict::Continue);
        assert(verdict_at(fa, b.len() - 1) == verdict_at(fb, b.len() - 1));
    }
    lemma_courses_agree::<S, M, C, O>(
        object,
        math,
        origin,
        dir,
        t,
        za,
        ta,
        backplanes,
        a,
        fa,
        b,
        fb,
        a.len() - 1,
    );
}

/// A ray has one outcome where the object gives one answer for its distance
/// and each operation of the numbers gives one result: casting it again
/// finds the same.
pub proof fn lemma_cast_is_unique<S: Number, M: Math<S>, C, O: SceneObject<S, M, C>>(
    object: O,
    math: M,
    point: Vec3<S>,
    dir: Vec3<S>,
    backplanes: Vec3<S>,
    t: S,
    p: Result<Option<RayResult<S>>, ZeroMagnitude>,
    q: Result<Option<RayResult<S>>, ZeroMagnitude>,
)
    requires
        is_cast::<S, M, C, O>(object, math, point, dir, backplanes, t, p),
        is_cast::<S, M, C, O>(object, math, point, dir, backplanes, t, q),
        crate::scene_object::is_function::<S, M, C, O>(object, math),
        crate::number::is_exact::<S>(),
        crate::number::is_exact_math(math),
    ensures
        p == q,
{
    let ua = choose|unit: Option<Vec3<S>>| #[trigger]
        crate::vec3::is_normalized(math, dir, unit) && match unit {
            None => p is Err,
            Some(u) => p is Ok && is_march::<S, M, C, O>(
                object,
                math,
                point,
                u,
                backplanes,
                t,
                p->Ok_0,
            ),
        };
    let ub = choose|unit: Option<Vec3<S>>| #[trigger]
        crate::vec3::is_normalized(math, dir, unit) && match unit {
            None => q is Err,
            Some(u) => q is Ok && is_march::<S, M, C, O>(
                object,
                math,
                point,
                u,
                backplanes,
                t,
                q->Ok_0,
            ),
        };
    crate::vec3::lemma_normalized_is_unique(math, dir, ua, ub);
    match ua {
        None => {
            assert(p->Err_0 == q->Err_0);
        },
        Some(u) => {
            lemma_march_is_unique::<S, M, C, O>(
                object,
                math,
                point,
                u,
                backplanes,
                t,
                p->Ok_0,
                q->Ok_0,
            );
        },
    }
}

/// Marches a ray from `origin` along the unit vector `dir` until it is
/// decided.
fn march<S: Number, M: Math<S>, C, O: SceneObject<S, M, C>>(
    object: &O,
    math: &M,
    origin: Vec3<S>,
    dir: Vec3<S>,
    backplanes: Vec3<S>,
    t: S,
) -> (hit: Option<RayResult<S>>)
    requires
        crate::number::is_total::<S>(),
    ensures
        is_march::<S, M, C, O>(*object, *math, origin, dir, backplanes, t, hit),
{
    let threshold: S = ratio(1, HIT_THRESHOLD_PARTS);
    let zero = S::from(0u32);
    let mut march = March::new();
    let mut current_point = origin;
    let mut ray_len = zero;
    let ghost mut course: Seq<Probe<S>> = Seq::empty();
    let ghost mut findings: Seq<Finding> = Seq::empty();
    loop
        invariant
            crate::number::is_total::<S>(),
            crate::number::is_whole(0, zero),
            is_hit_threshold(threshold),
            course.len() == march.taken(),
            findings.len() == course.len(),
            march.taken() <= MAX_STEPS,
            course.len() == 0 ==> current_point == origin && ray_len == zero,
            course.len() > 0 ==> current_point == course.last().point && ray_len
                == course.last().len && is_probe::<S, M, C, O>(
                *object,
                *math,
                origin,
                dir,
                t,
                zero,
                origin,
                course[0],
            ),
            forall|i: int|
                0 <= i < course.len() - 1 ==> is_probe::<S, M, C, O>(
                    *object,
                    *math,
                    origin,
                    dir,
                    t,
                    course[i].len,
                    course[i].point,
                    #[trigger] course[i + 1],
                ),
            forall|i: int|
                0 <= i < course.len() ==> is_finding(
                    threshold,
                    backplanes,
                    course[i],
                    #[trigger] findings[i],
                ),
            forall|i: int| 0 <= i < course.len() ==> #[trigger] verdict_at(findings, i) == Verdict::Continue,
        decreases MAX_STEPS + 1 - march.taken(),
    {
        let ghost course_before = course;
        let ghost findings_before = findings;
        let ghost len_before = ray_len;
        let ghost point_before = current_point;
        let radius = object.distance_to(math, current_point, t);
        ray_len = ray_len + radius;
        let along = dir.scaled(ray_len);
        current_point = origin.plus(along);
        let close = radius.lt(&threshold);
        let out = outside(current_point, backplanes);
        let verdict = march.step(close, out);
        proof {
            let probe = Probe { radius, len: ray_len, point: current_point };
            let finding = Finding { close, outside: out };
            assert(crate::vec3::is_scaled(dir, ray_len, along) && crate::vec3::is_vec_sum(
                origin,
                along,
                current_point,
            ));
            assert(is_point_at(origin, dir, ray_len, current_point));
            assert(crate::scene_object::is_distance::<S, M, C, O>(
                *object,
                *math,
                point_before,
                t,
                radius,
            ));
            assert(is_probe::<S, M, C, O>(
                *object,
                *math,
                origin,
                dir,
                t,
                len_before,
                point_before,
                probe,
            ));
            course = course_before.push(probe);
            findings = findings_before.push(finding);
            assert(is_finding(threshold, backplanes, probe, finding));
            assert forall|i: int| 0 <= i < course.len() - 1 implies #[trigger] verdict_at(
                findings,
                i,
            ) == Verdict::Continue by {
                assert(findings[i] == findings_before[i]);
                assert(verdict_at(findings_before, i) == Verdict::Continue);
            }
            assert forall|i: int| 0 <= i < course.len() - 1 implies is_probe::<S, M, C, O>(
                *object,
                *math,
                origin,
                dir,
                t,
                course[i].len,
                course[i].point,
                #[trigger] course[i + 1],
            ) by {
                assert(course[i] == course_before[i]);
                if i < course_before.len() - 1 {
                    assert(course[i + 1] == course_before[i + 1]);
                }
            }
            assert forall|i: int| 0 <= i < course.len() implies is_finding(
                threshold,
                backplanes,
                course[i],
                #[trigger] findings[i],
            ) by {
                if i < course_before.len() {
                    assert(course[i] == course_before[i]);
                    assert(findings[i] == findings_before[i]);
                }
            }
            assert(verdict_at(findings, course.len() - 1) == verdict);
            assert(is_probe::<S, M, C, O>(*object, *math, origin, dir, t, zero, origin, course[0]))
                by {
                if course_before.len() > 0 {
                    assert(course[0] == course_before[0]);
                }
            }
        }
        match verdict {
            Verdict::Hit => {
                proof {
                    assert(is_course::<S, M, C, O>(
                        *object,
                        *math,
                        origin,
                        dir,
                        t,
                        zero,
                        threshold,
                        backplanes,
                        course,
                        findings,
                    ));
                }
                return Some(RayResult { len: ray_len, hit_point: current_point });
            },
            Verdict::Miss => {
                proof {
                    assert(is_course::<S, M, C, O>(
                        *object,
                        *math,
                        origin,
                        dir,
                        t,
                        zero,
                        threshold,
                        backplanes,
                        course,
                        findings,
                    ));
                }
                return None;
            },
            Verdict::Continue => {},
        }
    }
}

/// Performs the ray marching algorithm on a scene.
///
/// * `object`: the object to find the ray's intersection with
/// * `point`: the origin of the ray
/// * `dir`: the direction of the ray; it need not have a magnitude of one
/// * `backplanes`: for each axis the distance of the back culling plane from
///   the origin of the scene; a ray that gets outside the box between the
///   planes counts as a miss
/// * `t`: the varied parameter of an animation, handed on to the object
///
/// Gives `Ok(Some(..))` with the length of the ray and the point of the hit
/// if the ray hit the object, `Ok(None)` if it missed, and the error if
/// `dir` has a magnitude of zero.
pub fn cast_ray<S: Number, M: Math<S>, C, O: SceneObject<S, M, C>>(
    object: &O,
    math: &M,
    point: Vec3<S>,
    dir: Vec3<S>,
    backplanes: Vec3<S>,
    t: S,
) -> (outcome: Result<Option<RayResult<S>>, ZeroMagnitude>)
    requires
        crate::number::is_total::<S>(),
    ensures
        is_cast::<S, M, C, O>(*object, *math, point, dir, backplanes, t, outcome),
{
    match dir.normalized(math) {
        None => Err(ZeroMagnitude),
        Some(unit) => Ok(march(object, math, point, unit, backplanes, t)),
    }
}

} // verus!
