//! The lighting of a hit and the colour of a lit surface.
//!
//! The lighting at a hit point has a diffuse term, the dot product of the
//! normal of the surface and the direction to the light, and a specular
//! term, the dot product of the reflected light and the direction to the
//! viewer, raised to the power of the shininess. The normal is taken a
//! little way back along the ray, so that the surface itself is not in the
//! way.
//!
//! A surface has a colour of its own and shows a highlight of the colour of
//! the light. Under a lighting its colour is its own colour times the diffuse
//! term plus the highlight colour times the specular term. The diffuse term
//! is taken as it comes, negative too. The specular term counts only where
//! the light is reflected toward the viewer; elsewhere zero stands in for
//! it, whatever it is.

use crate::color::Color;
use crate::number::{ratio, Math, Number};
use crate::ray::ZeroMagnitude;
use crate::scene_object::SceneObject;
use crate::vec3::Vec3;
use vstd::prelude::*;

verus! {

/// The lighting at a hit point.
pub struct Lighting<S> {
    /// The diffuse term: the weight of the surface's own colour.
    pub diffuse: S,
    /// The specular term: the weight of the highlight colour.
    pub specular: S,
    /// How far the reflected light goes toward the viewer: the cosine of the
    /// angle between the two directions. The specular term counts where
    /// this is greater than zero.
    pub toward_viewer: S,
}

/// Whether `weight` is a weight that the highlight colour can have under
/// `lighting`: the specular term where the numbers find `toward_viewer`
/// greater than zero, else zero.
pub open spec fn is_specular_weight<S: Number>(lighting: Lighting<S>, weight: S) -> bool {
    exists|zero: S, counts: bool|
        #![trigger crate::number::is_greater(lighting.toward_viewer, zero, counts)]
        crate::number::is_whole(0, zero) && crate::number::is_greater(
            lighting.toward_viewer,
            zero,
            counts,
        ) && weight == (if counts {
            lighting.specular
        } else {
            zero
        })
}

/// Whether `color` is `base` times the diffuse term plus `highlight` times
/// its weight under `lighting`, as the colour's operators give them.
pub open spec fn is_shade<S: Number, C: Color<S>>(
    base: C,
    lighting: Lighting<S>,
    highlight: C,
    color: C,
) -> bool {
    exists|weight: S, lit: C, shine: C|
        #![trigger is_specular_weight(lighting, weight), crate::color::adds_to::<S, C>(lit, shine, color)]
        is_specular_weight(lighting, weight) && crate::color::scales_to(
            base,
            lighting.diffuse,
            lit,
        ) && crate::color::scales_to(highlight, weight, shine) && crate::color::adds_to::<S, C>(
            lit,
            shine,
            color,
        )
}

/// The weight of the highlight colour under `lighting`: the specular term
/// where the light is reflected toward the viewer, else zero.
pub fn specular_weight<S: Number>(lighting: &Lighting<S>) -> (weight: S)
    requires
        crate::number::is_total::<S>(),
    ensures
        is_specular_weight(*lighting, weight),
{
    let zero = S::from(0u32);
    let counts = lighting.toward_viewer.gt(&zero);
    assert(crate::number::is_greater(lighting.toward_viewer, zero, counts));
    if counts {
        lighting.specular
    } else {
        zero
    }
}

/// The colour of a lit surface: `base` times the diffuse term plus
/// `highlight` times the specular term, the specular term counting as zero
/// where the light is not reflected toward the viewer.
pub fn shade<S: Number, C: Color<S>>(base: C, lighting: Lighting<S>, highlight: C) -> (color: C)
    requires
        crate::number::is_total::<S>(),
        crate::color::is_total::<S, C>(),
    ensures
        is_shade(base, lighting, highlight, color),
{
    let weight = specular_weight(&lighting);
    let lit = base * lighting.diffuse;
    let shine = highlight * weight;
    let color = lit + shine;
    assert(crate::color::adds_to::<S, C>(lit, shine, color));
    color
}

/// The point at which the normal is taken lies one part in this many of the
/// ray's direction back from the hit point: one ten-millionth.
pub const NORMAL_BACKOFF_PARTS: u32 = 10_000_000;

/// Whether `to_light` is what can be had for the direction from `hit` to the
/// light at `light_pos`: their difference, brought to a magnitude of one.
pub open spec fn is_to_light<S: Number, M: Math<S>>(
    math: M,
    light_pos: Vec3<S>,
    hit: Vec3<S>,
    to_light: Option<Vec3<S>>,
) -> bool {
    exists|toward: Vec3<S>| #[trigger]
        crate::vec3::is_vec_difference(light_pos, hit, toward) && crate::vec3::is_normalized(
            math,
            toward,
            to_light,
        )
}

/// Whether `point` is a point that the numbers can give for `hit` backed off
/// along the ray: `hit` minus `dir` times one over
/// [`NORMAL_BACKOFF_PARTS`].
pub open spec fn is_backed_off<S: Number>(hit: Vec3<S>, dir: Vec3<S>, point: Vec3<S>) -> bool {
    exists|step: S, back: Vec3<S>|
        #![trigger crate::vec3::is_scaled(dir, step, back)]
        crate::number::is_ratio(1, NORMAL_BACKOFF_PARTS, step) && crate::vec3::is_scaled(
            dir,
            step,
            back,
        ) && crate::vec3::is_vec_difference(hit, back, point)
}

/// Whether `reflection` is what can be had for the direction of the light
/// that comes along `to_light` reversed and is reflected about `norm`: the
/// opposite of `to_light`, reflected about `norm`, brought to a magnitude of
/// one; nothing where the normal or the reflected vector has a magnitude of
/// zero.
pub open spec fn is_reflection<S: Number, M: Math<S>>(
    math: M,
    to_light: Vec3<S>,
    norm: Vec3<S>,
    reflection: Option<Vec3<S>>,
) -> bool {
    exists|from_light: Vec3<S>, reflected: Option<Vec3<S>>|
        #![trigger crate::vec3::is_vec_opposite(to_light, from_light), crate::vec3::is_reflected(math, from_light, norm, reflected)]
        crate::vec3::is_vec_opposite(to_light, from_light) && crate::vec3::is_reflected(
            math,
            from_light,
            norm,
            reflected,
        ) && match reflected {
            None => reflection is None,
            Some(r) => crate::vec3::is_normalized(math, r, reflection),
        }
}

/// Whether `view` is what can be had for the direction from `hit` to the
/// viewer at `camera_pos`: their difference, brought to a magnitude of one,
/// and that brought to a magnitude of one once more.
pub open spec fn is_view<S: Number, M: Math<S>>(
    math: M,
    camera_pos: Vec3<S>,
    hit: Vec3<S>,
    view: Option<Vec3<S>>,
) -> bool {
    exists|toward: Vec3<S>, once: Option<Vec3<S>>|
        #![trigger crate::vec3::is_vec_difference(camera_pos, hit, toward), crate::vec3::is_normalized(math, toward, once)]
        crate::vec3::is_vec_difference(camera_pos, hit, toward) && crate::vec3::is_normalized(
            math,
            toward,
            once,
        ) && match once {
            None => view is None,
            Some(v) => crate::vec3::is_normalized(math, v, view),
        }
}

/// Whether `lighting` holds the terms that can be had for the four
/// directions at a hit: the diffuse term is the dot product of the normal
/// and the direction to the light; how far the reflected light goes toward
/// the viewer is the dot product of those two directions; and the specular
/// term is that to the power of `shininess`.
pub open spec fn is_terms<S: Number, M: Math<S>>(
    math: M,
    shininess: S,
    norm: Vec3<S>,
    to_light: Vec3<S>,
    reflection: Vec3<S>,
    view: Vec3<S>,
    lighting: Lighting<S>,
) -> bool {
    &&& crate::vec3::is_dot(norm, to_light, lighting.diffuse)
    &&& crate::vec3::is_dot(reflection, view, lighting.toward_viewer)
    &&& crate::number::is_power(math, lighting.toward_viewer, shininess, lighting.specular)
}

/// Whether `lighting` is what can be had for the lighting at a hit once the
/// direction to the viewer is `view`, or is missing: the error where it is
/// missing, else the terms of the four directions.
pub open spec fn is_seen<S: Number, M: Math<S>>(
    math: M,
    shininess: S,
    to_light: Vec3<S>,
    norm: Vec3<S>,
    reflection: Vec3<S>,
    view: Option<Vec3<S>>,
    lighting: Result<Lighting<S>, ZeroMagnitude>,
) -> bool {
    match view {
        None => lighting is Err,
        Some(v) => lighting is Ok && is_terms(
            math,
            shininess,
            norm,
            to_light,
            reflection,
            v,
            lighting->Ok_0,
        ),
    }
}

/// Whether `lighting` is what can be had for the lighting at `hit` once the
/// reflection of the light is `reflection`, or is missing: the error where
/// it is missing; else the direction to the viewer is found, and the
/// lighting is what can be had with it.
pub open spec fn is_lit_by<S: Number, M: Math<S>>(
    math: M,
    camera_pos: Vec3<S>,
    shininess: S,
    hit: Vec3<S>,
    to_light: Vec3<S>,
    norm: Vec3<S>,
    reflection: Option<Vec3<S>>,
    lighting: Result<Lighting<S>, ZeroMagnitude>,
) -> bool {
    match reflection {
        None => lighting is Err,
        Some(r) => exists|view: Option<Vec3<S>>| #[trigger]
            is_view(math, camera_pos, hit, view) && is_seen(
                math,
                shininess,
                to_light,
                norm,
                r,
                view,
                lighting,
            ),
    }
}

/// Whether `lighting` is what can be had for the lighting at `hit` once the
/// normal is `norm`, or is missing: the error where it is missing; else the
/// reflection of the light is found, and the lighting is what can be had
/// with it.
pub open spec fn is_lit_about<S: Number, M: Math<S>>(
    math: M,
    camera_pos: Vec3<S>,
    shininess: S,
    hit: Vec3<S>,
    to_light: Vec3<S>,
    norm: Option<Vec3<S>>,
    lighting: Result<Lighting<S>, ZeroMagnitude>,
) -> bool {
    match norm {
        None => lighting is Err,
        Some(n) => exists|reflection: Option<Vec3<S>>| #[trigger]
            is_reflection(math, to_light, n, reflection) && is_lit_by(
                math,
                camera_pos,
                shininess,
                hit,
                to_light,
                n,
                reflection,
                lighting,
            ),
    }
}

/// Whether `lighting` is what can be had for the lighting at `hit` once the
/// direction to the light is `to_light`, or is missing: the error where it
/// is missing; else the normal of the object is found at the point backed
/// off along the ray, and the lighting is what can be had with it.
pub open spec fn is_lit_from<S: Number, M: Math<S>, C, O: SceneObject<S, M, C>>(
    object: O,
    math: M,
    camera_pos: Vec3<S>,
    shininess: S,
    hit: Vec3<S>,
    dir: Vec3<S>,
    t: S,
    to_light: Option<Vec3<S>>,
    lighting: Result<Lighting<S>, ZeroMagnitude>,
) -> bool {
    match to_light {
        None => lighting is Err,
        Some(l) => exists|point: Vec3<S>, norm: Option<Vec3<S>>|
            #![trigger is_backed_off(hit, dir, point), crate::scene_object::is_normal::<S, M, C, O>(object, math, point, t, norm)]
            is_backed_off(hit, dir, point) && crate::scene_object::is_normal::<S, M, C, O>(
                object,
                math,
                point,
                t,
                norm,
            ) && is_lit_about(math, camera_pos, shininess, hit, l, norm, lighting),
    }
}

/// Whether `lighting` is what can be had for the lighting at the hit point
/// `hit` of a ray that came along `dir`: first the direction to the light,
/// then the normal of the object at the point backed off along the ray,
/// then the reflection of the light, then the direction to the viewer, and
/// of these the terms; the error as soon as one of them has no direction.
pub open spec fn is_lighting<S: Number, M: Math<S>, C, O: SceneObject<S, M, C>>(
    object: O,
    math: M,
    light_pos: Vec3<S>,
    camera_pos: Vec3<S>,
    shininess: S,
    hit: Vec3<S>,
    dir: Vec3<S>,
    t: S,
    lighting: Result<Lighting<S>, ZeroMagnitude>,
) -> bool {
    exists|to_light: Option<Vec3<S>>| #[trigger]
        is_to_light(math, light_pos, hit, to_light) && is_lit_from::<S, M, C, O>(
            object,
            math,
            camera_pos,
            shininess,
            hit,
            dir,
            t,
            to_light,
            lighting,
        )
}

/// The direction of the reflected light.
fn reflection<S: Number, M: Math<S>>(math: &M, to_light: Vec3<S>, norm: Vec3<S>) -> (reflection: Option<
    Vec3<S>,
>)
    requires
        crate::number::is_total::<S>(),
    ensures
        is_reflection(*math, to_light, norm, reflection),
{
    let from_light = to_light.negated();
    let reflected = from_light.reflect(norm, math);
    assert(crate::vec3::is_vec_opposite(to_light, from_light) && crate::vec3::is_reflected(
        *math,
        from_light,
        norm,
        reflected,
    ));
    match reflected {
        None => None,
        Some(r) => r.normalized(math),
    }
}

/// The direction to the viewer.
fn view<S: Number, M: Math<S>>(math: &M, camera_pos: Vec3<S>, hit: Vec3<S>) -> (view: Option<Vec3<S>>)
    requires
        crate::number::is_total::<S>(),
    ensures
        is_view(*math, camera_pos, hit, view),
{
    let toward = camera_pos.minus(hit);
    let once = toward.normalized(math);
    assert(crate::vec3::is_vec_difference(camera_pos, hit, toward) && crate::vec3::is_normalized(
        *math,
        toward,
        once,
    ));
    match once {
        None => None,
        Some(v) => v.normalized(math),
    }
}

/// The lighting at the hit point `hit` of a ray that came along `dir`, for a
/// light at `light_pos` and a viewer at `camera_pos`. The error where the
/// light or the viewer sits on the hit point, or the object has no normal
/// there, so that a direction is missing.
pub fn lighting_at<S: Number, M: Math<S>, C, O: SceneObject<S, M, C>>(
    object: &O,
    math: &M,
    light_pos: Vec3<S>,
    camera_pos: Vec3<S>,
    shininess: S,
    hit: Vec3<S>,
    dir: Vec3<S>,
    t: S,
) -> (lighting: Result<Lighting<S>, ZeroMagnitude>)
    requires
        crate::number::is_total::<S>(),
    ensures
        is_lighting::<S, M, C, O>(
            *object,
            *math,
            light_pos,
            camera_pos,
            shininess,
            hit,
            dir,
            t,
            lighting,
        ),
{
    let toward = light_pos.minus(hit);
    let to_light = toward.normalized(math);
    assert(is_to_light(*math, light_pos, hit, to_light));
    match to_light {
        None => Err(ZeroMagnitude),
        Some(l) => {
            let step: S = ratio(1, NORMAL_BACKOFF_PARTS);
            let back = dir.scaled(step);
            let point = hit.minus(back);
            assert(crate::vec3::is_scaled(dir, step, back));
            assert(is_backed_off(hit, dir, point));
            let norm = object.normal(math, point, t);
            assert(is_backed_off(hit, dir, point) && crate::scene_object::is_normal::<S, M, C, O>(
                *object,
                *math,
                point,
                t,
                norm,
            ));
            match norm {
                None => Err(ZeroMagnitude),
                Some(n) => {
                    let diffuse = n.dot(l);
                    let reflection = reflection(math, l, n);
                    match reflection {
                        None => Err(ZeroMagnitude),
                        Some(r) => {
                            let view = view(math, camera_pos, hit);
                            match view {
                                None => Err(ZeroMagnitude),
                                Some(v) => {
                                    let toward_viewer = r.dot(v);
                                    let specular = math.powf(toward_viewer, shininess);
                                    let lighting = Lighting { diffuse, specular, toward_viewer };
                                    assert(is_terms(*math, shininess, n, l, r, v, lighting));
                                    Ok(lighting)
                                },
                            }
                        },
                    }
                },
            }
        },
    }
}

/// The highlight colour has one weight under a lighting where each operation
/// of the numbers gives one result.
pub proof fn lemma_specular_weight_is_unique<S: Number>(lighting: Lighting<S>, a: S, b: S)
    requires
        is_specular_weight(lighting, a),
        is_specular_weight(lighting, b),
        crate::number::is_exact::<S>(),
    ensures
        a == b,
{
    let (zero_a, counts_a) = choose|zero: S, counts: bool|
        #![trigger crate::number::is_greater(lighting.toward_viewer, zero, counts)]
        crate::number::is_whole(0, zero) && crate::number::is_greater(
            lighting.toward_viewer,
            zero,
            counts,
        ) && a == (if counts {
            lighting.specular
        } else {
            zero
        });
    let (zero_b, counts_b) = choose|zero: S, counts: bool|
        #![trigger crate::number::is_greater(lighting.toward_viewer, zero, counts)]
        crate::number::is_whole(0, zero) && crate::number::is_greater(
            lighting.toward_viewer,
            zero,
            counts,
        ) && b == (if counts {
            lighting.specular
        } else {
            zero
        });
    assert(zero_a == zero_b);
    assert(counts_a == counts_b);
}

/// A lit surface has one colour where the operators of the colour and of the
/// numbers each give one result.
pub proof fn lemma_shade_is_unique<S: Number, C: Color<S>>(
    base: C,
    lighting: Lighting<S>,
    highlight: C,
    a: C,
    b: C,
)
    requires
        is_shade(base, lighting, highlight, a),
        is_shade(base, lighting, highlight, b),
        crate::number::is_exact::<S>(),
        crate::color::is_exact::<S, C>(),
    ensures
        a == b,
{
    let (weight_a, lit_a, shine_a) = choose|weight: S, lit: C, shine: C|
        #![trigger is_specular_weight(lighting, weight), crate::color::adds_to::<S, C>(lit, shine, a)]
        is_specular_weight(lighting, weight) && crate::color::scales_to(
            base,
            lighting.diffuse,
            lit,
        ) && crate::color::scales_to(highlight, weight, shine) && crate::color::adds_to::<S, C>(
            lit,
            shine,
            a,
        );
    let (weight_b, lit_b, shine_b) = choose|weight: S, lit: C, shine: C|
        #![trigger is_specular_weight(lighting, weight), crate::color::adds_to::<S, C>(lit, shine, b)]
        is_specular_weight(lighting, weight) && crate::color::scales_to(
            base,
            lighting.diffuse,
            lit,
        ) && crate::color::scales_to(highlight, weight, shine) && crate::color::adds_to::<S, C>(
            lit,
            shine,
            b,
        );
    lemma_specular_weight_is_unique(lighting, weight_a, weight_b);
    assert(lit_a == lit_b);
    assert(shine_a == shine_b);
}

/// A hit has one direction to the light where each operation of the
/// numbers and of `math` gives one result.
pub proof fn lemma_to_light_is_unique<S: Number, M: Math<S>>(
    math: M,
    light_pos: Vec3<S>,
    hit: Vec3<S>,
    p: Option<Vec3<S>>,
    q: Option<Vec3<S>>,
)
    requires
        is_to_light(math, light_pos, hit, p),
        is_to_light(math, light_pos, hit, q),
        crate::number::is_exact::<S>(),
        crate::number::is_exact_math(math),
    ensures
        p == q,
{
    let a = choose|toward: Vec3<S>| #[trigger]
        crate::vec3::is_vec_difference(light_pos, hit, toward) && crate::vec3::is_normalized(
            math,
            toward,
            p,
        );
    let b = choose|toward: Vec3<S>| #[trigger]
        crate::vec3::is_vec_difference(light_pos, hit, toward) && crate::vec3::is_normalized(
            math,
            toward,
            q,
        );
    assert(a.x == b.x && a.y == b.y && a.z == b.z);
    crate::vec3::lemma_normalized_is_unique(math, a, p, q);
}

/// A hit has one point backed off along its ray where each operation of the
/// numbers gives one result.
pub proof fn lemma_backed_off_is_unique<S: Number>(hit: Vec3<S>, dir: Vec3<S>, p: Vec3<S>, q: Vec3<S>)
    requires
        is_backed_off(hit, dir, p),
        is_backed_off(hit, dir, q),
        crate::number::is_exact::<S>(),
    ensures
        p == q,
{
    let (sa, ba) = choose|step: S, back: Vec3<S>|
        #![trigger crate::vec3::is_scaled(dir, step, back)]
        crate::number::is_ratio(1, NORMAL_BACKOFF_PARTS, step) && crate::vec3::is_scaled(
            dir,
            step,
            back,
        ) && crate::vec3::is_vec_difference(hit, back, p);
    let (sb, bb) = choose|step: S, back: Vec3<S>|
        #![trigger crate::vec3::is_scaled(dir, step, back)]
        crate::number::is_ratio(1, NORMAL_BACKOFF_PARTS, step) && crate::vec3::is_scaled(
            dir,
            step,
            back,
        ) && crate::vec3::is_vec_difference(hit, back, q);
    crate::number::lemma_ratio_is_unique(1, NORMAL_BACKOFF_PARTS, sa, sb);
    assert(ba.x == bb.x && ba.y == bb.y && ba.z == bb.z);
    assert(p.x == q.x && p.y == q.y && p.z == q.z);
}

/// The light has one reflection about a normal, or none, where each
/// operation of the numbers and of `math` gives one result.
pub proof fn lemma_reflection_is_unique<S: Number, M: Math<S>>(
    math: M,
    to_light: Vec3<S>,
    norm: Vec3<S>,
    p: Option<Vec3<S>>,
    q: Option<Vec3<S>>,
)
    requires
        is_reflection(math, to_light, norm, p),
        is_reflection(math, to_light, norm, q),
        crate::number::is_exact::<S>(),
        crate::number::is_exact_math(math),
    ensures
        p == q,
{
    let (fa, ra) = choose|from_light: Vec3<S>, reflected: Option<Vec3<S>>|
        #![trigger crate::vec3::is_vec_opposite(to_light, from_light), crate::vec3::is_reflected(math, from_light, norm, reflected)]
        crate::vec3::is_vec_opposite(to_light, from_light) && crate::vec3::is_reflected(
            math,
            from_light,
            norm,
            reflected,
        ) && match reflected {
            None => p is None,
            Some(r) => crate::vec3::is_normalized(math, r, p),
        };
    let (fb, rb) = choose|from_light: Vec3<S>, reflected: Option<Vec3<S>>|
        #![trigger crate::vec3::is_vec_opposite(to_light, from_light), crate::vec3::is_reflected(math, from_light, norm, reflected)]
        crate::vec3::is_vec_opposite(to_light, from_light) && crate::vec3::is_reflected(
            math,
            from_light,
            norm,
            reflected,
        ) && match reflected {
            None => q is None,
            Some(r) => crate::vec3::is_normalized(math, r, q),
        };
    assert(fa.x == fb.x && fa.y == fb.y && fa.z == fb.z);
    crate::vec3::lemma_reflected_is_unique(math, fa, norm, ra, rb);
    if ra is Some {
        crate::vec3::lemma_normalized_is_unique(math, ra->0, p, q);
    }
}

/// A hit has one direction to the viewer, or none, where each operation of
/// the numbers and of `math` gives one result.
pub proof fn lemma_view_is_unique<S: Number, M: Math<S>>(
    math: M,
    camera_pos: Vec3<S>,
    hit: Vec3<S>,
    p: Option<Vec3<S>>,
    q: Option<Vec3<S>>,
)
    requires
        is_view(math, camera_pos, hit, p),
        is_view(math, camera_pos, hit, q),
        crate::number::is_exact::<S>(),
        crate::number::is_exact_math(math),
    ensures
        p == q,
{
    let (ta, oa) = choose|toward: Vec3<S>, once: Option<Vec3<S>>|
        #![trigger crate::vec3::is_vec_difference(camera_pos, hit, toward), crate::vec3::is_normalized(math, toward, once)]
        crate::vec3::is_vec_difference(camera_pos, hit, toward) && crate::vec3::is_normalized(
            math,
            toward,
            once,
        ) && match once {
            None => p is None,
            Some(v) => crate::vec3::is_normalized(math, v, p),
        };
    let (tb, ob) = choose|toward: Vec3<S>, once: Option<Vec3<S>>|
        #![trigger crate::vec3::is_vec_difference(camera_pos, hit, toward), crate::vec3::is_normalized(math, toward, once)]
        crate::vec3::is_vec_difference(camera_pos, hit, toward) && crate::vec3::is_normalized(
            math,
            toward,
            once,
        ) && match once {
            None => q is None,
            Some(v) => crate::vec3::is_normalized(math, v, q),
        };
    assert(ta.x == tb.x && ta.y == tb.y && ta.z == tb.z);
    crate::vec3::lemma_normalized_is_unique(math, ta, oa, ob);
    if oa is Some {
        crate::vec3::lemma_normalized_is_unique(math, oa->0, p, q);
    }
}

/// Four directions have one lighting where each operation of the numbers and
/// of `math` gives one result.
pub proof fn lemma_terms_are_unique<S: Number, M: Math<S>>(
    math: M,
    shininess: S,
    norm: Vec3<S>,
    to_light: Vec3<S>,
    reflection: Vec3<S>,
    view: Vec3<S>,
    p: Lighting<S>,
    q: Lighting<S>,
)
    requires
        is_terms(math, shininess, norm, to_light, reflection, view, p),
        is_terms(math, shininess, norm, to_light, reflection, view, q),
        crate::number::is_exact::<S>(),
        crate::number::is_exact_math(math),
    ensures
        p == q,
{
    crate::vec3::lemma_dot_is_unique(norm, to_light, p.diffuse, q.diffuse);
    crate::vec3::lemma_dot_is_unique(reflection, view, p.toward_viewer, q.toward_viewer);
}

/// A hit has one lighting, or the error, where the object gives one answer
/// for its normal and each operation of the numbers and of `math` gives one
/// result.
pub proof fn lemma_lighting_is_unique<S: Number, M: Math<S>, C, O: SceneObject<S, M, C>>(
    object: O,
    math: M,
    light_pos: Vec3<S>,
    camera_pos: Vec3<S>,
    shininess: S,
    hit: Vec3<S>,
    dir: Vec3<S>,
    t: S,
    p: Result<Lighting<S>, ZeroMagnitude>,
    q: Result<Lighting<S>, ZeroMagnitude>,
)
    requires
        is_lighting::<S, M, C, O>(object, math, light_pos, camera_pos, shininess, hit, dir, t, p),
        is_lighting::<S, M, C, O>(object, math, light_pos, camera_pos, shininess, hit, dir, t, q),
        crate::scene_object::is_function::<S, M, C, O>(object, math),
        crate::number::is_exact::<S>(),
        crate::number::is_exact_math(math),
    ensures
        p == q,
{
    let la = choose|to_light: Option<Vec3<S>>| #[trigger]
        is_to_light(math, light_pos, hit, to_light) && is_lit_from::<S, M, C, O>(
            object,
            math,
            camera_pos,
            shininess,
            hit,
            dir,
            t,
            to_light,
            p,
        );
    let lb = choose|to_light: Option<Vec3<S>>| #[trigger]
        is_to_light(math, light_pos, hit, to_light) && is_lit_from::<S, M, C, O>(
            object,
            math,
            camera_pos,
            shininess,
            hit,
            dir,
            t,
            to_light,
            q,
        );
    lemma_to_light_is_unique(math, light_pos, hit, la, lb);
    match la {
        None => {
            assert(p->Err_0 == q->Err_0);
        },
        Some(l) => {
            let (pa, na) = choose|point: Vec3<S>, norm: Option<Vec3<S>>|
                #![trigger is_backed_off(hit, dir, point), crate::scene_object::is_normal::<S, M, C, O>(object, math, point, t, norm)]
                is_backed_off(hit, dir, point) && crate::scene_object::is_normal::<S, M, C, O>(
                    object,
                    math,
                    point,
                    t,
                    norm,
                ) && is_lit_about::<S, M>(math, camera_pos, shininess, hit, l, norm, p);
            let (pb, nb) = choose|point: Vec3<S>, norm: Option<Vec3<S>>|
                #![trigger is_backed_off(hit, dir, point), crate::scene_object::is_normal::<S, M, C, O>(object, math, point, t, norm)]
                is_backed_off(hit, dir, point) && crate::scene_object::is_normal::<S, M, C, O>(
                    object,
                    math,
                    point,
                    t,
                    norm,
                ) && is_lit_about::<S, M>(math, camera_pos, shininess, hit, l, norm, q);
            lemma_backed_off_is_unique(hit, dir, pa, pb);
            assert(na == nb);
            match na {
                None => {
                    assert(p->Err_0 == q->Err_0);
                },
                Some(n) => {
                    let ra = choose|reflection: Option<Vec3<S>>| #[trigger]
                        is_reflection(math, l, n, reflection) && is_lit_by::<S, M>(
                            math,
                            camera_pos,
                            shininess,
                            hit,
                            l,
                            n,
                            reflection,
                            p,
                        );
                    let rb = choose|reflection: Option<Vec3<S>>| #[trigger]
                        is_reflection(math, l, n, reflection) && is_lit_by::<S, M>(
                            math,
                            camera_pos,
                            shininess,
                            hit,
                            l,
                            n,
                            reflection,
                            q,
                        );
                    lemma_reflection_is_unique(math, l, n, ra, rb);
                    match ra {
                        None => {
                            assert(p->Err_0 == q->Err_0);
                        },
                        Some(r) => {
                            let va = choose|view: Option<Vec3<S>>| #[trigger]
                                is_view(math, camera_pos, hit, view) && is_seen::<S, M>(
                                    math,
                                    shininess,
                                    l,
                                    n,
                                    r,
                                    view,
                                    p,
                                );
                            let vb = choose|view: Option<Vec3<S>>| #[trigger]
                                is_view(math, camera_pos, hit, view) && is_seen::<S, M>(
                                    math,
                                    shininess,
                                    l,
                                    n,
                                    r,
                                    view,
                                    q,
                                );
                            lemma_view_is_unique(math, camera_pos, hit, va, vb);
                            match va {
                                None => {
                                    assert(p->Err_0 == q->Err_0);
                                },
                                Some(v) => {
                                    lemma_terms_are_unique(
                                        math,
                                        shininess,
                                        n,
                                        l,
                                        r,
                                        v,
                                        p->Ok_0,
                                        q->Ok_0,
                                    );
                                },
                            }
                        },
                    }
                },
            }
        },
    }
}

} // verus!
