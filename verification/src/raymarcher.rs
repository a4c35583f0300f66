//! The renderer: from a pixel to its colour.
//!
//! A pixel is traced as a grid of subpixels (see [`crate::grid`]); its colour
//! is the mean of theirs. A subpixel is traced as one ray from the camera
//! (see [`crate::camera`] and [`crate::ray`]): a ray that misses has the
//! background colour, a ray that hits is lit (see [`crate::lighting`]),
//! with the configured colour of specular highlights.

pub use crate::camera::RayMarcherConfig;
use crate::color::Color;
use crate::grid::{offset, sample_count, subpixel};
use crate::lighting::{lighting_at, shade, Lighting};
use crate::number::{ratio, Math, Number};
use crate::ray::{cast_ray, RayResult, ZeroMagnitude};
use crate::scene_object::SceneObject;
use crate::vec3::Vec3;
use vstd::prelude::*;

verus! {

/// An object to render together with the configuration to render it under.
pub struct RayMarcher<S, C, O> {
    /// The object to render.
    pub object: O,
    /// The configuration to render it under.
    pub config: RayMarcherConfig<S, C>,
}

/// Whether `color` is what can be had for the colour of a hit once the
/// lighting is `lighting`, or has failed: the error where it has failed,
/// else the shade of the object's colour and the colour of specular
/// highlights under the lighting.
pub open spec fn is_shaded<S: Number, M: Math<S>, C: Color<S>, O: SceneObject<S, M, C>>(
    object: O,
    math: M,
    highlight: C,
    t: S,
    lighting: Result<Lighting<S>, ZeroMagnitude>,
    color: Result<C, ZeroMagnitude>,
) -> bool {
    match lighting {
        Err(_) => color is Err,
        Ok(l) => exists|base: C| #[trigger]
            crate::scene_object::is_color_of::<S, M, C, O>(object, math, t, base) && color is Ok
                && crate::lighting::is_shade(base, l, highlight, color->Ok_0),
    }
}

/// Whether `color` is what can be had for the colour of a hit at `hit` of a
/// ray that came along `dir`: the error where the lighting fails, else the
/// shade of the object's colour and the colour of specular highlights under
/// the lighting at the hit.
pub open spec fn is_lit<S: Number, M: Math<S>, C: Color<S>, O: SceneObject<S, M, C>>(
    object: O,
    math: M,
    config: RayMarcherConfig<S, C>,
    hit: Vec3<S>,
    dir: Vec3<S>,
    t: S,
    color: Result<C, ZeroMagnitude>,
) -> bool {
    exists|lighting: Result<Lighting<S>, ZeroMagnitude>| #[trigger]
        crate::lighting::is_lighting::<S, M, C, O>(
            object,
            math,
            config.light_pos,
            config.camera_pos,
            config.specular_shininess,
            hit,
            dir,
            t,
            lighting,
        ) && is_shaded::<S, M, C, O>(object, math, config.specular_color, t, lighting, color)
}

/// Whether `color` is what can be had for the colour of a ray that ended as
/// `cast` says: the error where the cast failed, the background colour
/// where the ray missed, and where it hit the colour of the hit.
pub open spec fn is_colored<S: Number, M: Math<S>, C: Color<S>, O: SceneObject<S, M, C>>(
    object: O,
    math: M,
    config: RayMarcherConfig<S, C>,
    dir: Vec3<S>,
    t: S,
    cast: Result<Option<RayResult<S>>, ZeroMagnitude>,
    color: Result<C, ZeroMagnitude>,
) -> bool {
    match cast {
        Err(_) => color is Err,
        Ok(None) => color == Ok::<C, ZeroMagnitude>(config.background_color),
        Ok(Some(hit)) => is_lit::<S, M, C, O>(object, math, config, hit.hit_point, dir, t, color),
    }
}

/// Whether `color` is what tracing a ray from `point` in the direction `dir`
/// can give: the error where the direction has a magnitude of zero, the
/// background colour where the ray misses, and where it hits the colour of
/// the hit.
pub open spec fn is_traced<S: Number, M: Math<S>, C: Color<S>, O: SceneObject<S, M, C>>(
    object: O,
    math: M,
    config: RayMarcherConfig<S, C>,
    point: Vec3<S>,
    dir: Vec3<S>,
    t: S,
    color: Result<C, ZeroMagnitude>,
) -> bool {
    exists|cast: Result<Option<RayResult<S>>, ZeroMagnitude>| #[trigger]
        crate::ray::is_cast::<S, M, C, O>(
            object,
            math,
            point,
            dir,
            config.backplane_positions,
            t,
            cast,
        ) && is_colored::<S, M, C, O>(object, math, config, dir, t, cast, color)
}

/// Whether `sample` is what can be had for a subpixel whose ray is `ray`, or
/// has failed: the error where it has failed, else what tracing the ray from
/// the camera can give.
pub open spec fn is_traced_along<S: Number, M: Math<S>, C: Color<S>, O: SceneObject<S, M, C>>(
    object: O,
    math: M,
    config: RayMarcherConfig<S, C>,
    t: S,
    ray: Result<Vec3<S>, ZeroMagnitude>,
    sample: Result<C, ZeroMagnitude>,
) -> bool {
    match ray {
        Err(_) => sample is Err,
        Ok(dir) => is_traced::<S, M, C, O>(object, math, config, config.camera_pos, dir, t, sample),
    }
}

/// Whether `at` is a value that can be had for the pixel coordinate of the
/// subpixels of index `i` of the pixel `n`, where `size` is the size of a
/// subpixel: the number for `n` plus the offset of `i`.
pub open spec fn is_subpixel_at<S: Number, M: Math<S>>(math: M, n: usize, size: S, i: u32, at: S) -> bool {
    exists|whole: S, part: S|
        #![trigger crate::number::is_sum(whole, part, at)]
        crate::number::is_count(math, n, whole) && crate::grid::is_offset(size, i, part)
            && crate::number::is_sum(whole, part, at)
}

/// Whether `sample` is what tracing the subpixel `(i, j)` of the pixel
/// `(x, y)` can give, where `size` is the size of a subpixel: the ray goes
/// through the pixel coordinates `x` plus the offset of `i` and `y` plus the
/// offset of `j`, and is traced from the camera.
pub open spec fn is_sample<S: Number, M: Math<S>, C: Color<S>, O: SceneObject<S, M, C>>(
    object: O,
    math: M,
    config: RayMarcherConfig<S, C>,
    x: usize,
    y: usize,
    t: S,
    size: S,
    i: u32,
    j: u32,
    sample: Result<C, ZeroMagnitude>,
) -> bool {
    exists|at_x: S, at_y: S, ray: Result<Vec3<S>, ZeroMagnitude>|
        #![trigger is_subpixel_at(math, x, size, i, at_x), is_subpixel_at(math, y, size, j, at_y), crate::camera::is_camera_ray(math, config, at_x, at_y, ray)]
        is_subpixel_at(math, x, size, i, at_x) && is_subpixel_at(math, y, size, j, at_y)
            && crate::camera::is_camera_ray(math, config, at_x, at_y, ray) && is_traced_along::<
            S,
            M,
            C,
            O,
        >(object, math, config, t, ray, sample)
}

/// Whether `samples` holds, each under the number of its subpixel, a colour
/// that tracing can give for the first subpixels of the pixel `(x, y)`, as
/// many as `samples` is long.
pub open spec fn are_first_samples<S: Number, M: Math<S>, C: Color<S>, O: SceneObject<S, M, C>>(
    object: O,
    math: M,
    config: RayMarcherConfig<S, C>,
    x: usize,
    y: usize,
    t: S,
    size: S,
    samples: Seq<C>,
) -> bool {
    &&& samples.len() <= crate::grid::grid_size(config.anti_aliasing_level as nat)
    &&& forall|i: u32, j: u32|
        i < config.anti_aliasing_level && j < config.anti_aliasing_level
            && crate::grid::index_of(config.anti_aliasing_level as nat, i as nat, j as nat)
            < samples.len() ==> is_sample::<S, M, C, O>(
            object,
            math,
            config,
            x,
            y,
            t,
            size,
            i,
            j,
            Ok(
                samples[#[trigger] crate::grid::index_of(
                    config.anti_aliasing_level as nat,
                    i as nat,
                    j as nat,
                ) as int],
            ),
        )
}

/// Whether `sums` holds the running sums of `samples`: a zero of the colour
/// first, and after each sample what the colour's addition can give for the
/// sum before it and the sample.
pub open spec fn are_running_sums<S, C: Color<S>>(samples: Seq<C>, sums: Seq<C>) -> bool {
    &&& sums.len() == samples.len() + 1
    &&& crate::color::is_zero::<S, C>(sums[0])
    &&& forall|k: int|
        0 <= k < samples.len() ==> crate::color::adds_to::<S, C>(
            sums[k],
            samples[k],
            #[trigger] sums[k + 1],
        )
}

/// Whether `weight` is a weight that makes a mean of the sum of the samples
/// of a grid of side `side`: what the numbers can give for one over the
/// square of the side.
pub open spec fn is_mean_weight<S: Number>(side: u32, weight: S) -> bool {
    exists|one: S, length: S, square: S|
        #![trigger crate::number::is_product(length, length, square), crate::number::is_quotient(one, square, weight)]
        crate::number::is_whole(1, one) && crate::number::is_whole(side, length)
            && crate::number::is_product(length, length, square) && crate::number::is_quotient(
            one,
            square,
            weight,
        )
}

/// Whether `mean` is what can be had for the mean of `samples`: their sum,
/// added up from the colour's zero in their order, times the weight of a
/// mean for a grid of side `side`.
pub open spec fn is_mean<S: Number, C: Color<S>>(side: u32, samples: Seq<C>, mean: C) -> bool {
    exists|sums: Seq<C>, weight: S|
        #![trigger are_running_sums::<S, C>(samples, sums), crate::color::scales_to(sums.last(), weight, mean)]
        are_running_sums::<S, C>(samples, sums) && is_mean_weight(side, weight)
            && crate::color::scales_to(sums.last(), weight, mean)
}

/// Whether the subpixel that follows `samples` in the order of the numbers
/// can fail: tracing it can give the error.
pub open spec fn has_failed<S: Number, M: Math<S>, C: Color<S>, O: SceneObject<S, M, C>>(
    object: O,
    math: M,
    config: RayMarcherConfig<S, C>,
    x: usize,
    y: usize,
    t: S,
    size: S,
    samples: Seq<C>,
) -> bool {
    exists|failure: Result<C, ZeroMagnitude>| #[trigger]
        is_sample::<S, M, C, O>(
            object,
            math,
            config,
            x,
            y,
            t,
            size,
            crate::grid::cell_of(config.anti_aliasing_level as nat, samples.len()).0 as u32,
            crate::grid::cell_of(config.anti_aliasing_level as nat, samples.len()).1 as u32,
            failure,
        ) && failure is Err
}

/// Whether `color` is what can be had for the colour of a pixel of which
/// `samples` are the samples that were taken: their mean where they are the
/// samples of all subpixels, else the error, the subpixel that follows them
/// having failed.
pub open spec fn is_pixel_of<S: Number, M: Math<S>, C: Color<S>, O: SceneObject<S, M, C>>(
    object: O,
    math: M,
    config: RayMarcherConfig<S, C>,
    x: usize,
    y: usize,
    t: S,
    size: S,
    samples: Seq<C>,
    color: Result<C, ZeroMagnitude>,
) -> bool {
    if samples.len() == crate::grid::grid_size(config.anti_aliasing_level as nat) {
        color is Ok && is_mean::<S, C>(config.anti_aliasing_level, samples, color->Ok_0)
    } else {
        color is Err && has_failed::<S, M, C, O>(object, math, config, x, y, t, size, samples)
    }
}

/// Whether `color` is what can be had for the colour of the pixel `(x, y)`:
/// its subpixels are traced in the order of their numbers, with a subpixel
/// size of one over the side of the grid; where one of them fails, that is
/// the error of the pixel and no more are traced; else the colour is the
/// mean of all their colours.
pub open spec fn is_pixel_color<S: Number, M: Math<S>, C: Color<S>, O: SceneObject<S, M, C>>(
    object: O,
    math: M,
    config: RayMarcherConfig<S, C>,
    x: usize,
    y: usize,
    t: S,
    color: Result<C, ZeroMagnitude>,
) -> bool {
    exists|size: S, samples: Seq<C>|
        #![trigger are_first_samples::<S, M, C, O>(object, math, config, x, y, t, size, samples)]
        crate::grid::is_subpixel_size(config.anti_aliasing_level, size) && are_first_samples::<
            S,
            M,
            C,
            O,
        >(object, math, config, x, y, t, size, samples) && is_pixel_of::<S, M, C, O>(
            object,
            math,
            config,
            x,
            y,
            t,
            size,
            samples,
            color,
        )
}

impl<S: Number, C: Color<S>, O> RayMarcher<S, C, O> {
    /// Traces a ray from `point` in the direction `dir`, works out the
    /// lighting where it hits, and gives its colour: the background colour
    /// for a miss, for a hit the object's colour times the diffuse term plus
    /// the colour of specular highlights times the specular term.
    pub fn trace_with_lighting<M: Math<S>>(&self, math: &M, point: Vec3<S>, dir: Vec3<S>, t: S) -> (color:
        Result<C, ZeroMagnitude>) where O: SceneObject<S, M, C>
        requires
            crate::number::is_total::<S>(),
            crate::color::is_total::<S, C>(),
        ensures
            is_traced::<S, M, C, O>(self.object, *math, self.config, point, dir, t, color),
    {
        let cast = cast_ray(&self.object, math, point, dir, self.config.backplane_positions, t);
        let color = match cast {
            Err(e) => Err(e),
            Ok(None) => Ok(self.config.background_color),
            Ok(Some(hit)) => {
                let lighting = lighting_at(
                    &self.object,
                    math,
                    self.config.light_pos,
                    self.config.camera_pos,
                    self.config.specular_shininess,
                    hit.hit_point,
                    dir,
                    t,
                );
                let color = match lighting {
                    Err(e) => Err(e),
                    Ok(l) => {
                        let base = self.object.get_color(math, t);
                        let color = shade(base, l, self.config.specular_color);
                        assert(crate::scene_object::is_color_of::<S, M, C, O>(
                            self.object,
                            *math,
                            t,
                            base,
                        ));
                        Ok(color)
                    },
                };
                assert(is_shaded::<S, M, C, O>(
                    self.object,
                    *math,
                    self.config.specular_color,
                    t,
                    lighting,
                    color,
                ));
                assert(is_lit::<S, M, C, O>(
                    self.object,
                    *math,
                    self.config,
                    hit.hit_point,
                    dir,
                    t,
                    color,
                ));
                color
            },
        };
        assert(is_colored::<S, M, C, O>(self.object, *math, self.config, dir, t, cast, color));
        color
    }

    /// Traces the subpixel `(i, j)` of the pixel `(x, y)`.
    fn sample<M: Math<S>>(&self, math: &M, x: usize, y: usize, t: S, size: S, i: u32, j: u32) -> (sample:
        Result<C, ZeroMagnitude>) where O: SceneObject<S, M, C>
        requires
            crate::number::is_total::<S>(),
            crate::color::is_total::<S, C>(),
        ensures
            is_sample::<S, M, C, O>(self.object, *math, self.config, x, y, t, size, i, j, sample),
    {
        let column = math.from_usize(x);
        let across = offset(size, i);
        let at_x = column + across;
        assert(crate::number::is_count(*math, x, column) && crate::number::is_sum(
            column,
            across,
            at_x,
        ));
        assert(is_subpixel_at(*math, x, size, i, at_x));
        let row = math.from_usize(y);
        let down = offset(size, j);
        let at_y = row + down;
        assert(crate::number::is_count(*math, y, row) && crate::number::is_sum(row, down, at_y));
        assert(is_subpixel_at(*math, y, size, j, at_y));
        let ray = self.config.camera_ray_direction(math, at_x, at_y);
        let sample = match ray {
            Err(e) => Err(e),
            Ok(dir) => self.trace_with_lighting(math, self.config.camera_pos, dir, t),
        };
        assert(is_traced_along::<S, M, C, O>(self.object, *math, self.config, t, ray, sample));
        assert(is_subpixel_at(*math, x, size, i, at_x) && is_subpixel_at(*math, y, size, j, at_y)
            && crate::camera::is_camera_ray(*math, self.config, at_x, at_y, ray));
        sample
    }

    /// The mean of the samples of a pixel whose sum is `sum`.
    fn mean(&self, sum: C, Ghost(samples): Ghost<Seq<C>>, Ghost(sums): Ghost<Seq<C>>) -> (mean: C)
        requires
            crate::number::is_total::<S>(),
            crate::color::is_total::<S, C>(),
            are_running_sums::<S, C>(samples, sums),
            sums.last() == sum,
        ensures
            is_mean::<S, C>(self.config.anti_aliasing_level, samples, mean),
    {
        let one = S::from(1u32);
        let length = S::from(self.config.anti_aliasing_level);
        let square = length * length;
        let weight = one / square;
        assert(crate::number::is_product(length, length, square) && crate::number::is_quotient(
            one,
            square,
            weight,
        ));
        assert(is_mean_weight(self.config.anti_aliasing_level, weight));
        let mean = sum * weight;
        assert(are_running_sums::<S, C>(samples, sums) && crate::color::scales_to(
            sums.last(),
            weight,
            mean,
        ));
        mean
    }

    /// Marches a ray for each subpixel of the pixel `(x, y)`, works out the
    /// lighting of each hit, and gives the colour of the pixel: the mean of
    /// the colours of its subpixels. `t` is the varied parameter of an
    /// animation.
    ///
    /// The error where a direction that the rendering needs has a magnitude
    /// of zero: the camera sits on the point it looks at or looks straight
    /// up or down, the light or the camera sits on a hit point, or the
    /// object has no normal at one.
    pub fn get_pixel_color<M: Math<S>>(&self, math: &M, x: usize, y: usize, t: S) -> (color: Result<
        C,
        ZeroMagnitude,
    >) where O: SceneObject<S, M, C>
        requires
            crate::number::is_total::<S>(),
            crate::color::is_total::<S, C>(),
        ensures
            is_pixel_color::<S, M, C, O>(self.object, *math, self.config, x, y, t, color),
    {
        let side: u32 = self.config.anti_aliasing_level;
        let size: S = ratio(1, side);
        let count: u64 = sample_count(side);
        let mut pixel_sum: C = C::default();
        let ghost mut samples: Seq<C> = Seq::empty();
        let ghost mut sums: Seq<C> = seq![pixel_sum];
        let mut k: u64 = 0;
        while k < count
            invariant
                crate::number::is_total::<S>(),
                crate::color::is_total::<S, C>(),
                side == self.config.anti_aliasing_level,
                crate::grid::is_subpixel_size(side, size),
                count == crate::grid::grid_size(side as nat),
                k <= count,
                samples.len() == k,
                sums.len() == k + 1,
                sums.last() == pixel_sum,
                are_first_samples::<S, M, C, O>(
                    self.object,
                    *math,
                    self.config,
                    x,
                    y,
                    t,
                    size,
                    samples,
                ),
                crate::color::is_zero::<S, C>(sums[0]),
                forall|n: int|
                    0 <= n < samples.len() ==> crate::color::adds_to::<S, C>(
                        sums[n],
                        samples[n],
                        #[trigger] sums[n + 1],
                    ),
            decreases count - k,
        {
            let ghost samples_before = samples;
            let ghost sums_before = sums;
            proof {
                crate::grid::lemma_cell_lies_in_grid(side as nat, k as nat);
            }
            match subpixel(side, k) {
                Some((i, j)) => {
                    let sample = self.sample(math, x, y, t, size, i, j);
                    match sample {
                        Err(e) => {
                            proof {
                                assert(crate::grid::cell_of(side as nat, samples.len()) == (
                                    i as nat,
                                    j as nat,
                                ));
                                assert(is_sample::<S, M, C, O>(
                                    self.object,
                                    *math,
                                    self.config,
                                    x,
                                    y,
                                    t,
                                    size,
                                    crate::grid::cell_of(side as nat, samples.len()).0 as u32,
                                    crate::grid::cell_of(side as nat, samples.len()).1 as u32,
                                    sample,
                                ) && sample is Err);
                                assert(are_first_samples::<S, M, C, O>(
                                    self.object,
                                    *math,
                                    self.config,
                                    x,
                                    y,
                                    t,
                                    size,
                                    samples,
                                ));
                            }
                            return Err(e);
                        },
                        Ok(c) => {
                            pixel_sum = pixel_sum + c;
                            proof {
                                samples = samples_before.push(c);
                                sums = sums_before.push(pixel_sum);
                                assert forall|a: u32, b: u32|
                                    a < side && b < side && crate::grid::index_of(
                                        side as nat,
                                        a as nat,
                                        b as nat,
                                    ) < samples.len() implies is_sample::<S, M, C, O>(
                                    self.object,
                                    *math,
                                    self.config,
                                    x,
                                    y,
                                    t,
                                    size,
                                    a,
                                    b,
                                    Ok(
                                        samples[#[trigger] crate::grid::index_of(
                                            side as nat,
                                            a as nat,
                                            b as nat,
                                        ) as int],
                                    ),
                                ) by {
                                    let n = crate::grid::index_of(side as nat, a as nat, b as nat);
                                    crate::grid::lemma_cell_has_a_number(
                                        side as nat,
                                        a as nat,
                                        b as nat,
                                    );
                                    if n < k {
                                        assert(samples[n as int] == samples_before[n as int]);
                                    } else {
                                        assert(a == i && b == j);
                                        assert(samples[n as int] == c);
                                    }
                                }
                                assert forall|n: int|
                                    0 <= n < samples.len() implies crate::color::adds_to::<S, C>(
                                    sums[n],
                                    samples[n],
                                    #[trigger] sums[n + 1],
                                ) by {
                                    if n < samples_before.len() {
                                        assert(sums[n] == sums_before[n]);
                                        assert(sums[n + 1] == sums_before[n + 1]);
                                        assert(samples[n] == samples_before[n]);
                                    }
                                }
                            }
                        },
                    }
                },
                None => {},
            }
            k = k + 1;
        }
        proof {
            assert(are_running_sums::<S, C>(samples, sums));
        }
        let mean = self.mean(pixel_sum, Ghost(samples), Ghost(sums));
        proof {
            assert(are_first_samples::<S, M, C, O>(
                self.object,
                *math,
                self.config,
                x,
                y,
                t,
                size,
                samples,
            ));
        }
        Ok(mean)
    }
}

/// A hit has one colour, or the error, where the object gives one answer
/// each and the operations of the numbers, of `math` and of the colour each
/// give one result.
pub proof fn lemma_lit_is_unique<S: Number, M: Math<S>, C: Color<S>, O: SceneObject<S, M, C>>(
    object: O,
    math: M,
    config: RayMarcherConfig<S, C>,
    hit: Vec3<S>,
    dir: Vec3<S>,
    t: S,
    p: Result<C, ZeroMagnitude>,
    q: Result<C, ZeroMagnitude>,
)
    requires
        is_lit::<S, M, C, O>(object, math, config, hit, dir, t, p),
        is_lit::<S, M, C, O>(object, math, config, hit, dir, t, q),
        crate::scene_object::is_function::<S, M, C, O>(object, math),
        crate::number::is_exact::<S>(),
        crate::number::is_exact_math(math),
        crate::color::is_exact::<S, C>(),
    ensures
        p == q,
{
    let la = choose|lighting: Result<Lighting<S>, ZeroMagnitude>| #[trigger]
        crate::lighting::is_lighting::<S, M, C, O>(
            object,
            math,
            config.light_pos,
            config.camera_pos,
            config.specular_shininess,
            hit,
            dir,
            t,
            lighting,
        ) && is_shaded::<S, M, C, O>(object, math, config.specular_color, t, lighting, p);
    let lb = choose|lighting: Result<Lighting<S>, ZeroMagnitude>| #[trigger]
        crate::lighting::is_lighting::<S, M, C, O>(
            object,
            math,
            config.light_pos,
            config.camera_pos,
            config.specular_shininess,
            hit,
            dir,
            t,
            lighting,
        ) && is_shaded::<S, M, C, O>(object, math, config.specular_color, t, lighting, q);
    crate::lighting::lemma_lighting_is_unique::<S, M, C, O>(
        object,
        math,
        config.light_pos,
        config.camera_pos,
        config.specular_shininess,
        hit,
        dir,
        t,
        la,
        lb,
    );
    match la {
        Err(_) => {
            assert(p->Err_0 == q->Err_0);
        },
        Ok(l) => {
            let ba = choose|base: C| #[trigger]
                crate::scene_object::is_color_of::<S, M, C, O>(object, math, t, base) && p is Ok
                    && crate::lighting::is_shade(base, l, config.specular_color, p->Ok_0);
            let bb = choose|base: C| #[trigger]
                crate::scene_object::is_color_of::<S, M, C, O>(object, math, t, base) && q is Ok
                    && crate::lighting::is_shade(base, l, config.specular_color, q->Ok_0);
            assert(ba == bb);
            crate::lighting::lemma_shade_is_unique(ba, l, config.specular_color, p->Ok_0, q->Ok_0);
        },
    }
}

/// A ray has one colour, or the error, where the object gives one answer
/// each and the operations of the numbers, of `math` and of the colour each
/// give one result: tracing the ray again gives the same colour.
pub proof fn lemma_traced_is_unique<S: Number, M: Math<S>, C: Color<S>, O: SceneObject<S, M, C>>(
    object: O,
    math: M,
    config: RayMarcherConfig<S, C>,
    point: Vec3<S>,
    dir: Vec3<S>,
    t: S,
    p: Result<C, ZeroMagnitude>,
    q: Result<C, ZeroMagnitude>,
)
    requires
        is_traced::<S, M, C, O>(object, math, config, point, dir, t, p),
        is_traced::<S, M, C, O>(object, math, config, point, dir, t, q),
        crate::scene_object::is_function::<S, M, C, O>(object, math),
        crate::number::is_exact::<S>(),
        crate::number::is_exact_math(math),
        crate::color::is_exact::<S, C>(),
    ensures
        p == q,
{
    let ca = choose|cast: Result<Option<RayResult<S>>, ZeroMagnitude>| #[trigger]
        crate::ray::is_cast::<S, M, C, O>(
            object,
            math,
            point,
            dir,
            config.backplane_positions,
            t,
            cast,
        ) && is_colored::<S, M, C, O>(object, math, config, dir, t, cast, p);
    let cb = choose|cast: Result<Option<RayResult<S>>, ZeroMagnitude>| #[trigger]
        crate::ray::is_cast::<S, M, C, O>(
            object,
            math,
            point,
            dir,
            config.backplane_positions,
            t,
            cast,
        ) && is_colored::<S, M, C, O>(object, math, config, dir, t, cast, q);
    crate::ray::lemma_cast_is_unique::<S, M, C, O>(
        object,
        math,
        point,
        dir,
        config.backplane_positions,
        t,
        ca,
        cb,
    );
    match ca {
        Err(_) => {
            assert(p->Err_0 == q->Err_0);
        },
        Ok(None) => {},
        Ok(Some(hit)) => {
            lemma_lit_is_unique::<S, M, C, O>(object, math, config, hit.hit_point, dir, t, p, q);
        },
    }
}

/// A subpixel has one pixel coordinate along an axis where each operation of
/// the numbers and of `math` gives one result.
pub proof fn lemma_subpixel_at_is_unique<S: Number, M: Math<S>>(
    math: M,
    n: usize,
    size: S,
    i: u32,
    p: S,
    q: S,
)
    requires
        is_subpixel_at(math, n, size, i, p),
        is_subpixel_at(math, n, size, i, q),
        crate::number::is_exact::<S>(),
        crate::number::is_exact_math(math),
    ensures
        p == q,
{
    let (wa, pa) = choose|whole: S, part: S|
        #![trigger crate::number::is_sum(whole, part, p)]
        crate::number::is_count(math, n, whole) && crate::grid::is_offset(size, i, part)
            && crate::number::is_sum(whole, part, p);
    let (wb, pb) = choose|whole: S, part: S|
        #![trigger crate::number::is_sum(whole, part, q)]
        crate::number::is_count(math, n, whole) && crate::grid::is_offset(size, i, part)
            && crate::number::is_sum(whole, part, q);
    assert(wa == wb);
    crate::grid::lemma_offset_is_unique(size, i, pa, pb);
}

/// A subpixel has one sample, or the error, where the object gives one
/// answer each and the operations of the numbers, of `math` and of the
/// colour each give one result.
pub proof fn lemma_sample_is_unique<S: Number, M: Math<S>, C: Color<S>, O: SceneObject<S, M, C>>(
    object: O,
    math: M,
    config: RayMarcherConfig<S, C>,
    x: usize,
    y: usize,
    t: S,
    size: S,
    i: u32,
    j: u32,
    p: Result<C, ZeroMagnitude>,
    q: Result<C, ZeroMagnitude>,
)
    requires
        is_sample::<S, M, C, O>(object, math, config, x, y, t, size, i, j, p),
        is_sample::<S, M, C, O>(object, math, config, x, y, t, size, i, j, q),
        crate::scene_object::is_function::<S, M, C, O>(object, math),
        crate::number::is_exact::<S>(),
        crate::number::is_exact_math(math),
        crate::color::is_exact::<S, C>(),
    ensures
        p == q,
{
    let (xa, ya, ra) = choose|at_x: S, at_y: S, ray: Result<Vec3<S>, ZeroMagnitude>|
        #![trigger is_subpixel_at(math, x, size, i, at_x), is_subpixel_at(math, y, size, j, at_y), crate::camera::is_camera_ray(math, config, at_x, at_y, ray)]
        is_subpixel_at(math, x, size, i, at_x) && is_subpixel_at(math, y, size, j, at_y)
            && crate::camera::is_camera_ray(math, config, at_x, at_y, ray) && is_traced_along::<
            S,
            M,
            C,
            O,
        >(object, math, config, t, ray, p);
    let (xb, yb, rb) = choose|at_x: S, at_y: S, ray: Result<Vec3<S>, ZeroMagnitude>|
        #![trigger is_subpixel_at(math, x, size, i, at_x), is_subpixel_at(math, y, size, j, at_y), crate::camera::is_camera_ray(math, config, at_x, at_y, ray)]
        is_subpixel_at(math, x, size, i, at_x) && is_subpixel_at(math, y, size, j, at_y)
            && crate::camera::is_camera_ray(math, config, at_x, at_y, ray) && is_traced_along::<
            S,
            M,
            C,
            O,
        >(object, math, config, t, ray, q);
    lemma_subpixel_at_is_unique(math, x, size, i, xa, xb);
    lemma_subpixel_at_is_unique(math, y, size, j, ya, yb);
    crate::camera::lemma_camera_ray_is_unique(math, config, xa, ya, ra, rb);
    match ra {
        Err(_) => {
            assert(p->Err_0 == q->Err_0);
        },
        Ok(dir) => {
            lemma_traced_is_unique::<S, M, C, O>(
                object,
                math,
                config,
                config.camera_pos,
                dir,
                t,
                p,
                q,
            );
        },
    }
}

/// A grid has one weight for its mean where each operation of the numbers
/// gives one result.
pub proof fn lemma_mean_weight_is_unique<S: Number>(side: u32, a: S, b: S)
    requires
        is_mean_weight(side, a),
        is_mean_weight(side, b),
        crate::number::is_exact::<S>(),
    ensures
        a == b,
{
    let (one_a, length_a, square_a) = choose|one: S, length: S, square: S|
        #![trigger crate::number::is_product(length, length, square), crate::number::is_quotient(one, square, a)]
        crate::number::is_whole(1, one) && crate::number::is_whole(side, length)
            && crate::number::is_product(length, length, square) && crate::number::is_quotient(
            one,
            square,
            a,
        );
    let (one_b, length_b, square_b) = choose|one: S, length: S, square: S|
        #![trigger crate::number::is_product(length, length, square), crate::number::is_quotient(one, square, b)]
        crate::number::is_whole(1, one) && crate::number::is_whole(side, length)
            && crate::number::is_product(length, length, square) && crate::number::is_quotient(
            one,
            square,
            b,
        );
    assert(one_a == one_b);
    assert(length_a == length_b);
    assert(square_a == square_b);
}

/// The running sums of given samples agree on each sum where the colour's
/// operators each give one result.
proof fn lemma_sums_agree<S, C: Color<S>>(samples: Seq<C>, a: Seq<C>, b: Seq<C>, k: int)
    requires
        are_running_sums::<S, C>(samples, a),
        are_running_sums::<S, C>(samples, b),
        crate::color::is_exact::<S, C>(),
        0 <= k <= samples.len(),
    ensures
        a[k] == b[k],
    decreases k,
{
    if k > 0 {
        lemma_sums_agree::<S, C>(samples, a, b, k - 1);
        assert(crate::color::adds_to::<S, C>(a[k - 1], samples[k - 1], a[k - 1 + 1]));
        assert(crate::color::adds_to::<S, C>(b[k - 1], samples[k - 1], b[k - 1 + 1]));
    }
}

/// Given samples have one mean where the operations of the numbers and of
/// the colour each give one result.
pub proof fn lemma_mean_is_unique<S: Number, C: Color<S>>(side: u32, samples: Seq<C>, p: C, q: C)
    requires
        is_mean::<S, C>(side, samples, p),
        is_mean::<S, C>(side, samples, q),
        crate::number::is_exact::<S>(),
        crate::color::is_exact::<S, C>(),
    ensures
        p == q,
{
    let (sa, wa) = choose|sums: Seq<C>, weight: S|
        #![trigger are_running_sums::<S, C>(samples, sums), crate::color::scales_to(sums.last(), weight, p)]
        are_running_sums::<S, C>(samples, sums) && is_mean_weight(side, weight)
            && crate::color::scales_to(sums.last(), weight, p);
    let (sb, wb) = choose|sums: Seq<C>, weight: S|
        #![trigger are_running_sums::<S, C>(samples, sums), crate::color::scales_to(sums.last(), weight, q)]
        are_running_sums::<S, C>(samples, sums) && is_mean_weight(side, weight)
            && crate::color::scales_to(sums.last(), weight, q);
    lemma_sums_agree::<S, C>(samples, sa, sb, samples.len() as int);
    lemma_mean_weight_is_unique::<S>(side, wa, wb);
}

/// Two runs of samples of one pixel agree on each subpixel that both have,
/// where the object gives one answer each and the operations of the
/// numbers, of `math` and of the colour each give one result.
proof fn lemma_samples_agree<S: Number, M: Math<S>, C: Color<S>, O: SceneObject<S, M, C>>(
    object: O,
    math: M,
    config: RayMarcherConfig<S, C>,
    x: usize,
    y: usize,
    t: S,
    size: S,
    a: Seq<C>,
    b: Seq<C>,
    k: int,
)
    requires
        are_first_samples::<S, M, C, O>(object, math, config, x, y, t, size, a),
        are_first_samples::<S, M, C, O>(object, math, config, x, y, t, size, b),
        crate::scene_object::is_function::<S, M, C, O>(object, math),
        crate::number::is_exact::<S>(),
        crate::number::is_exact_math(math),
        crate::color::is_exact::<S, C>(),
        0 <= k < a.len(),
        k < b.len(),
    ensures
        a[k] == b[k],
{
    let side = config.anti_aliasing_level;
    crate::grid::lemma_cell_lies_in_grid(side as nat, k as nat);
    let i = crate::grid::cell_of(side as nat, k as nat).0 as u32;
    let j = crate::grid::cell_of(side as nat, k as nat).1 as u32;
    assert(crate::grid::index_of(side as nat, i as nat, j as nat) == k);
    assert(is_sample::<S, M, C, O>(
        object,
        math,
        config,
        x,
        y,
        t,
        size,
        i,
        j,
        Ok(a[crate::grid::index_of(side as nat, i as nat, j as nat) as int]),
    ));
    assert(is_sample::<S, M, C, O>(
        object,
        math,
        config,
        x,
        y,
        t,
        size,
        i,
        j,
        Ok(b[crate::grid::index_of(side as nat, i as nat, j as nat) as int]),
    ));
    lemma_sample_is_unique::<S, M, C, O>(
        object,
        math,
        config,
        x,
        y,
        t,
        size,
        i,
        j,
        Ok(a[k]),
        Ok(b[k]),
    );
}

/// A pixel has one colour, or the error, where the object gives one answer
/// each and the operations of the numbers, of `math` and of the colour each
/// give one result: rendering the pixel again gives the same colour.
pub proof fn lemma_pixel_color_is_unique<S: Number, M: Math<S>, C: Color<S>, O: SceneObject<S, M, C>>(
    object: O,
    math: M,
    config: RayMarcherConfig<S, C>,
    x: usize,
    y: usize,
    t: S,
    p: Result<C, ZeroMagnitude>,
    q: Result<C, ZeroMagnitude>,
)
    requires
        is_pixel_color::<S, M, C, O>(object, math, config, x, y, t, p),
        is_pixel_color::<S, M, C, O>(object, math, config, x, y, t, q),
        crate::scene_object::is_function::<S, M, C, O>(object, math),
        crate::number::is_exact::<S>(),
        crate::number::is_exact_math(math),
        crate::color::is_exact::<S, C>(),
    ensures
        p == q,
{
    let side = config.anti_aliasing_level;
    let (za, a) = choose|size: S, samples: Seq<C>|
        #![trigger are_first_samples::<S, M, C, O>(object, math, config, x, y, t, size, samples)]
        crate::grid::is_subpixel_size(side, size) && are_first_samples::<S, M, C, O>(
            object,
            math,
            config,
            x,
            y,
            t,
            size,
            samples,
        ) && is_pixel_of::<S, M, C, O>(object, math, config, x, y, t, size, samples, p);
    let (zb, b) = choose|size: S, samples: Seq<C>|
        #![trigger are_first_samples::<S, M, C, O>(object, math, config, x, y, t, size, samples)]
        crate::grid::is_subpixel_size(side, size) && are_first_samples::<S, M, C, O>(
            object,
            math,
            config,
            x,
            y,
            t,
            size,
            samples,
        ) && is_pixel_of::<S, M, C, O>(object, math, config, x, y, t, size, samples, q);
    crate::number::lemma_ratio_is_unique(1, side, za, zb);
    let n = crate::grid::grid_size(side as nat);
    if a.len() < b.len() {
        lemma_failure_ends_the_samples::<S, M, C, O>(object, math, config, x, y, t, za, a, b);
    } else if b.len() < a.len() {
        lemma_failure_ends_the_samples::<S, M, C, O>(object, math, config, x, y, t, za, b, a);
    } else {
        assert forall|k: int| 0 <= k < a.len() implies a[k] == b[k] by {
            lemma_samples_agree::<S, M, C, O>(object, math, config, x, y, t, za, a, b, k);
        }
        assert(a =~= b);
        if a.len() == n {
            lemma_mean_is_unique::<S, C>(side, a, p->Ok_0, q->Ok_0);
        } else {
            assert(p->Err_0 == q->Err_0);
        }
    }
}

/// Where the subpixel that follows a run of samples has failed, no run of
/// samples of the pixel is longer, where the object gives one answer each
/// and the operations of the numbers, of `math` and of the colour each give
/// one result.
proof fn lemma_failure_ends_the_samples<S: Number, M: Math<S>, C: Color<S>, O: SceneObject<S, M, C>>(
    object: O,
    math: M,
    config: RayMarcherConfig<S, C>,
    x: usize,
    y: usize,
    t: S,
    size: S,
    short: Seq<C>,
    long: Seq<C>,
)
    requires
        are_first_samples::<S, M, C, O>(object, math, config, x, y, t, size, short),
        are_first_samples::<S, M, C, O>(object, math, config, x, y, t, size, long),
        has_failed::<S, M, C, O>(object, math, config, x, y, t, size, short),
        crate::scene_object::is_function::<S, M, C, O>(object, math),
        crate::number::is_exact::<S>(),
        crate::number::is_exact_math(math),
        crate::color::is_exact::<S, C>(),
    ensures
        long.len() <= short.len(),
{
    if short.len() < long.len() {
        let side = config.anti_aliasing_level;
        let k = short.len();
        crate::grid::lemma_cell_lies_in_grid(side as nat, k);
        let i = crate::grid::cell_of(side as nat, k).0 as u32;
        let j = crate::grid::cell_of(side as nat, k).1 as u32;
        assert(crate::grid::index_of(side as nat, i as nat, j as nat) == k);
        let failure = choose|failure: Result<C, ZeroMagnitude>| #[trigger]
            is_sample::<S, M, C, O>(object, math, config, x, y, t, size, i, j, failure) && failure
                is Err;
        assert(is_sample::<S, M, C, O>(
            object,
            math,
            config,
            x,
            y,
            t,
            size,
            i,
            j,
            Ok(long[crate::grid::index_of(side as nat, i as nat, j as nat) as int]),
        ));
        lemma_sample_is_unique::<S, M, C, O>(
            object,
            math,
            config,
            x,
            y,
            t,
            size,
            i,
            j,
            failure,
            Ok(long[k as int]),
        );
    }
}

/// Rendering is repeatable: a pixel of a Julia set has one colour, or the
/// error, where the operations of the numbers, of `math` and of the colour
/// each give one result. Rendering the same pixel of the same set under the
/// same configuration again gives the same colour.
pub proof fn lemma_julia_pixel_is_unique<S: Number, M: Math<S>, C: Color<S>>(
    julia: crate::julia::Julia<S, C>,
    math: M,
    config: RayMarcherConfig<S, C>,
    x: usize,
    y: usize,
    t: S,
    p: Result<C, ZeroMagnitude>,
    q: Result<C, ZeroMagnitude>,
)
    requires
        is_pixel_color::<S, M, C, crate::julia::Julia<S, C>>(julia, math, config, x, y, t, p),
        is_pixel_color::<S, M, C, crate::julia::Julia<S, C>>(julia, math, config, x, y, t, q),
        crate::number::is_exact::<S>(),
        crate::number::is_exact_math(math),
        crate::color::is_exact::<S, C>(),
    ensures
        p == q,
{
    crate::julia::lemma_julia_is_a_function(julia, math);
    lemma_pixel_color_is_unique::<S, M, C, crate::julia::Julia<S, C>>(
        julia,
        math,
        config,
        x,
        y,
        t,
        p,
        q,
    );
}

/// A pixel with a single subpixel has the colour of that subpixel, wherever
/// adding to the colour's zero changes nothing and neither does multiplying
/// by the weight of a mean of one: with a grid of side one, `color` is what
/// tracing the subpixel `(0, 0)` can give.
pub proof fn lemma_single_sample_is_the_pixel<
    S: Number,
    M: Math<S>,
    C: Color<S>,
    O: SceneObject<S, M, C>,
>(
    object: O,
    math: M,
    config: RayMarcherConfig<S, C>,
    x: usize,
    y: usize,
    t: S,
    color: Result<C, ZeroMagnitude>,
)
    requires
        config.anti_aliasing_level == 1,
        is_pixel_color::<S, M, C, O>(object, math, config, x, y, t, color),
        forall|zero: C, sample: C, sum: C|
            crate::color::is_zero::<S, C>(zero) && #[trigger] crate::color::adds_to::<S, C>(
                zero,
                sample,
                sum,
            ) ==> sum == sample,
        forall|weight: S, sample: C, product: C|
            is_mean_weight(1, weight) && #[trigger] crate::color::scales_to(
                sample,
                weight,
                product,
            ) ==> product == sample,
    ensures
        exists|size: S|
            crate::grid::is_subpixel_size(1, size) && #[trigger] is_sample::<S, M, C, O>(
                object,
                math,
                config,
                x,
                y,
                t,
                size,
                0,
                0,
                color,
            ),
{
    let (size, samples) = choose|size: S, samples: Seq<C>|
        #![trigger are_first_samples::<S, M, C, O>(object, math, config, x, y, t, size, samples)]
        crate::grid::is_subpixel_size(1, size) && are_first_samples::<S, M, C, O>(
            object,
            math,
            config,
            x,
            y,
            t,
            size,
            samples,
        ) && is_pixel_of::<S, M, C, O>(object, math, config, x, y, t, size, samples, color);
    assert(crate::grid::grid_size(1) == 1);
    assert(crate::grid::index_of(1, 0u32 as nat, 0u32 as nat) == 0);
    if samples.len() == 1 {
        let (sums, weight) = choose|sums: Seq<C>, weight: S|
            #![trigger are_running_sums::<S, C>(samples, sums), crate::color::scales_to(sums.last(), weight, color->Ok_0)]
            are_running_sums::<S, C>(samples, sums) && is_mean_weight(1, weight)
                && crate::color::scales_to(sums.last(), weight, color->Ok_0);
        assert(crate::color::adds_to::<S, C>(sums[0], samples[0], sums[0int + 1]));
        assert(sums.last() == samples[0]);
        assert(color->Ok_0 == samples[0]);
        assert(is_sample::<S, M, C, O>(
            object,
            math,
            config,
            x,
            y,
            t,
            size,
            0,
            0,
            Ok(samples[crate::grid::index_of(1, 0u32 as nat, 0u32 as nat) as int]),
        ));
        assert(color == Ok::<C, ZeroMagnitude>(samples[0]));
    } else {
        assert(samples.len() == 0);
        assert(crate::grid::cell_of(1, 0) == (0nat, 0nat));
        let failure = choose|failure: Result<C, ZeroMagnitude>| #[trigger]
            is_sample::<S, M, C, O>(object, math, config, x, y, t, size, 0, 0, failure)
                && failure is Err;
        assert(failure->Err_0 == color->Err_0);
        assert(failure == color);
    }
}

/// The subpixel `(0, 0)` is traced without an offset, for numbers of which
/// one and zero do what they are named for: what tracing it can give is what
/// tracing the ray of the pixel coordinates `(x, y)` themselves can give.
pub proof fn lemma_first_subpixel_has_no_offset<
    S: Number,
    M: Math<S>,
    C: Color<S>,
    O: SceneObject<S, M, C>,
>(
    object: O,
    math: M,
    config: RayMarcherConfig<S, C>,
    x: usize,
    y: usize,
    t: S,
    size: S,
    sample: Result<C, ZeroMagnitude>,
)
    requires
        is_sample::<S, M, C, O>(object, math, config, x, y, t, size, 0, 0, sample),
        crate::number::has_one_and_zero::<S>(),
    ensures
        exists|column: S, row: S, ray: Result<Vec3<S>, ZeroMagnitude>|
            #![trigger crate::number::is_count(math, x, column), crate::number::is_count(math, y, row), crate::camera::is_camera_ray(math, config, column, row, ray)]
            crate::number::is_count(math, x, column) && crate::number::is_count(math, y, row)
                && crate::camera::is_camera_ray(math, config, column, row, ray)
                && is_traced_along::<S, M, C, O>(object, math, config, t, ray, sample),
{
    let (at_x, at_y, ray) = choose|at_x: S, at_y: S, ray: Result<Vec3<S>, ZeroMagnitude>|
        #![trigger is_subpixel_at(math, x, size, 0, at_x), is_subpixel_at(math, y, size, 0, at_y), crate::camera::is_camera_ray(math, config, at_x, at_y, ray)]
        is_subpixel_at(math, x, size, 0, at_x) && is_subpixel_at(math, y, size, 0, at_y)
            && crate::camera::is_camera_ray(math, config, at_x, at_y, ray) && is_traced_along::<
            S,
            M,
            C,
            O,
        >(object, math, config, t, ray, sample);
    lemma_no_offset(math, x, size, at_x);
    lemma_no_offset(math, y, size, at_y);
    assert(crate::number::is_count(math, x, at_x) && crate::number::is_count(math, y, at_y)
        && crate::camera::is_camera_ray(math, config, at_x, at_y, ray));
}

/// The pixel coordinate of the subpixels of index zero is the number of the
/// pixel itself, for numbers of which one and zero do what they are named
/// for.
proof fn lemma_no_offset<S: Number, M: Math<S>>(math: M, n: usize, size: S, at: S)
    requires
        is_subpixel_at(math, n, size, 0, at),
        crate::number::has_one_and_zero::<S>(),
    ensures
        crate::number::is_count(math, n, at),
{
    let (whole, part) = choose|whole: S, part: S|
        #![trigger crate::number::is_sum(whole, part, at)]
        crate::number::is_count(math, n, whole) && crate::grid::is_offset(size, 0, part)
            && crate::number::is_sum(whole, part, at);
    let index = choose|index: S|
        crate::number::is_whole(0, index) && #[trigger] crate::number::is_product(
            index,
            size,
            part,
        );
    assert(part == index);
    assert(at == whole);
}

} // verus!
