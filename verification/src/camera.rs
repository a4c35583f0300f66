//! The configuration of a render and its camera.
//!
//! The camera looks from its position at a target. A pixel of the image is
//! mapped to the square from -1 to 1, the horizontal coordinate mirrored,
//! and laid on a plane that stands `camera_zoom` in front of the camera; the
//! ray of the pixel goes from the camera through that point of the plane.

use crate::color::Color;
use crate::number::{Math, Number};
use crate::ray::ZeroMagnitude;
use crate::vec3::Vec3;
use vstd::prelude::*;

verus! {

/// The configuration of a render, over numbers of type `S` and colours of
/// type `C`.
#[derive(Debug)]
pub struct RayMarcherConfig<S, C> {
    /// Width of the rendered image in pixels.
    pub width: usize,
    /// Height of the rendered image in pixels.
    pub height: usize,
    /// Position of the camera.
    pub camera_pos: Vec3<S>,
    /// The point that the camera points at.
    pub look_at: Vec3<S>,
    /// Position of the light.
    pub light_pos: Vec3<S>,
    /// The colour of a ray that missed the scene.
    pub background_color: C,
    /// Zoom of the camera; 1 is no zoom.
    pub camera_zoom: S,
    /// Side of the subpixel grid: 4 traces a 4 by 4 grid for each pixel.
    pub anti_aliasing_level: u32,
    /// Position of the back culling planes: a ray that goes further than
    /// this from the origin along any axis counts as a miss.
    pub backplane_positions: Vec3<S>,
    /// Exponent of the specular term.
    pub specular_shininess: S,
    /// The colour of specular highlights.
    pub specular_color: C,
}

/// Whether `v` is a vector that `S` can make of the three whole numbers `x`,
/// `y` and `z`, none of them negative.
pub open spec fn is_vector<S: Number>(x: u32, y: u32, z: u32, v: Vec3<S>) -> bool {
    &&& crate::number::is_whole(x, v.x)
    &&& crate::number::is_whole(y, v.y)
    &&& crate::number::is_whole(z, v.z)
}

/// Whether `config` is a default configuration: an image of ten pixels by
/// ten, the camera at `(2, 4, 4)` looking at the origin, the light where the
/// camera is, a zoom of 3, a subpixel grid of side 4, the back culling planes
/// at a distance of 3 on every axis, a shininess of 50, white highlights and
/// the zero of the colours for a background.
pub open spec fn is_default<S: Number, C: Color<S>>(config: RayMarcherConfig<S, C>) -> bool {
    &&& config.width == 10
    &&& config.height == 10
    &&& is_vector(2, 4, 4, config.camera_pos)
    &&& is_vector(0, 0, 0, config.look_at)
    &&& is_vector(2, 4, 4, config.light_pos)
    &&& crate::color::is_zero::<S, C>(config.background_color)
    &&& crate::number::is_whole(3, config.camera_zoom)
    &&& config.anti_aliasing_level == 4
    &&& is_vector(3, 3, 3, config.backplane_positions)
    &&& crate::number::is_whole(50, config.specular_shininess)
    &&& crate::color::is_white::<S, C>(config.specular_color)
}

impl<S: Number, C: Color<S>> Default for RayMarcherConfig<S, C> {
    fn default() -> (config: Self)
        ensures
            is_default(config),
    {
        RayMarcherConfig {
            width: 10,
            height: 10,
            camera_pos: Vec3 { x: S::from(2u32), y: S::from(4u32), z: S::from(4u32) },
            look_at: Vec3 { x: S::from(0u32), y: S::from(0u32), z: S::from(0u32) },
            light_pos: Vec3 { x: S::from(2u32), y: S::from(4u32), z: S::from(4u32) },
            background_color: C::default(),
            camera_zoom: S::from(3u32),
            anti_aliasing_level: 4,
            backplane_positions: Vec3 { x: S::from(3u32), y: S::from(3u32), z: S::from(3u32) },
            specular_shininess: S::from(50u32),
            specular_color: C::white(),
        }
    }
}

/// The three directions of a camera, each of magnitude one.
pub struct Basis<S> {
    /// The direction in which the camera looks.
    pub look: Vec3<S>,
    /// The direction to the right of the image.
    pub right: Vec3<S>,
    /// The direction down the image.
    pub down: Vec3<S>,
}

/// Whether `on_screen` is a value that the numbers can give for the pixel
/// coordinate `at` of an image of the extent `extent`, brought to the range
/// from -1 to 1: `at` over `extent`, times two, minus one.
pub open spec fn is_on_screen<S: Number>(extent: S, at: S, on_screen: S) -> bool {
    exists|share: S, two: S, double: S, one: S|
        #![trigger crate::number::is_quotient(at, extent, share), crate::number::is_product(share, two, double), crate::number::is_difference(double, one, on_screen)]
        crate::number::is_quotient(at, extent, share) && crate::number::is_whole(2, two)
            && crate::number::is_product(share, two, double) && crate::number::is_whole(1, one)
            && crate::number::is_difference(double, one, on_screen)
}

/// Whether `down` is what can be had for the direction down the image of a
/// camera that looks along `look` with `right` to its right: the cross
/// product of `look` and `right`, brought to a magnitude of one.
pub open spec fn is_down<S: Number, M: Math<S>>(
    math: M,
    look: Vec3<S>,
    right: Vec3<S>,
    down: Option<Vec3<S>>,
) -> bool {
    exists|below: Vec3<S>| #[trigger]
        crate::vec3::is_cross(look, right, below) && crate::vec3::is_normalized(math, below, down)
}

/// Whether `right` is what can be had for the direction to the right of the
/// image of a camera that looks along `look`: the cross product of the
/// vector `(0, -1, 0)` and `look`, brought to a magnitude of one.
pub open spec fn is_right<S: Number, M: Math<S>>(math: M, look: Vec3<S>, right: Option<Vec3<S>>) -> bool {
    exists|reference: Vec3<S>, side: Vec3<S>|
        #![trigger crate::vec3::is_cross(reference, look, side)]
        crate::vec3::is_whole_vec(0, -1i32, 0, reference) && crate::vec3::is_cross(
            reference,
            look,
            side,
        ) && crate::vec3::is_normalized(math, side, right)
}

/// Whether `look` is what can be had for the direction from `camera_pos` to
/// `look_at`: their difference, brought to a magnitude of one.
pub open spec fn is_look<S: Number, M: Math<S>>(
    math: M,
    camera_pos: Vec3<S>,
    look_at: Vec3<S>,
    look: Option<Vec3<S>>,
) -> bool {
    exists|to_target: Vec3<S>| #[trigger]
        crate::vec3::is_vec_difference(look_at, camera_pos, to_target)
            && crate::vec3::is_normalized(math, to_target, look)
}

/// Whether `basis` is what can be had for the directions of a camera once
/// its direction down is `down`, or is missing: nothing where it is
/// missing, else the three directions.
pub open spec fn is_based_on_down<S>(
    look: Vec3<S>,
    right: Vec3<S>,
    down: Option<Vec3<S>>,
    basis: Option<Basis<S>>,
) -> bool {
    match down {
        None => basis is None,
        Some(d) => basis == Some(Basis { look, right, down: d }),
    }
}

/// Whether `basis` is what can be had for the directions of a camera once
/// its direction to the right is `right`, or is missing: nothing where it is
/// missing; else the direction down is found, and the basis is what can be
/// had with it.
pub open spec fn is_based_on_right<S: Number, M: Math<S>>(
    math: M,
    look: Vec3<S>,
    right: Option<Vec3<S>>,
    basis: Option<Basis<S>>,
) -> bool {
    match right {
        None => basis is None,
        Some(r) => exists|down: Option<Vec3<S>>| #[trigger]
            is_down(math, look, r, down) && is_based_on_down(look, r, down, basis),
    }
}

/// Whether `basis` is what can be had for the directions of a camera once
/// the direction in which it looks is `look`, or is missing: nothing where
/// it is missing; else the direction to the right is found, and the basis
/// is what can be had with it.
pub open spec fn is_based_on_look<S: Number, M: Math<S>>(
    math: M,
    look: Option<Vec3<S>>,
    basis: Option<Basis<S>>,
) -> bool {
    match look {
        None => basis is None,
        Some(l) => exists|right: Option<Vec3<S>>| #[trigger]
            is_right(math, l, right) && is_based_on_right(math, l, right, basis),
    }
}

/// Whether `basis` is what can be had for the three directions of a camera
/// at `camera_pos` that looks at `look_at`: first the direction to the
/// target, then the direction to the right, then the direction down;
/// nothing as soon as one of them has no direction.
pub open spec fn is_basis<S: Number, M: Math<S>>(
    math: M,
    camera_pos: Vec3<S>,
    look_at: Vec3<S>,
    basis: Option<Basis<S>>,
) -> bool {
    exists|look: Option<Vec3<S>>| #[trigger]
        is_look(math, camera_pos, look_at, look) && is_based_on_look(math, look, basis)
}

/// Whether `dir` is what can be had for the direction from `camera_pos`
/// through the point `(u, v)` of the image plane: the plane stands `zoom`
/// along `look` in front of the camera, the point lies `u` along `right`
/// and `v` along `down` from the middle of the plane, and the direction to
/// it is brought to a magnitude of one.
pub open spec fn is_through<S: Number, M: Math<S>>(
    math: M,
    camera_pos: Vec3<S>,
    zoom: S,
    basis: Basis<S>,
    u: S,
    v: S,
    dir: Option<Vec3<S>>,
) -> bool {
    exists|
        ahead: Vec3<S>,
        middle: Vec3<S>,
        aside: Vec3<S>,
        along: Vec3<S>,
        below: Vec3<S>,
        pixel: Vec3<S>,
        toward: Vec3<S>,
    |
        #![trigger crate::vec3::is_vec_sum(camera_pos, ahead, middle), crate::vec3::is_vec_sum(middle, aside, along), crate::vec3::is_vec_sum(along, below, pixel), crate::vec3::is_vec_difference(pixel, camera_pos, toward)]
        crate::vec3::is_scaled(basis.look, zoom, ahead) && crate::vec3::is_vec_sum(
            camera_pos,
            ahead,
            middle,
        ) && crate::vec3::is_scaled(basis.right, u, aside) && crate::vec3::is_vec_sum(
            middle,
            aside,
            along,
        ) && crate::vec3::is_scaled(basis.down, v, below) && crate::vec3::is_vec_sum(
            along,
            below,
            pixel,
        ) && crate::vec3::is_vec_difference(pixel, camera_pos, toward)
            && crate::vec3::is_normalized(math, toward, dir)
}

/// Whether `uv` is what the numbers can give for the place of the pixel
/// coordinates `(x, y)` on the image plane: `x` over the width, times two,
/// minus one, and the opposite of that; `y` over the height, times two,
/// minus one.
pub open spec fn is_on_plane<S: Number, M: Math<S>>(
    math: M,
    width: usize,
    height: usize,
    x: S,
    y: S,
    uv: (S, S),
) -> bool {
    exists|w: S, mirrored: S, h: S|
        #![trigger crate::number::is_count(math, width, w), is_on_screen(w, x, mirrored), crate::number::is_count(math, height, h)]
        crate::number::is_count(math, width, w) && is_on_screen(w, x, mirrored)
            && crate::number::is_opposite(mirrored, uv.0) && crate::number::is_count(
            math,
            height,
            h,
        ) && is_on_screen(h, y, uv.1)
}

/// Whether `ray` is the outcome for the direction `dir`, or for a direction
/// that is missing: the error where it is missing, else the direction.
pub open spec fn is_ray_of<S>(dir: Option<Vec3<S>>, ray: Result<Vec3<S>, ZeroMagnitude>) -> bool {
    match dir {
        None => ray is Err,
        Some(d) => ray == Ok::<Vec3<S>, ZeroMagnitude>(d),
    }
}

/// Whether `ray` is what can be had for the ray through the place `uv` of
/// the image plane once the directions of the camera are `basis`, or are
/// missing: the error where they are missing, else the direction through
/// the place.
pub open spec fn is_seen_through<S: Number, M: Math<S>>(
    math: M,
    camera_pos: Vec3<S>,
    zoom: S,
    basis: Option<Basis<S>>,
    uv: (S, S),
    ray: Result<Vec3<S>, ZeroMagnitude>,
) -> bool {
    match basis {
        None => ray is Err,
        Some(b) => exists|dir: Option<Vec3<S>>| #[trigger]
            is_through(math, camera_pos, zoom, b, uv.0, uv.1, dir) && is_ray_of(dir, ray),
    }
}

/// Whether `ray` is what can be had for the direction of the ray of the
/// pixel coordinates `(x, y)`: the error where a direction of the camera has
/// a magnitude of zero, else the direction from the camera through the
/// place of `(x, y)` on the image plane.
pub open spec fn is_camera_ray<S: Number, M: Math<S>, C>(
    math: M,
    config: RayMarcherConfig<S, C>,
    x: S,
    y: S,
    ray: Result<Vec3<S>, ZeroMagnitude>,
) -> bool {
    exists|uv: (S, S), basis: Option<Basis<S>>|
        #![trigger is_on_plane(math, config.width, config.height, x, y, uv), is_basis(math, config.camera_pos, config.look_at, basis)]
        is_on_plane(math, config.width, config.height, x, y, uv) && is_basis(
            math,
            config.camera_pos,
            config.look_at,
            basis,
        ) && is_seen_through(math, config.camera_pos, config.camera_zoom, basis, uv, ray)
}

/// A pixel coordinate brought to the range from -1 to 1.
fn on_screen<S: Number>(extent: S, at: S) -> (on_screen: S)
    requires
        crate::number::is_total::<S>(),
    ensures
        is_on_screen(extent, at, on_screen),
{
    let share = at / extent;
    let two = S::from(2u32);
    let double = share * two;
    let one = S::from(1u32);
    let on_screen = double - one;
    assert(crate::number::is_quotient(at, extent, share) && crate::number::is_product(
        share,
        two,
        double,
    ) && crate::number::is_difference(double, one, on_screen));
    on_screen
}

/// The three directions of a camera.
fn basis<S: Number, M: Math<S>>(math: &M, camera_pos: Vec3<S>, look_at: Vec3<S>) -> (basis: Option<
    Basis<S>,
>)
    requires
        crate::number::is_total::<S>(),
    ensures
        is_basis(*math, camera_pos, look_at, basis),
{
    let to_target = look_at.minus(camera_pos);
    let look = to_target.normalized(math);
    assert(is_look(*math, camera_pos, look_at, look));
    match look {
        None => None,
        Some(l) => {
            let reference = Vec3::whole(0, -1, 0);
            let side = reference.cross(l);
            let right = side.normalized(math);
            assert(crate::vec3::is_cross(reference, l, side));
            assert(is_right(*math, l, right));
            match right {
                None => {
                    assert(is_based_on_right(*math, l, right, None));
                    None
                },
                Some(r) => {
                    let below = l.cross(r);
                    let down = below.normalized(math);
                    assert(is_down(*math, l, r, down));
                    let basis = match down {
                        None => None,
                        Some(d) => Some(Basis { look: l, right: r, down: d }),
                    };
                    assert(is_based_on_down(l, r, down, basis));
                    assert(is_based_on_right(*math, l, right, basis));
                    basis
                },
            }
        },
    }
}

impl<S: Number, C: Color<S>> RayMarcherConfig<S, C> {
    /// The direction of the ray of the pixel coordinates `(x, y)`, which
    /// need not be whole: the direction, of magnitude one, from the camera
    /// through the place of `(x, y)` on the image plane. The error where the
    /// camera sits on the point it looks at or looks straight up or down, so
    /// that one of its directions has a magnitude of zero.
    pub fn camera_ray_direction<M: Math<S>>(&self, math: &M, x: S, y: S) -> (ray: Result<
        Vec3<S>,
        ZeroMagnitude,
    >)
        requires
            crate::number::is_total::<S>(),
        ensures
            is_camera_ray(*math, *self, x, y, ray),
    {
        let w = math.from_usize(self.width);
        let mirrored = on_screen(w, x);
        let u = mirrored.neg();
        let h = math.from_usize(self.height);
        let v = on_screen(h, y);
        assert(crate::number::is_count(*math, self.width, w) && is_on_screen(w, x, mirrored)
            && crate::number::is_count(*math, self.height, h));
        assert(is_on_plane(*math, self.width, self.height, x, y, (u, v)));

        let basis = basis(math, self.camera_pos, self.look_at);
        match basis {
            None => {
                assert(is_on_plane(*math, self.width, self.height, x, y, (u, v)) && is_basis(
                    *math,
                    self.camera_pos,
                    self.look_at,
                    basis,
                ));
                Err(ZeroMagnitude)
            },
            Some(b) => {
                let ahead = b.look.scaled(self.camera_zoom);
                let middle = self.camera_pos.plus(ahead);
                let aside = b.right.scaled(u);
                let along = middle.plus(aside);
                let below = b.down.scaled(v);
                let pixel = along.plus(below);
                let toward = pixel.minus(self.camera_pos);
                let dir = toward.normalized(math);
                assert(crate::vec3::is_vec_sum(self.camera_pos, ahead, middle)
                    && crate::vec3::is_vec_sum(middle, aside, along) && crate::vec3::is_vec_sum(
                    along,
                    below,
                    pixel,
                ) && crate::vec3::is_vec_difference(pixel, self.camera_pos, toward));
                assert(is_through(*math, self.camera_pos, self.camera_zoom, b, u, v, dir));
                let ray = match dir {
                    None => Err(ZeroMagnitude),
                    Some(d) => Ok(d),
                };
                assert(is_ray_of(dir, ray));
                assert(is_seen_through(
                    *math,
                    self.camera_pos,
                    self.camera_zoom,
                    basis,
                    (u, v),
                    ray,
                ));
                assert(is_on_plane(*math, self.width, self.height, x, y, (u, v)) && is_basis(
                    *math,
                    self.camera_pos,
                    self.look_at,
                    basis,
                ));
                ray
            },
        }
    }
}

/// A pixel coordinate has one place on the screen where each operation of
/// the numbers gives one result.
pub proof fn lemma_on_screen_is_unique<S: Number>(extent: S, at: S, p: S, q: S)
    requires
        is_on_screen(extent, at, p),
        is_on_screen(extent, at, q),
        crate::number::is_exact::<S>(),
    ensures
        p == q,
{
    let (share, two, double, one) = choose|share: S, two: S, double: S, one: S|
        #![trigger crate::number::is_quotient(at, extent, share), crate::number::is_product(share, two, double), crate::number::is_difference(double, one, p)]
        crate::number::is_quotient(at, extent, share) && crate::number::is_whole(2, two)
            && crate::number::is_product(share, two, double) && crate::number::is_whole(1, one)
            && crate::number::is_difference(double, one, p);
    let (share2, two2, double2, one2) = choose|share: S, two: S, double: S, one: S|
        #![trigger crate::number::is_quotient(at, extent, share), crate::number::is_product(share, two, double), crate::number::is_difference(double, one, q)]
        crate::number::is_quotient(at, extent, share) && crate::number::is_whole(2, two)
            && crate::number::is_product(share, two, double) && crate::number::is_whole(1, one)
            && crate::number::is_difference(double, one, q);
    assert(share == share2 && two == two2 && one == one2);
    assert(double == double2);
}

/// Pixel coordinates have one place on the image plane where each operation
/// of the numbers and of `math` gives one result.
pub proof fn lemma_on_plane_is_unique<S: Number, M: Math<S>>(
    math: M,
    width: usize,
    height: usize,
    x: S,
    y: S,
    p: (S, S),
    q: (S, S),
)
    requires
        is_on_plane(math, width, height, x, y, p),
        is_on_plane(math, width, height, x, y, q),
        crate::number::is_exact::<S>(),
        crate::number::is_exact_math(math),
    ensures
        p == q,
{
    let (w, mirrored, h) = choose|w: S, mirrored: S, h: S|
        #![trigger crate::number::is_count(math, width, w), is_on_screen(w, x, mirrored), crate::number::is_count(math, height, h)]
        crate::number::is_count(math, width, w) && is_on_screen(w, x, mirrored)
            && crate::number::is_opposite(mirrored, p.0) && crate::number::is_count(
            math,
            height,
            h,
        ) && is_on_screen(h, y, p.1);
    let (w2, mirrored2, h2) = choose|w: S, mirrored: S, h: S|
        #![trigger crate::number::is_count(math, width, w), is_on_screen(w, x, mirrored), crate::number::is_count(math, height, h)]
        crate::number::is_count(math, width, w) && is_on_screen(w, x, mirrored)
            && crate::number::is_opposite(mirrored, q.0) && crate::number::is_count(
            math,
            height,
            h,
        ) && is_on_screen(h, y, q.1);
    assert(w == w2 && h == h2);
    lemma_on_screen_is_unique(w, x, mirrored, mirrored2);
    lemma_on_screen_is_unique(h, y, p.1, q.1);
}

/// A camera has one set of directions, or none, where each operation of the
/// numbers and of `math` gives one result.
pub proof fn lemma_basis_is_unique<S: Number, M: Math<S>>(
    math: M,
    camera_pos: Vec3<S>,
    look_at: Vec3<S>,
    p: Option<Basis<S>>,
    q: Option<Basis<S>>,
)
    requires
        is_basis(math, camera_pos, look_at, p),
        is_basis(math, camera_pos, look_at, q),
        crate::number::is_exact::<S>(),
        crate::number::is_exact_math(math),
    ensures
        p == q,
{
    let la = choose|look: Option<Vec3<S>>| #[trigger]
        is_look(math, camera_pos, look_at, look) && is_based_on_look(math, look, p);
    let lb = choose|look: Option<Vec3<S>>| #[trigger]
        is_look(math, camera_pos, look_at, look) && is_based_on_look(math, look, q);
    let ta = choose|to_target: Vec3<S>| #[trigger]
        crate::vec3::is_vec_difference(look_at, camera_pos, to_target)
            && crate::vec3::is_normalized(math, to_target, la);
    let tb = choose|to_target: Vec3<S>| #[trigger]
        crate::vec3::is_vec_difference(look_at, camera_pos, to_target)
            && crate::vec3::is_normalized(math, to_target, lb);
    assert(ta.x == tb.x && ta.y == tb.y && ta.z == tb.z);
    crate::vec3::lemma_normalized_is_unique(math, ta, la, lb);
    if la is Some {
        let l = la->0;
        let ra = choose|right: Option<Vec3<S>>| #[trigger]
            is_right(math, l, right) && is_based_on_right(math, l, right, p);
        let rb = choose|right: Option<Vec3<S>>| #[trigger]
            is_right(math, l, right) && is_based_on_right(math, l, right, q);
        let (refa, sa) = choose|reference: Vec3<S>, side: Vec3<S>|
            #![trigger crate::vec3::is_cross(reference, l, side)]
            crate::vec3::is_whole_vec(0, -1i32, 0, reference) && crate::vec3::is_cross(
                reference,
                l,
                side,
            ) && crate::vec3::is_normalized(math, side, ra);
        let (refb, sb) = choose|reference: Vec3<S>, side: Vec3<S>|
            #![trigger crate::vec3::is_cross(reference, l, side)]
            crate::vec3::is_whole_vec(0, -1i32, 0, reference) && crate::vec3::is_cross(
                reference,
                l,
                side,
            ) && crate::vec3::is_normalized(math, side, rb);
        crate::number::lemma_signed_is_unique(0, refa.x, refb.x);
        crate::number::lemma_signed_is_unique(-1i32, refa.y, refb.y);
        crate::number::lemma_signed_is_unique(0, refa.z, refb.z);
        assert(refa == refb);
        crate::vec3::lemma_cross_is_unique(refa, l, sa, sb);
        crate::vec3::lemma_normalized_is_unique(math, sa, ra, rb);
        if ra is Some {
            let r = ra->0;
            let da = choose|down: Option<Vec3<S>>| #[trigger]
                is_down(math, l, r, down) && is_based_on_down(l, r, down, p);
            let db = choose|down: Option<Vec3<S>>| #[trigger]
                is_down(math, l, r, down) && is_based_on_down(l, r, down, q);
            let ba = choose|below: Vec3<S>| #[trigger]
                crate::vec3::is_cross(l, r, below) && crate::vec3::is_normalized(math, below, da);
            let bb = choose|below: Vec3<S>| #[trigger]
                crate::vec3::is_cross(l, r, below) && crate::vec3::is_normalized(math, below, db);
            crate::vec3::lemma_cross_is_unique(l, r, ba, bb);
            crate::vec3::lemma_normalized_is_unique(math, ba, da, db);
        }
    }
}

/// A place of the image plane has one direction from the camera, or none,
/// where each operation of the numbers and of `math` gives one result.
pub proof fn lemma_through_is_unique<S: Number, M: Math<S>>(
    math: M,
    camera_pos: Vec3<S>,
    zoom: S,
    basis: Basis<S>,
    u: S,
    v: S,
    p: Option<Vec3<S>>,
    q: Option<Vec3<S>>,
)
    requires
        is_through(math, camera_pos, zoom, basis, u, v, p),
        is_through(math, camera_pos, zoom, basis, u, v, q),
        crate::number::is_exact::<S>(),
        crate::number::is_exact_math(math),
    ensures
        p == q,
{
    let (ahead, middle, aside, along, below, pixel, toward) = choose|
        ahead: Vec3<S>,
        middle: Vec3<S>,
        aside: Vec3<S>,
        along: Vec3<S>,
        below: Vec3<S>,
        pixel: Vec3<S>,
        toward: Vec3<S>,
    |
        #![trigger crate::vec3::is_vec_sum(camera_pos, ahead, middle), crate::vec3::is_vec_sum(middle, aside, along), crate::vec3::is_vec_sum(along, below, pixel), crate::vec3::is_vec_difference(pixel, camera_pos, toward)]
        crate::vec3::is_scaled(basis.look, zoom, ahead) && crate::vec3::is_vec_sum(
            camera_pos,
            ahead,
            middle,
        ) && crate::vec3::is_scaled(basis.right, u, aside) && crate::vec3::is_vec_sum(
            middle,
            aside,
            along,
        ) && crate::vec3::is_scaled(basis.down, v, below) && crate::vec3::is_vec_sum(
            along,
            below,
            pixel,
        ) && crate::vec3::is_vec_difference(pixel, camera_pos, toward)
            && crate::vec3::is_normalized(math, toward, p);
    let (ahead2, middle2, aside2, along2, below2, pixel2, toward2) = choose|
        ahead: Vec3<S>,
        middle: Vec3<S>,
        aside: Vec3<S>,
        along: Vec3<S>,
        below: Vec3<S>,
        pixel: Vec3<S>,
        toward: Vec3<S>,
    |
        #![trigger crate::vec3::is_vec_sum(camera_pos, ahead, middle), crate::vec3::is_vec_sum(middle, aside, along), crate::vec3::is_vec_sum(along, below, pixel), crate::vec3::is_vec_difference(pixel, camera_pos, toward)]
        crate::vec3::is_scaled(basis.look, zoom, ahead) && crate::vec3::is_vec_sum(
            camera_pos,
            ahead,
            middle,
        ) && crate::vec3::is_scaled(basis.right, u, aside) && crate::vec3::is_vec_sum(
            middle,
            aside,
            along,
        ) && crate::vec3::is_scaled(basis.down, v, below) && crate::vec3::is_vec_sum(
            along,
            below,
            pixel,
        ) && crate::vec3::is_vec_difference(pixel, camera_pos, toward)
            && crate::vec3::is_normalized(math, toward, q);
    assert(ahead.x == ahead2.x && ahead.y == ahead2.y && ahead.z == ahead2.z);
    assert(middle.x == middle2.x && middle.y == middle2.y && middle.z == middle2.z);
    assert(aside.x == aside2.x && aside.y == aside2.y && aside.z == aside2.z);
    assert(along.x == along2.x && along.y == along2.y && along.z == along2.z);
    assert(below.x == below2.x && below.y == below2.y && below.z == below2.z);
    assert(pixel.x == pixel2.x && pixel.y == pixel2.y && pixel.z == pixel2.z);
    assert(toward.x == toward2.x && toward.y == toward2.y && toward.z == toward2.z);
    crate::vec3::lemma_normalized_is_unique(math, toward, p, q);
}

/// Pixel coordinates have one ray, or the error, where each operation of the
/// numbers and of `math` gives one result.
pub proof fn lemma_camera_ray_is_unique<S: Number, M: Math<S>, C>(
    math: M,
    config: RayMarcherConfig<S, C>,
    x: S,
    y: S,
    p: Result<Vec3<S>, ZeroMagnitude>,
    q: Result<Vec3<S>, ZeroMagnitude>,
)
    requires
        is_camera_ray(math, config, x, y, p),
        is_camera_ray(math, config, x, y, q),
        crate::number::is_exact::<S>(),
        crate::number::is_exact_math(math),
    ensures
        p == q,
{
    let (uva, ba) = choose|uv: (S, S), basis: Option<Basis<S>>|
        #![trigger is_on_plane(math, config.width, config.height, x, y, uv), is_basis(math, config.camera_pos, config.look_at, basis)]
        is_on_plane(math, config.width, config.height, x, y, uv) && is_basis(
            math,
            config.camera_pos,
            config.look_at,
            basis,
        ) && is_seen_through(math, config.camera_pos, config.camera_zoom, basis, uv, p);
    let (uvb, bb) = choose|uv: (S, S), basis: Option<Basis<S>>|
        #![trigger is_on_plane(math, config.width, config.height, x, y, uv), is_basis(math, config.camera_pos, config.look_at, basis)]
        is_on_plane(math, config.width, config.height, x, y, uv) && is_basis(
            math,
            config.camera_pos,
            config.look_at,
            basis,
        ) && is_seen_through(math, config.camera_pos, config.camera_zoom, basis, uv, q);
    lemma_on_plane_is_unique(math, config.width, config.height, x, y, uva, uvb);
    lemma_basis_is_unique(math, config.camera_pos, config.look_at, ba, bb);
    match ba {
        None => {
            assert(p->Err_0 == q->Err_0);
        },
        Some(b) => {
            let da = choose|dir: Option<Vec3<S>>| #[trigger]
                is_through(math, config.camera_pos, config.camera_zoom, b, uva.0, uva.1, dir)
                    && is_ray_of(dir, p);
            let db = choose|dir: Option<Vec3<S>>| #[trigger]
                is_through(math, config.camera_pos, config.camera_zoom, b, uva.0, uva.1, dir)
                    && is_ray_of(dir, q);
            lemma_through_is_unique(
                math,
                config.camera_pos,
                config.camera_zoom,
                b,
                uva.0,
                uva.1,
                da,
                db,
            );
            if da is None {
                assert(p->Err_0 == q->Err_0);
            }
        },
    }
}

} // verus!
