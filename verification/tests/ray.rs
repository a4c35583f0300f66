use raymarch::number::Math;
use raymarch::ray::{cast_ray, outside, March, Verdict, ZeroMagnitude, HIT_THRESHOLD_PARTS, MAX_STEPS};
use raymarch::scene_object::{SceneObject, Sphere};
use raymarch::vec3::Vec3;
use std::cell::Cell;

/// The functions of double precision.
struct Float;

impl Math<f64> for Float {
    fn sqrt(&self, x: f64) -> f64 {
        x.sqrt()
    }

    fn ln(&self, x: f64) -> f64 {
        x.ln()
    }

    fn powf(&self, x: f64, exponent: f64) -> f64 {
        x.powf(exponent)
    }

    fn from_usize(&self, n: usize) -> f64 {
        n as f64
    }

    fn to_byte(&self, x: f64) -> u8 {
        x as u8
    }
}

fn at(x: f64, y: f64, z: f64) -> Vec3<f64> {
    Vec3 { x, y, z }
}

#[test]
fn the_numbers_of_the_march_are_what_they_are() {
    assert_eq!(MAX_STEPS, 200);
    assert_eq!(HIT_THRESHOLD_PARTS, 10_000);
}

#[test]
fn a_fresh_march_has_no_evaluations() {
    assert_eq!(March::new().evaluations(), 0);
}

#[test]
fn step_counts_one_evaluation() {
    let mut march = March::new();
    assert_eq!(march.step(false, false), Verdict::Continue);
    assert_eq!(march.evaluations(), 1);
    assert_eq!(march.step(false, false), Verdict::Continue);
    assert_eq!(march.evaluations(), 2);
}

#[test]
fn a_close_evaluation_is_a_hit() {
    let mut march = March::new();
    assert_eq!(march.step(true, false), Verdict::Hit);
}

#[test]
fn an_evaluation_outside_the_box_is_a_miss() {
    let mut march = March::new();
    assert_eq!(march.step(false, true), Verdict::Miss);
}

#[test]
fn a_hit_outside_the_box_is_still_a_hit() {
    let mut march = March::new();
    assert_eq!(march.step(true, true), Verdict::Hit);
}

#[test]
fn the_march_goes_on_for_max_steps_evaluations() {
    let mut march = March::new();
    for _ in 0..MAX_STEPS {
        assert_eq!(march.step(false, false), Verdict::Continue);
    }
    assert_eq!(march.evaluations(), MAX_STEPS);
    assert_eq!(march.step(false, false), Verdict::Miss);
    assert_eq!(march.evaluations(), MAX_STEPS + 1);
}

#[test]
fn a_hit_on_the_last_evaluation_is_still_a_hit() {
    let mut march = March::new();
    for _ in 0..MAX_STEPS {
        assert_eq!(march.step(false, false), Verdict::Continue);
    }
    assert_eq!(march.step(true, true), Verdict::Hit);
}

#[test]
fn an_exhausted_march_stays_exhausted() {
    let mut march = March::new();
    for _ in 0..1000 {
        march.step(false, false);
    }
    assert_eq!(march.evaluations(), MAX_STEPS + 1);
    assert_eq!(march.step(false, false), Verdict::Miss);
    assert_eq!(march.step(true, false), Verdict::Hit);
    assert_eq!(march.evaluations(), MAX_STEPS + 1);
}

#[test]
fn outside_asks_for_any_axis_and_either_side() {
    let planes = at(3.0, 3.0, 3.0);
    assert!(!outside(at(0.0, 0.0, 0.0), planes));
    assert!(!outside(at(3.0, -3.0, 3.0), planes));
    assert!(outside(at(3.0, -3.0, 3.01), planes));
    assert!(outside(at(-4.0, 0.0, 0.0), planes));
    assert!(outside(at(0.0, 4.0, 0.0), planes));
    assert!(outside(at(0.0, 0.0, -3.5), planes));
}

#[test]
fn outside_takes_each_plane_by_itself() {
    let planes = at(1.0, 2.0, 3.0);
    assert!(!outside(at(1.0, 2.0, 3.0), planes));
    assert!(outside(at(1.5, 0.0, 0.0), planes));
    assert!(!outside(at(0.0, 1.5, 0.0), planes));
    assert!(outside(at(0.0, 2.5, 0.0), planes));
    assert!(!outside(at(0.0, 0.0, 2.5), planes));
}

fn unit_sphere() -> Sphere<f64, f64> {
    Sphere {
        center: at(0.0, 0.0, 0.0),
        radius: 1.0,
        color: 1.0,
    }
}

#[test]
fn a_ray_toward_the_sphere_hits_it() {
    let hit = cast_ray(
        &unit_sphere(),
        &Float,
        at(0.0, 0.0, 5.0),
        at(0.0, 0.0, -1.0),
        at(100.0, 100.0, 100.0),
        0.0,
    )
    .unwrap()
    .unwrap();
    assert!((hit.len - 4.0).abs() < 1E-3);
    assert!(hit.hit_point.x.abs() < 1E-3);
    assert!(hit.hit_point.y.abs() < 1E-3);
    assert!((hit.hit_point.z - 1.0).abs() < 1E-3);
}

#[test]
fn a_ray_of_any_length_toward_the_sphere_hits_it() {
    let hit = cast_ray(
        &unit_sphere(),
        &Float,
        at(0.0, 0.0, 5.0),
        at(0.0, 0.0, -7.5),
        at(100.0, 100.0, 100.0),
        0.0,
    )
    .unwrap()
    .unwrap();
    assert_eq!(hit.len, 4.0);
    assert_eq!(hit.hit_point, at(0.0, 0.0, 1.0));
}

#[test]
fn a_ray_away_from_the_sphere_misses_it() {
    let outcome = cast_ray(
        &unit_sphere(),
        &Float,
        at(0.0, 0.0, 5.0),
        at(0.0, 0.0, 1.0),
        at(3.0, 3.0, 3.0),
        0.0,
    );
    assert!(outcome.unwrap().is_none());
}

#[test]
fn a_ray_without_a_direction_cannot_be_cast() {
    let outcome = cast_ray(
        &unit_sphere(),
        &Float,
        at(0.0, 0.0, 5.0),
        at(0.0, 0.0, 0.0),
        at(3.0, 3.0, 3.0),
        0.0,
    );
    assert_eq!(outcome.err(), Some(ZeroMagnitude));
}

/// A distance field that answers from a list, one distance for each
/// evaluation, and the last of them ever after.
struct Script<'a> {
    distances: &'a [f64],
    asked: &'a Cell<usize>,
}

impl SceneObject<f64, Float, f64> for Script<'_> {
    fn distance_to(&self, _: &Float, _: Vec3<f64>, _: f64) -> f64 {
        let n = self.asked.get();
        self.asked.set(n + 1);
        self.distances[n.min(self.distances.len() - 1)]
    }

    fn get_color(&self, _: &Float, _: f64) -> f64 {
        1.0
    }
}

/// Casts a ray along x from the origin against the distances of a list,
/// between planes at `bound`. Gives the length of the ray at the hit and
/// the number of evaluations.
fn cast_along_x(distances: &[f64], bound: f64) -> (Option<f64>, usize) {
    let asked = Cell::new(0);
    let script = Script {
        distances,
        asked: &asked,
    };
    let hit = cast_ray(
        &script,
        &Float,
        at(0.0, 0.0, 0.0),
        at(1.0, 0.0, 0.0),
        at(bound, bound, bound),
        0.0,
    )
    .unwrap();
    (hit.map(|h| h.len), asked.get())
}

#[test]
fn the_length_of_a_ray_is_the_sum_of_the_distances() {
    assert_eq!(cast_along_x(&[0.5, 0.25, 0.125, 0.0], 100.0), (Some(0.875), 4));
}

#[test]
fn the_tip_of_a_ray_lies_at_its_length_from_the_origin() {
    let asked = Cell::new(0);
    let script = Script {
        distances: &[1.0, 0.5, 0.0],
        asked: &asked,
    };
    let hit = cast_ray(
        &script,
        &Float,
        at(1.0, 2.0, 3.0),
        at(0.0, 3.0, 4.0),
        at(100.0, 100.0, 100.0),
        0.0,
    )
    .unwrap()
    .unwrap();
    assert_eq!(hit.len, 1.5);
    let k = 1.0 / 5.0;
    assert_eq!(hit.hit_point, at(1.0 + 1.5 * (k * 0.0), 2.0 + 1.5 * (k * 3.0), 3.0 + 1.5 * (k * 4.0)));
}

#[test]
fn the_hit_threshold_is_one_ten_thousandth() {
    let just_below = f64::from_bits(1E-4f64.to_bits() - 1);
    assert_eq!(cast_along_x(&[just_below], 100.0), (Some(just_below), 1));
    // Below the threshold is asked for: the threshold itself is no hit.
    assert_eq!(cast_along_x(&[1E-4, 0.0], 100.0), (Some(1E-4), 2));
}

#[test]
fn a_negative_distance_is_a_hit() {
    assert_eq!(cast_along_x(&[-1.0], 100.0), (Some(-1.0), 1));
}

#[test]
fn a_ray_stops_at_the_first_miss() {
    // The tip leaves the box with the sixth evaluation.
    assert_eq!(cast_along_x(&[1.0], 5.5), (None, 6));
}

#[test]
fn a_ray_takes_a_hit_outside_the_box() {
    assert_eq!(cast_along_x(&[10.0, 0.0], 3.0), (None, 1));
    assert_eq!(cast_along_x(&[-10.0], 3.0), (Some(-10.0), 1));
}

#[test]
fn a_ray_has_max_steps_and_one_evaluations_at_most() {
    // A distance field that always answers the same: the ray neither hits
    // nor, in a huge box, leaves.
    assert_eq!(cast_along_x(&[1.0], 1E300), (None, MAX_STEPS as usize + 1));
}

#[test]
fn a_ray_takes_a_hit_on_the_last_evaluation() {
    let mut distances = vec![1.0; MAX_STEPS as usize];
    distances.push(0.0);
    assert_eq!(
        cast_along_x(&distances, 1E300),
        (Some(MAX_STEPS as f64), MAX_STEPS as usize + 1)
    );
}

#[test]
fn a_distance_that_is_no_number_is_no_hit() {
    let (hit, asked) = cast_along_x(&[f64::NAN], 3.0);
    assert_eq!(hit, None);
    assert_eq!(asked, MAX_STEPS as usize + 1);
}
