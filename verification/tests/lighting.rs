use raymarch::color::Color;
use raymarch::lighting::{lighting_at, shade, specular_weight, Lighting, NORMAL_BACKOFF_PARTS};
use raymarch::number::Math;
use raymarch::ray::ZeroMagnitude;
use raymarch::scene_object::{SceneObject, Sphere};
use raymarch::vec3::Vec3;

/// The functions of double precision.
struct Float;

impl Math<f64> for Float {
    fn sqrt(&self, x: f64) -> f64 {
        x.sqrt()
    }

    fn ln(&self, x: f64) -> f64 {
        x.ln()
    }

    fn powf(&self, x: f64, exponent: f64) -> f64 {
        x.powf(exponent)
    }

    fn from_usize(&self, n: usize) -> f64 {
        n as f64
    }

    fn to_byte(&self, x: f64) -> u8 {
        x as u8
    }
}

fn at(x: f64, y: f64, z: f64) -> Vec3<f64> {
    Vec3 { x, y, z }
}

fn lighting(diffuse: f64, specular: f64, toward_viewer: f64) -> Lighting<f64> {
    Lighting {
        diffuse,
        specular,
        toward_viewer,
    }
}

#[test]
fn shade_adds_the_diffuse_and_the_specular_part() {
    assert_eq!(shade(0.5f64, lighting(0.5, 0.25, 0.9), 1.0f64), 0.5);
}

#[test]
fn shade_drops_the_specular_part_away_from_the_viewer() {
    assert_eq!(shade(0.5f64, lighting(0.5, 0.25, -0.9), 1.0f64), 0.25);
}

#[test]
fn shade_drops_the_specular_part_at_a_right_angle() {
    // Greater than zero is asked for: zero itself does not count.
    assert_eq!(shade(0.5f64, lighting(0.5, 0.25, 0.0), 1.0f64), 0.25);
    assert_eq!(shade(0.5f64, lighting(0.5, 0.25, -0.0), 1.0f64), 0.25);
    assert_eq!(shade(0.5f64, lighting(0.5, 0.25, f64::MIN_POSITIVE), 1.0f64), 0.5);
}

#[test]
fn shade_keeps_a_specular_term_that_is_no_number_out() {
    // A negative base under a broken exponent gives no number; away from the
    // viewer it is never looked at.
    let specular = (-0.5f64).powf(20.5);
    assert!(specular.is_nan());
    assert_eq!(shade(0.5f64, lighting(0.5, specular, -0.5), 1.0f64), 0.25);
    assert_eq!(shade(0.5f64, lighting(0.5, 0.25, f64::NAN), 1.0f64), 0.25);
}

#[test]
fn shade_lets_a_negative_diffuse_term_through() {
    assert_eq!(shade(1.0f64, lighting(-0.5, 0.0, 1.0), 1.0f64), -0.5);
}

#[test]
fn shade_serves_a_color_of_three_channels() {
    assert_eq!(
        shade(at(1.0, 0.0, 0.5), lighting(0.5, 0.25, 1.0), Vec3::white()),
        at(0.75, 0.25, 0.5)
    );
}

#[test]
fn shade_serves_whole_numbers() {
    let lighting = Lighting {
        diffuse: 3i64,
        specular: 5i64,
        toward_viewer: 1i64,
    };
    assert_eq!(shade(2i64, lighting, 1i64), 11);
}

#[test]
fn specular_weight_is_the_term_or_zero() {
    assert_eq!(specular_weight(&lighting(0.5, 0.25, 0.1)), 0.25);
    assert_eq!(specular_weight(&lighting(0.5, 0.25, -0.1)), 0.0);
    assert_eq!(specular_weight(&lighting(0.5, 0.25, 0.0)), 0.0);
}

/// A floor at y = 0 that knows its normal.
struct Floor;

impl SceneObject<f64, Float, f64> for Floor {
    fn distance_to(&self, _: &Float, point: Vec3<f64>, _: f64) -> f64 {
        point.y
    }

    fn get_color(&self, _: &Float, _: f64) -> f64 {
        1.0
    }

    fn normal(&self, _: &Float, _: Vec3<f64>, _: f64) -> Option<Vec3<f64>> {
        Some(at(0.0, 1.0, 0.0))
    }
}

#[test]
fn the_normal_is_taken_one_ten_millionth_back_along_the_ray() {
    assert_eq!(NORMAL_BACKOFF_PARTS, 10_000_000);
}

#[test]
fn light_from_straight_above_lights_a_floor_fully() {
    let l = lighting_at(
        &Floor,
        &Float,
        at(0.0, 5.0, 0.0),
        at(0.0, 3.0, 0.0),
        8.0,
        at(0.0, 0.0, 0.0),
        at(0.0, -1.0, 0.0),
        0.0,
    )
    .unwrap();
    assert_eq!(l.diffuse, 1.0);
    assert_eq!(l.toward_viewer, 1.0);
    assert_eq!(l.specular, 1.0);
}

#[test]
fn slanting_light_lights_a_floor_by_the_cosine() {
    // The light stands at 45 degrees, the viewer where the light is mirrored.
    let l = lighting_at(
        &Floor,
        &Float,
        at(3.0, 3.0, 0.0),
        at(-2.0, 2.0, 0.0),
        2.0,
        at(0.0, 0.0, 0.0),
        at(1.0, -1.0, 0.0),
        0.0,
    )
    .unwrap();
    let cosine = 0.5f64.sqrt();
    assert!((l.diffuse - cosine).abs() < 1E-12);
    assert!((l.toward_viewer - 1.0).abs() < 1E-12);
    assert!((l.specular - 1.0).abs() < 1E-12);
}

#[test]
fn the_specular_term_is_the_cosine_to_the_power_of_the_shininess() {
    // The light from straight above is mirrored straight up; the viewer
    // stands at 60 degrees from that.
    let l = lighting_at(
        &Floor,
        &Float,
        at(0.0, 5.0, 0.0),
        at(3.0f64.sqrt(), 1.0, 0.0),
        3.0,
        at(0.0, 0.0, 0.0),
        at(0.0, -1.0, 0.0),
        0.0,
    )
    .unwrap();
    assert!((l.toward_viewer - 0.5).abs() < 1E-12);
    assert_eq!(l.specular, l.toward_viewer.powf(3.0));
}

#[test]
fn light_from_below_gives_a_negative_diffuse_term() {
    let l = lighting_at(
        &Floor,
        &Float,
        at(0.0, -5.0, 0.0),
        at(0.0, 3.0, 0.0),
        8.0,
        at(0.0, 0.0, 0.0),
        at(0.0, -1.0, 0.0),
        0.0,
    )
    .unwrap();
    assert_eq!(l.diffuse, -1.0);
    assert_eq!(l.toward_viewer, -1.0);
}

#[test]
fn a_light_on_the_hit_point_has_no_direction() {
    let l = lighting_at(
        &Floor,
        &Float,
        at(1.0, 0.0, 1.0),
        at(0.0, 3.0, 0.0),
        8.0,
        at(1.0, 0.0, 1.0),
        at(0.0, -1.0, 0.0),
        0.0,
    );
    assert_eq!(l.err(), Some(ZeroMagnitude));
}

#[test]
fn a_viewer_on_the_hit_point_has_no_direction() {
    let l = lighting_at(
        &Floor,
        &Float,
        at(0.0, 5.0, 0.0),
        at(1.0, 0.0, 1.0),
        8.0,
        at(1.0, 0.0, 1.0),
        at(0.0, -1.0, 0.0),
        0.0,
    );
    assert_eq!(l.err(), Some(ZeroMagnitude));
}

#[test]
fn a_sphere_is_lit_through_its_central_normal() {
    let sphere = Sphere {
        center: at(0.0, 0.0, 0.0),
        radius: 1.0,
        color: 1.0f64,
    };
    let l = lighting_at(
        &sphere,
        &Float,
        at(0.0, 0.0, 2.5),
        at(0.0, 0.0, 2.5),
        50.0,
        at(0.0, 0.0, 1.0),
        at(0.0, 0.0, -1.0),
        0.0,
    )
    .unwrap();
    assert!((l.diffuse - 1.0).abs() < 1E-6);
    assert!((l.toward_viewer - 1.0).abs() < 1E-6);
}
