use raymarch::camera::RayMarcherConfig;
use raymarch::number::Math;
use raymarch::ray::ZeroMagnitude;
use raymarch::raymarcher::RayMarcher;
use raymarch::scene_object::{SceneObject, Sphere};
use raymarch::vec3::Vec3;
use std::cell::RefCell;

/// The functions of double precision.
struct Float;

impl Math<f64> for Float {
    fn sqrt(&self, x: f64) -> f64 {
        x.sqrt()
    }

    fn ln(&self, x: f64) -> f64 {
        x.ln()
    }

    fn powf(&self, x: f64, exponent: f64) -> f64 {
        x.powf(exponent)
    }

    fn from_usize(&self, n: usize) -> f64 {
        n as f64
    }

    fn to_byte(&self, x: f64) -> u8 {
        x as u8
    }
}

fn at(x: f64, y: f64, z: f64) -> Vec3<f64> {
    Vec3 { x, y, z }
}

/// The unit sphere about the origin, seen and lit from (0, 0, 2.5).
fn sphere_scene(side: u32) -> RayMarcher<f64, f64, Sphere<f64, f64>> {
    RayMarcher {
        object: Sphere {
            center: at(0.0, 0.0, 0.0),
            radius: 1.0,
            color: 1.0,
        },
        config: RayMarcherConfig {
            width: 8,
            height: 8,
            camera_pos: at(0.0, 0.0, 2.5),
            light_pos: at(0.0, 0.0, 2.5),
            background_color: 0.125,
            anti_aliasing_level: side,
            ..Default::default()
        },
    }
}

#[test]
fn a_missed_ray_has_the_background_color() {
    let scene = sphere_scene(1);
    assert_eq!(
        scene.trace_with_lighting(&Float, at(0.0, 0.0, 2.5), at(0.0, 0.0, 1.0), 0.0),
        Ok(0.125)
    );
    assert_eq!(
        scene.trace_with_lighting(&Float, at(0.0, 0.0, 2.5), at(0.0, 1.0, 0.0), 0.0),
        Ok(0.125)
    );
}

#[test]
fn a_sphere_lit_from_the_camera_is_bright_in_the_middle() {
    // Straight at the sphere: the normal points at the light and the viewer,
    // so the diffuse and the specular term are both one.
    let color = sphere_scene(1)
        .trace_with_lighting(&Float, at(0.0, 0.0, 2.5), at(0.0, 0.0, -1.0), 0.0)
        .unwrap();
    assert!((color - 2.0).abs() < 1E-3);
}

#[test]
fn a_ray_without_a_direction_cannot_be_traced() {
    assert_eq!(
        sphere_scene(1).trace_with_lighting(&Float, at(0.0, 0.0, 2.5), at(0.0, 0.0, 0.0), 0.0),
        Err(ZeroMagnitude)
    );
}

#[test]
fn a_pixel_of_one_subpixel_has_the_color_of_its_one_ray() {
    let scene = sphere_scene(1);
    for &(x, y) in &[(0usize, 0usize), (4, 4), (3, 5), (7, 7), (2, 6)] {
        let ray = scene.config.camera_ray_direction(&Float, x as f64, y as f64).unwrap();
        let single = scene.trace_with_lighting(&Float, scene.config.camera_pos, ray, 0.0);
        assert_eq!(scene.get_pixel_color(&Float, x, y, 0.0), single);
    }
}

#[test]
fn a_pixel_is_the_mean_of_its_subpixels() {
    let scene = sphere_scene(2);
    let (x, y) = (3usize, 2usize);
    let mut sum = 0.0;
    for i in 0..2 {
        for j in 0..2 {
            let ray = scene
                .config
                .camera_ray_direction(&Float, x as f64 + i as f64 * 0.5, y as f64 + j as f64 * 0.5)
                .unwrap();
            sum = sum + scene
                .trace_with_lighting(&Float, scene.config.camera_pos, ray, 0.0)
                .unwrap();
        }
    }
    assert_eq!(scene.get_pixel_color(&Float, x, y, 0.0), Ok(sum * (1.0 / 4.0)));
}

#[test]
fn the_edge_of_the_image_shows_the_background() {
    let mut scene = sphere_scene(2);
    scene.object.radius = 0.5;
    assert_eq!(scene.get_pixel_color(&Float, 0, 0, 0.0), Ok(0.125));
    assert_eq!(scene.get_pixel_color(&Float, 7, 7, 0.0), Ok(0.125));
    let middle = scene.get_pixel_color(&Float, 4, 4, 0.0).unwrap();
    assert!(middle > 1.0);
}

#[test]
fn a_pixel_of_no_subpixels_is_no_number() {
    // Nothing is traced, and the zero is multiplied by one over zero.
    let color = sphere_scene(0).get_pixel_color(&Float, 4, 4, 0.0).unwrap();
    assert!(color.is_nan());
}

#[test]
fn a_camera_without_a_direction_renders_nothing() {
    let mut scene = sphere_scene(2);
    scene.config.look_at = scene.config.camera_pos;
    assert_eq!(scene.get_pixel_color(&Float, 4, 4, 0.0), Err(ZeroMagnitude));
}

#[test]
fn a_light_on_a_hit_point_fails_the_pixel() {
    let mut scene = sphere_scene(1);
    // The ray through the middle hits the sphere at (0, 0, 1).
    let ray = scene.config.camera_ray_direction(&Float, 4.0, 4.0).unwrap();
    let hit = raymarch::ray::cast_ray(
        &scene.object,
        &Float,
        scene.config.camera_pos,
        ray,
        scene.config.backplane_positions,
        0.0,
    )
    .unwrap()
    .unwrap();
    scene.config.light_pos = hit.hit_point;
    assert_eq!(scene.get_pixel_color(&Float, 4, 4, 0.0), Err(ZeroMagnitude));
    // A pixel that shows the background is none the worse for it.
    assert_eq!(scene.get_pixel_color(&Float, 0, 0, 0.0), Ok(0.125));
}

/// An object that restates the sphere and records the colour it is asked
/// for and the time it is asked at.
struct Timed<'a>(&'a RefCell<Vec<f64>>);

impl SceneObject<f64, Float, f64> for Timed<'_> {
    fn distance_to(&self, _: &Float, point: Vec3<f64>, t: f64) -> f64 {
        self.0.borrow_mut().push(t);
        (point.x * point.x + point.y * point.y + point.z * point.z).sqrt() - 1.0
    }

    fn get_color(&self, _: &Float, t: f64) -> f64 {
        t
    }
}

#[test]
fn the_time_is_handed_on_to_the_object() {
    let times = RefCell::new(Vec::new());
    let scene = RayMarcher {
        object: Timed(&times),
        config: RayMarcherConfig {
            width: 8,
            height: 8,
            camera_pos: at(0.0, 0.0, 2.5),
            light_pos: at(0.0, 0.0, 2.5),
            anti_aliasing_level: 1,
            specular_color: 0.0,
            ..Default::default()
        },
    };
    let color = scene.get_pixel_color(&Float, 4, 4, 0.75).unwrap();
    // The colour of the object is its time, times a diffuse term of one.
    assert!((color - 0.75).abs() < 1E-3);
    assert!(times.borrow().iter().all(|&t| t == 0.75));
    assert!(!times.borrow().is_empty());
}

#[test]
fn a_color_of_three_channels_is_rendered_channel_by_channel() {
    let grey = sphere_scene(2);
    let rgb = RayMarcher {
        object: Sphere {
            center: at(0.0, 0.0, 0.0),
            radius: 1.0,
            color: at(1.0, 0.5, 0.0),
        },
        config: RayMarcherConfig {
            width: 8,
            height: 8,
            camera_pos: at(0.0, 0.0, 2.5),
            light_pos: at(0.0, 0.0, 2.5),
            background_color: at(0.125, 0.125, 0.125),
            anti_aliasing_level: 2,
            specular_color: at(1.0, 1.0, 1.0),
            ..Default::default()
        },
    };
    for &(x, y) in &[(0usize, 0usize), (4, 4), (3, 5), (5, 2)] {
        let g = grey.get_pixel_color(&Float, x, y, 0.0).unwrap();
        let c = rgb.get_pixel_color(&Float, x, y, 0.0).unwrap();
        // The red channel has the colour of the grey sphere.
        assert_eq!(c.x, g);
        assert!(c.y <= c.x && c.z <= c.y);
    }
}
