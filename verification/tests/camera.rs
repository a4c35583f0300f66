use raymarch::camera::RayMarcherConfig;
use raymarch::number::Math;
use raymarch::ray::ZeroMagnitude;
use raymarch::vec3::Vec3;

/// The functions of double precision.
struct Float;

impl Math<f64> for Float {
    fn sqrt(&self, x: f64) -> f64 {
        x.sqrt()
    }

    fn ln(&self, x: f64) -> f64 {
        x.ln()
    }

    fn powf(&self, x: f64, exponent: f64) -> f64 {
        x.powf(exponent)
    }

    fn from_usize(&self, n: usize) -> f64 {
        n as f64
    }

    fn to_byte(&self, x: f64) -> u8 {
        x as u8
    }
}

fn at(x: f64, y: f64, z: f64) -> Vec3<f64> {
    Vec3 { x, y, z }
}

#[test]
fn the_default_configuration_is_a_full_scene() {
    let c: RayMarcherConfig<f64, f64> = Default::default();
    assert_eq!(c.width, 10);
    assert_eq!(c.height, 10);
    assert_eq!(c.camera_pos, at(2.0, 4.0, 4.0));
    assert_eq!(c.look_at, at(0.0, 0.0, 0.0));
    assert_eq!(c.light_pos, at(2.0, 4.0, 4.0));
    assert_eq!(c.background_color, 0.0);
    assert_eq!(c.camera_zoom, 3.0);
    assert_eq!(c.anti_aliasing_level, 4);
    assert_eq!(c.backplane_positions, at(3.0, 3.0, 3.0));
    assert_eq!(c.specular_shininess, 50.0);
    assert_eq!(c.specular_color, 1.0);
}

#[test]
fn the_default_configuration_serves_a_color_of_three_channels() {
    let c: RayMarcherConfig<f64, Vec3<f64>> = Default::default();
    assert_eq!(c.background_color, at(0.0, 0.0, 0.0));
    assert_eq!(c.specular_color, at(1.0, 1.0, 1.0));
    assert_eq!(c.light_pos, c.camera_pos);
}

/// A camera on the z axis that looks at the origin.
fn head_on() -> RayMarcherConfig<f64, f64> {
    RayMarcherConfig {
        width: 4,
        height: 2,
        camera_pos: at(0.0, 0.0, 5.0),
        camera_zoom: 2.0,
        ..Default::default()
    }
}

#[test]
fn the_middle_of_the_image_looks_at_the_target() {
    let ray = head_on().camera_ray_direction(&Float, 2.0, 1.0).unwrap();
    assert_eq!(ray, at(0.0, 0.0, -1.0));
}

#[test]
fn x_is_mirrored_and_y_goes_down() {
    // Seen from the camera, looking along -z with y up: pixel 0 on the
    // left lies in the direction of -x... of the image, which is mirrored.
    let corner = head_on().camera_ray_direction(&Float, 0.0, 0.0).unwrap();
    let opposite = head_on().camera_ray_direction(&Float, 4.0, 2.0).unwrap();
    assert_eq!(corner.x, -opposite.x);
    assert_eq!(corner.y, -opposite.y);
    assert_eq!(corner.z, opposite.z);
    assert!(corner.x != 0.0 && corner.y != 0.0);
    // Further down the image the ray goes the other way in y.
    let top = head_on().camera_ray_direction(&Float, 2.0, 0.0).unwrap();
    let bottom = head_on().camera_ray_direction(&Float, 2.0, 2.0).unwrap();
    assert_eq!(top.y, -bottom.y);
    assert_eq!(top.x, 0.0);
}

#[test]
fn the_corner_of_the_image_lies_one_to_the_side_for_zoom_ahead() {
    // The plane stands 2 ahead; its corner lies 1 to the side and 1 up or
    // down: the ray has the proportions 1 : 1 : 2.
    let corner = head_on().camera_ray_direction(&Float, 0.0, 0.0).unwrap();
    assert!((corner.x.abs() * 2.0 - corner.z.abs()).abs() < 1E-12);
    assert!((corner.y.abs() * 2.0 - corner.z.abs()).abs() < 1E-12);
}

#[test]
fn a_ray_of_the_camera_has_a_magnitude_of_one() {
    let camera: RayMarcherConfig<f64, f64> = RayMarcherConfig {
        width: 10,
        height: 10,
        ..Default::default()
    };
    for &(x, y) in &[(0.0, 0.0), (5.0, 5.0), (9.75, 0.25), (3.3, 7.7)] {
        let ray = camera.camera_ray_direction(&Float, x, y).unwrap();
        let m = (ray.x * ray.x + ray.y * ray.y + ray.z * ray.z).sqrt();
        assert!((m - 1.0).abs() < 1E-12);
    }
}

#[test]
fn more_zoom_brings_the_rays_together() {
    let mut camera = head_on();
    let wide = camera.camera_ray_direction(&Float, 0.0, 1.0).unwrap();
    camera.camera_zoom = 20.0;
    let narrow = camera.camera_ray_direction(&Float, 0.0, 1.0).unwrap();
    assert!(narrow.x.abs() < wide.x.abs());
}

#[test]
fn a_camera_on_its_target_has_no_direction() {
    let mut camera = head_on();
    camera.look_at = camera.camera_pos;
    assert_eq!(camera.camera_ray_direction(&Float, 2.0, 1.0), Err(ZeroMagnitude));
}

#[test]
fn a_camera_that_looks_straight_down_has_no_right_hand() {
    let mut camera = head_on();
    camera.camera_pos = at(0.0, 5.0, 0.0);
    assert_eq!(camera.camera_ray_direction(&Float, 2.0, 1.0), Err(ZeroMagnitude));
    camera.camera_pos = at(0.0, -5.0, 0.0);
    assert_eq!(camera.camera_ray_direction(&Float, 2.0, 1.0), Err(ZeroMagnitude));
}
