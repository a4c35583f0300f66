use raymarch::camera::RayMarcherConfig;
use raymarch::julia::Julia;
use raymarch::number::Math;
use raymarch::pixel::pack_rgb;
use raymarch::quaternion::Quaternion;
use raymarch::ray::{cast_ray, ZeroMagnitude};
use raymarch::raymarcher::RayMarcher;
use raymarch::scene_object::{SceneObject, Sphere};
use raymarch::vec3::Vec3;

/// The functions of double precision.
struct Float;

impl Math<f64> for Float {
    fn sqrt(&self, x: f64) -> f64 {
        x.sqrt()
    }

    fn ln(&self, x: f64) -> f64 {
        x.ln()
    }

    fn powf(&self, x: f64, exponent: f64) -> f64 {
        x.powf(exponent)
    }

    fn from_usize(&self, n: usize) -> f64 {
        n as f64
    }

    fn to_byte(&self, x: f64) -> u8 {
        x as u8
    }
}

// The renderer once more, written out in double precision operator by
// operator. The library is to give the very same numbers.

type V = (f64, f64, f64);

fn add(a: V, b: V) -> V {
    (a.0 + b.0, a.1 + b.1, a.2 + b.2)
}

fn sub(a: V, b: V) -> V {
    (a.0 - b.0, a.1 - b.1, a.2 - b.2)
}

fn neg(a: V) -> V {
    (-a.0, -a.1, -a.2)
}

fn mul(k: f64, a: V) -> V {
    (k * a.0, k * a.1, k * a.2)
}

fn dot(a: V, b: V) -> f64 {
    a.0 * b.0 + a.1 * b.1 + a.2 * b.2
}

fn cross(a: V, b: V) -> V {
    (a.1 * b.2 - a.2 * b.1, a.2 * b.0 - a.0 * b.2, a.0 * b.1 - a.1 * b.0)
}

fn magnitude(a: V) -> f64 {
    dot(a, a).sqrt()
}

fn normalized(a: V) -> V {
    mul(1.0 / magnitude(a), a)
}

fn reflect(a: V, norm: V) -> V {
    let norm = normalized(norm);
    sub(a, mul(2.0 * dot(a, norm), norm))
}

type Q = (f64, V);

fn qmag(q: Q) -> f64 {
    (q.0 * q.0 + (q.1).0 * (q.1).0 + (q.1).1 * (q.1).1 + (q.1).2 * (q.1).2).sqrt()
}

fn qadd(a: Q, b: Q) -> Q {
    (a.0 + b.0, add(a.1, b.1))
}

fn qmul(a: Q, b: Q) -> Q {
    (
        a.0 * b.0 - dot(a.1, b.1),
        add(add(mul(a.0, b.1), mul(b.0, a.1)), cross(a.1, b.1)),
    )
}

fn qscale(k: f64, a: Q) -> Q {
    (k * a.0, mul(k, a.1))
}

#[derive(Clone, Copy)]
enum Shape {
    Julia(Q),
    Sphere(V, f64),
}

fn distance_to(shape: Shape, point: V, t: f64) -> f64 {
    match shape {
        Shape::Julia(c) => {
            let mut z: Q = (point.0, (point.1, point.2, t));
            let mut dz: Q = (1.0, (0.0, 0.0, 0.0));
            let mut count = 0;
            while count < 20 {
                let z_new = qadd(qmul(z, z), c);
                dz = qmul(qscale(2.0, z), dz);
                z = z_new;
                if qmag(z) > 4.0 {
                    break;
                }
                count += 1;
            }
            let dist = qmag(z) * qmag(z).ln() / qmag(dz);
            dist * 0.2
        }
        Shape::Sphere(center, radius) => {
            magnitude(sub((point.0 % 5.0, point.1, point.2), center)) - radius
        }
    }
}

fn normal(shape: Shape, p: V, t: f64) -> V {
    let e = 1E-7;
    let x_plus = distance_to(shape, (p.0 + e, p.1, p.2), t);
    let x_minus = distance_to(shape, (p.0 - e, p.1, p.2), t);
    let y_plus = distance_to(shape, (p.0, p.1 + e, p.2), t);
    let y_minus = distance_to(shape, (p.0, p.1 - e, p.2), t);
    let z_plus = distance_to(shape, (p.0, p.1, p.2 + e), t);
    let z_minus = distance_to(shape, (p.0, p.1, p.2 - e), t);
    normalized((x_plus - x_minus, y_plus - y_minus, z_plus - z_minus))
}

fn cast(shape: Shape, point: V, dir: V, backplanes: V, t: f64) -> Option<(f64, V)> {
    let dir = normalized(dir);
    let mut current_point = point;
    let mut iterations = 0u32;
    let mut ray_len = 0.0;
    loop {
        let radius = distance_to(shape, current_point, t);
        ray_len += radius;
        iterations += 1;
        current_point = add(point, mul(ray_len, dir));
        if radius < 1E-4 {
            return Some((ray_len, current_point));
        }
        if iterations > 200 {
            return None;
        }
        if current_point.0.abs() > backplanes.0
            || current_point.1.abs() > backplanes.1
            || current_point.2.abs() > backplanes.2
        {
            return None;
        }
    }
}

struct Scene {
    shape: Shape,
    color: f64,
    width: usize,
    height: usize,
    camera_pos: V,
    look_at: V,
    light_pos: V,
    background_color: f64,
    camera_zoom: f64,
    anti_aliasing_level: u32,
    backplane_positions: V,
    specular_shininess: f64,
    specular_color: f64,
}

impl Scene {
    fn trace_with_lighting(&self, point: V, dir: V, t: f64) -> f64 {
        match cast(self.shape, point, dir, self.backplane_positions, t) {
            Some((_, hit_point)) => {
                let light_vec = normalized(sub(self.light_pos, hit_point));
                let norm_point = sub(hit_point, mul(1E-7, dir));
                let norm = normal(self.shape, norm_point, t);
                let s_dot_n = dot(norm, light_vec);
                let reflect_vec = normalized(reflect(neg(light_vec), norm));
                let view_vec = normalized(sub(self.camera_pos, hit_point));
                let r_dot_v = dot(reflect_vec, normalized(view_vec));
                let specular_term = r_dot_v.powf(self.specular_shininess);
                let specular_term = if r_dot_v > 0.0 { specular_term } else { 0.0 };
                self.color * s_dot_n + self.specular_color * specular_term
            }
            None => self.background_color,
        }
    }

    fn camera_ray_direction(&self, x: f64, y: f64) -> V {
        let u = -(x / self.width as f64 * 2.0 - 1.0);
        let v = y / self.height as f64 * 2.0 - 1.0;
        let look_dir = normalized(sub(self.look_at, self.camera_pos));
        let right_vec = normalized(cross((0.0, -1.0, 0.0), look_dir));
        let down_vec = normalized(cross(look_dir, right_vec));
        let zoomed_cam_pos = add(self.camera_pos, mul(self.camera_zoom, look_dir));
        let pix_pos = add(add(zoomed_cam_pos, mul(u, right_vec)), mul(v, down_vec));
        normalized(sub(pix_pos, self.camera_pos))
    }

    fn get_pixel_color(&self, x: usize, y: usize, t: f64) -> f64 {
        let aa_level = self.anti_aliasing_level;
        let subpixel_size = 1.0 / aa_level as f64;
        let mut pixel_sum = 0.0;
        for subpixel_x in 0..aa_level {
            for subpixel_y in 0..aa_level {
                let ray_dir = self.camera_ray_direction(
                    x as f64 + subpixel_x as f64 * subpixel_size,
                    y as f64 + subpixel_y as f64 * subpixel_size,
                );
                pixel_sum = pixel_sum + self.trace_with_lighting(self.camera_pos, ray_dir, t);
            }
        }
        pixel_sum * (1.0 / (aa_level * aa_level) as f64)
    }
}

fn vec(a: V) -> Vec3<f64> {
    Vec3::from(a)
}

const C: Q = (-0.450, (-0.447, 0.181, 0.306));

fn julia() -> Julia<f64, f64> {
    Julia {
        c: Quaternion::new(C.0, (C.1).0, (C.1).1, (C.1).2),
        color: 1.0,
    }
}

/// The scene of the Julia set of the parameter above, seen from
/// (2, 2.5, 2.5), once for the library and once written out.
fn scenes(width: usize, height: usize, side: u32) -> (RayMarcher<f64, f64, Julia<f64, f64>>, Scene) {
    let config = RayMarcherConfig {
        width,
        height,
        camera_zoom: 3.0,
        anti_aliasing_level: side,
        camera_pos: vec((2.0, 2.5, 2.5)),
        specular_shininess: 20.0,
        ..Default::default()
    };
    let scene = Scene {
        shape: Shape::Julia(C),
        color: 1.0,
        width,
        height,
        camera_pos: (2.0, 2.5, 2.5),
        look_at: (0.0, 0.0, 0.0),
        light_pos: (2.0, 4.0, 4.0),
        background_color: 0.0,
        camera_zoom: 3.0,
        anti_aliasing_level: side,
        backplane_positions: (3.0, 3.0, 3.0),
        specular_shininess: 20.0,
        specular_color: 1.0,
    };
    (
        RayMarcher {
            object: julia(),
            config,
        },
        scene,
    )
}

fn same(a: f64, b: f64) -> bool {
    a == b || (a.is_nan() && b.is_nan())
}

const POINTS: [V; 8] = [
    (0.0, 0.0, 0.0),
    (0.5, 0.25, -0.125),
    (1.0, 1.0, 1.0),
    (2.0, 2.5, 2.5),
    (-0.3, 0.7, 0.1),
    (3.0, 0.0, 0.0),
    (0.1, -0.2, 0.3),
    (-1.5, -1.5, 0.5),
];

#[test]
fn the_distance_to_the_julia_set_is_the_same_number() {
    for &p in &POINTS {
        for &t in &[0.0, 0.25, -0.5] {
            let ours = julia().distance_to(&Float, vec(p), t);
            assert!(same(ours, distance_to(Shape::Julia(C), p, t)));
        }
    }
}

#[test]
fn the_distance_to_the_sphere_is_the_same_number() {
    let sphere = Sphere {
        center: vec((0.5, 0.0, 0.0)),
        radius: 1.0,
        color: 1.0f64,
    };
    for &p in &POINTS {
        let ours = sphere.distance_to(&Float, vec(p), 0.0);
        assert_eq!(ours, distance_to(Shape::Sphere((0.5, 0.0, 0.0), 1.0), p, 0.0));
    }
    // Beyond the period the point is wrapped.
    for &p in &[(5.5, 0.0, 0.0), (-7.0, 1.0, 0.0), (12.25, 0.0, 3.0)] {
        let ours = sphere.distance_to(&Float, vec(p), 0.0);
        assert_eq!(ours, distance_to(Shape::Sphere((0.5, 0.0, 0.0), 1.0), p, 0.0));
    }
}

#[test]
fn the_normal_is_the_same_vector() {
    for &p in &POINTS[1..] {
        let ours = SceneObject::<f64, Float, f64>::normal(&julia(), &Float, vec(p), 0.0);
        let theirs = normal(Shape::Julia(C), p, 0.0);
        match ours {
            Some(n) => {
                assert!(same(n.x, theirs.0) && same(n.y, theirs.1) && same(n.z, theirs.2));
            }
            None => assert!(theirs.0.is_nan()),
        }
    }
}

#[test]
fn a_cast_ray_ends_in_the_same_place() {
    let origin = (2.0, 2.5, 2.5);
    for &target in &POINTS {
        let dir = sub(target, origin);
        let ours = cast_ray(&julia(), &Float, vec(origin), vec(dir), vec((3.0, 3.0, 3.0)), 0.0);
        let theirs = cast(Shape::Julia(C), origin, dir, (3.0, 3.0, 3.0), 0.0);
        match (ours, theirs) {
            (Ok(Some(hit)), Some((len, point))) => {
                assert_eq!(hit.len, len);
                assert_eq!(hit.hit_point, vec(point));
            }
            (Ok(None), None) => {}
            (Err(ZeroMagnitude), _) => assert_eq!(dir, (0.0, 0.0, 0.0)),
            _ => panic!("the one ray hit and the other missed"),
        }
    }
}

#[test]
fn the_camera_casts_the_same_rays() {
    let (marcher, scene) = scenes(16, 8, 2);
    for &(x, y) in &[(0.0, 0.0), (8.0, 4.0), (15.5, 7.5), (3.25, 6.75), (16.0, 8.0)] {
        let ours = marcher.config.camera_ray_direction(&Float, x, y).unwrap();
        assert_eq!(ours, vec(scene.camera_ray_direction(x, y)));
    }
}

#[test]
fn a_traced_ray_has_the_same_color() {
    let (marcher, scene) = scenes(16, 8, 2);
    let origin = (2.0, 2.5, 2.5);
    let mut hits = 0;
    for &target in &POINTS[..7] {
        let dir = sub(target, origin);
        let traced = marcher.trace_with_lighting(&Float, vec(origin), vec(dir), 0.0);
        if dir == (0.0, 0.0, 0.0) {
            assert_eq!(traced, Err(ZeroMagnitude));
            continue;
        }
        let ours = traced.unwrap();
        let theirs = scene.trace_with_lighting(origin, dir, 0.0);
        assert!(same(ours, theirs));
        if ours != 0.0 {
            hits += 1;
        }
    }
    assert!(hits > 0);
}

#[test]
fn every_pixel_has_the_same_color() {
    let (marcher, scene) = scenes(20, 10, 2);
    let mut lit = 0;
    for y in 0..10 {
        for x in 0..20 {
            let ours = marcher.get_pixel_color(&Float, x, y, 0.0).unwrap();
            assert!(same(ours, scene.get_pixel_color(x, y, 0.0)));
            if ours != 0.0 {
                lit += 1;
            }
        }
    }
    assert!(lit > 10);
}

#[test]
fn every_pixel_has_the_same_color_at_another_time_and_grid() {
    let (marcher, scene) = scenes(12, 12, 3);
    for y in 0..12 {
        for x in 0..12 {
            let ours = marcher.get_pixel_color(&Float, x, y, 0.3).unwrap();
            assert!(same(ours, scene.get_pixel_color(x, y, 0.3)));
        }
    }
}

#[test]
fn rendering_twice_gives_the_same_bytes() {
    let config: RayMarcherConfig<f64, Vec3<f64>> = RayMarcherConfig {
        width: 16,
        height: 8,
        anti_aliasing_level: 2,
        camera_pos: vec((2.0, 2.5, 2.5)),
        specular_shininess: 20.0,
        ..Default::default()
    };
    let marcher = RayMarcher {
        object: Julia {
            c: Quaternion::new(C.0, (C.1).0, (C.1).1, (C.1).2),
            color: vec((1.0, 0.5, 0.25)),
        },
        config,
    };
    let render = || {
        let mut image = Vec::new();
        for y in 0..8 {
            for x in 0..16 {
                let color = marcher.get_pixel_color(&Float, x, y, 0.25).unwrap();
                image.push(pack_rgb(&Float, color));
            }
        }
        image
    };
    let first = render();
    let second = render();
    assert_eq!(first, second);
    assert!(first.iter().all(|p| p >> 24 == 0));
    assert!(first.iter().any(|&p| p != 0));
}

#[test]
fn a_grey_level_and_three_equal_channels_render_alike() {
    let (grey, _) = scenes(12, 6, 2);
    let rgb = RayMarcher {
        object: Julia {
            c: julia().c,
            color: vec((1.0, 1.0, 1.0)),
        },
        config: RayMarcherConfig {
            width: 12,
            height: 6,
            camera_zoom: 3.0,
            anti_aliasing_level: 2,
            camera_pos: vec((2.0, 2.5, 2.5)),
            specular_shininess: 20.0,
            ..Default::default()
        },
    };
    for y in 0..6 {
        for x in 0..12 {
            let g: f64 = grey.get_pixel_color(&Float, x, y, 0.0).unwrap();
            let c: Vec3<f64> = rgb.get_pixel_color(&Float, x, y, 0.0).unwrap();
            assert!(same(g, c.x) && same(g, c.y) && same(g, c.z));
        }
    }
}
