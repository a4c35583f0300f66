use raymarch::number::Math;
use raymarch::vec3::Vec3;

/// The functions of double precision.
struct Float;

impl Math<f64> for Float {
    fn sqrt(&self, x: f64) -> f64 {
        x.sqrt()
    }

    fn ln(&self, x: f64) -> f64 {
        x.ln()
    }

    fn powf(&self, x: f64, exponent: f64) -> f64 {
        x.powf(exponent)
    }

    fn from_usize(&self, n: usize) -> f64 {
        n as f64
    }

    fn to_byte(&self, x: f64) -> u8 {
        x as u8
    }
}

fn v(x: f64, y: f64, z: f64) -> Vec3<f64> {
    Vec3 { x, y, z }
}

fn close(a: f64, b: f64) -> bool {
    (a - b).abs() < 1E-12
}

#[test]
fn the_operators_go_by_coordinate() {
    assert_eq!(v(1.0, 2.0, 3.0) + v(0.5, 0.25, 0.125), v(1.5, 2.25, 3.125));
    assert_eq!(v(1.0, 2.0, 3.0) - v(0.5, 0.25, 0.125), v(0.5, 1.75, 2.875));
    assert_eq!(-v(1.0, -2.0, 0.0), v(-1.0, 2.0, 0.0));
    assert_eq!(v(1.0, 2.0, 3.0) * 2.0, v(2.0, 4.0, 6.0));
    assert_eq!(v(1.0, 2.0, 3.0) + 0.5, v(1.5, 2.5, 3.5));
}

#[test]
fn the_methods_agree_with_the_operators() {
    let a = v(1.5, -2.0, 0.25);
    let b = v(0.1, 0.2, 0.3);
    assert_eq!(a.plus(b), a + b);
    assert_eq!(a.minus(b), a - b);
    assert_eq!(a.negated(), -a);
    assert_eq!(a.scaled(0.3), a * 0.3);
}

#[test]
fn a_vector_is_made_of_coordinates_and_of_whole_numbers() {
    assert_eq!(Vec3::from((1.0, 2.0, 3.0)), v(1.0, 2.0, 3.0));
    assert_eq!(Vec3::<f64>::whole(0, -1, 0), v(0.0, -1.0, 0.0));
    assert_eq!(Vec3::<f64>::whole(1, 1, 1), v(1.0, 1.0, 1.0));
    assert_eq!(Vec3::splat(0.5), v(0.5, 0.5, 0.5));
    assert_eq!(Vec3::<f64>::default(), v(0.0, 0.0, 0.0));
}

#[test]
fn dot_adds_the_products_up_from_the_left() {
    assert_eq!(v(1.0, 2.0, 3.0).dot(v(4.0, 5.0, 6.0)), 32.0);
    let a = v(0.1, 0.2, 0.3);
    let b = v(0.7, 0.11, 0.13);
    assert_eq!(a.dot(b), 0.1 * 0.7 + 0.2 * 0.11 + 0.3 * 0.13);
}

#[test]
fn cross_of_two_axes_is_the_third() {
    assert_eq!(v(1.0, 0.0, 0.0).cross(v(0.0, 1.0, 0.0)), v(0.0, 0.0, 1.0));
    assert_eq!(v(0.0, 1.0, 0.0).cross(v(0.0, 0.0, 1.0)), v(1.0, 0.0, 0.0));
    assert_eq!(v(0.0, 0.0, 1.0).cross(v(1.0, 0.0, 0.0)), v(0.0, 1.0, 0.0));
    assert_eq!(v(0.0, 1.0, 0.0).cross(v(1.0, 0.0, 0.0)), v(0.0, 0.0, -1.0));
}

#[test]
fn cross_goes_by_the_formula() {
    let a = v(1.0, 2.0, 3.0);
    let b = v(-4.0, 0.5, 6.0);
    assert_eq!(
        a.cross(b),
        v(
            2.0 * 6.0 - 3.0 * 0.5,
            3.0 * -4.0 - 1.0 * 6.0,
            1.0 * 0.5 - 2.0 * -4.0
        )
    );
}

#[test]
fn the_cross_product_stands_at_right_angles_to_both() {
    let pairs = [
        (v(1.0, 2.0, 3.0), v(-4.0, 0.5, 6.0)),
        (v(0.3, -0.7, 0.11), v(2.5, 1.25, -8.0)),
        (v(1E3, 1E-3, 1.0), v(-1.0, 1E3, 1E-3)),
    ];
    for &(a, b) in &pairs {
        let c = a.cross(b);
        let scale = a.magnitude(&Float) * b.magnitude(&Float) * c.magnitude(&Float);
        assert!(c.dot(a).abs() <= 1E-12 * scale);
        assert!(c.dot(b).abs() <= 1E-12 * scale);
    }
}

#[test]
fn magnitude_is_the_root_of_the_dot_product() {
    assert_eq!(v(3.0, 4.0, 0.0).magnitude(&Float), 5.0);
    assert_eq!(v(1.0, 2.0, 2.0).magnitude(&Float), 3.0);
    assert_eq!(v(0.0, 0.0, 0.0).magnitude(&Float), 0.0);
    let a = v(0.1, 0.2, 0.3);
    assert_eq!(a.magnitude(&Float), a.dot(a).sqrt());
}

#[test]
fn normalized_multiplies_by_one_over_the_magnitude() {
    assert_eq!(v(3.0, 4.0, 0.0).normalized(&Float), Some(v(0.2 * 3.0, 0.2 * 4.0, 0.0)));
    let a = v(1.0, 2.0, 3.0);
    let k = 1.0 / a.magnitude(&Float);
    assert_eq!(a.normalized(&Float), Some(v(k * 1.0, k * 2.0, k * 3.0)));
}

#[test]
fn a_normalized_vector_has_a_magnitude_of_one() {
    let vectors = [
        v(1.0, 2.0, 3.0),
        v(-0.001, 0.002, 0.0005),
        v(1E10, -3E9, 7E8),
        v(0.0, 0.0, -5.0),
        v(1E-150, 1E-150, 1E-150),
    ];
    for &a in &vectors {
        let unit = a.normalized(&Float).unwrap();
        assert!(close(unit.magnitude(&Float), 1.0));
    }
}

#[test]
fn a_vector_of_zero_magnitude_cannot_be_normalized() {
    assert_eq!(v(0.0, 0.0, 0.0).normalized(&Float), None);
    assert_eq!(v(-0.0, 0.0, -0.0).normalized(&Float), None);
    // Too small for its square to be more than zero.
    assert_eq!(v(1E-200, 0.0, 0.0).normalized(&Float), None);
}

#[test]
fn reflect_turns_a_ray_back_from_a_surface_it_meets_head_on() {
    assert_eq!(
        v(0.0, 0.0, -1.0).reflect(v(0.0, 0.0, 1.0), &Float),
        Some(v(0.0, 0.0, 1.0))
    );
}

#[test]
fn reflect_mirrors_a_slanting_ray() {
    assert_eq!(
        v(1.0, -1.0, 0.0).reflect(v(0.0, 1.0, 0.0), &Float),
        Some(v(1.0, 1.0, 0.0))
    );
    // The normal need not have a magnitude of one.
    assert_eq!(
        v(1.0, -1.0, 0.0).reflect(v(0.0, 4.0, 0.0), &Float),
        Some(v(1.0, 1.0, 0.0))
    );
}

#[test]
fn reflect_needs_a_normal_with_a_direction() {
    assert_eq!(v(1.0, -1.0, 0.0).reflect(v(0.0, 0.0, 0.0), &Float), None);
}

#[test]
fn refract_goes_straight_through_where_the_index_is_one() {
    let ray = v(0.0, 0.0, -1.0);
    assert_eq!(ray.refract(v(0.0, 0.0, 1.0), 1.0, &Float), v(0.0, 0.0, -1.0));
}

#[test]
fn refract_goes_by_the_formula() {
    let ray = v(0.6, 0.0, -0.8);
    let norm = v(0.0, 0.0, 1.0);
    let eta = 0.5f64;
    let d = ray.dot(norm);
    let k = 1.0 - eta * eta * (1.0 - d * d);
    let depth = eta * d + k.sqrt();
    assert_eq!(
        ray.refract(norm, eta, &Float),
        v(eta * 0.6 - depth * 0.0, eta * 0.0 - depth * 0.0, eta * -0.8 - depth * 1.0)
    );
}

#[test]
fn refract_gives_the_zero_vector_on_total_internal_reflection() {
    // A grazing ray into a much thinner medium.
    let ray = v(0.99, 0.0, -0.14);
    assert_eq!(ray.refract(v(0.0, 0.0, 1.0), 2.0, &Float), v(0.0, 0.0, 0.0));
}

#[test]
fn lerp_goes_from_the_one_vector_to_the_other() {
    let a = v(1.0, 2.0, 3.0);
    let b = v(3.0, 2.0, -1.0);
    assert_eq!(a.lerp(b, 0.0), a);
    assert_eq!(a.lerp(b, 1.0), b);
    assert_eq!(a.lerp(b, 0.5), v(2.0, 2.0, 1.0));
    assert_eq!(a.lerp(b, 0.25), v(1.5, 2.0, 2.0));
}
