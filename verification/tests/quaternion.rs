use raymarch::number::Math;
use raymarch::quaternion::Quaternion;
use raymarch::vec3::Vec3;

/// The functions of double precision.
struct Float;

impl Math<f64> for Float {
    fn sqrt(&self, x: f64) -> f64 {
        x.sqrt()
    }

    fn ln(&self, x: f64) -> f64 {
        x.ln()
    }

    fn powf(&self, x: f64, exponent: f64) -> f64 {
        x.powf(exponent)
    }

    fn from_usize(&self, n: usize) -> f64 {
        n as f64
    }

    fn to_byte(&self, x: f64) -> u8 {
        x as u8
    }
}

fn q(r: f64, i: f64, j: f64, k: f64) -> Quaternion<f64> {
    Quaternion::new(r, i, j, k)
}

fn parts(q: Quaternion<f64>) -> (f64, f64, f64, f64) {
    (q.s(), q.v().x, q.v().y, q.v().z)
}

#[test]
fn new_takes_the_scalar_part_first() {
    let a = q(1.0, 2.0, 3.0, 4.0);
    assert_eq!(a.s(), 1.0);
    assert_eq!(a.v(), Vec3 { x: 2.0, y: 3.0, z: 4.0 });
}

#[test]
fn magnitude_is_the_norm_in_four_dimensions() {
    assert_eq!(q(1.0, 2.0, 2.0, 4.0).magnitude(&Float), 5.0);
    assert_eq!(q(0.0, 0.0, 0.0, 0.0).magnitude(&Float), 0.0);
    assert_eq!(
        q(0.1, 0.2, 0.3, 0.4).magnitude(&Float),
        (0.1f64 * 0.1 + 0.2 * 0.2 + 0.3 * 0.3 + 0.4 * 0.4).sqrt()
    );
}

#[test]
fn add_goes_part_by_part() {
    assert_eq!(parts(q(1.0, 2.0, 3.0, 4.0) + q(0.5, 0.25, 0.125, 1.0)), (1.5, 2.25, 3.125, 5.0));
}

#[test]
fn the_units_multiply_as_hamilton_found() {
    let one = q(1.0, 0.0, 0.0, 0.0);
    let i = q(0.0, 1.0, 0.0, 0.0);
    let j = q(0.0, 0.0, 1.0, 0.0);
    let k = q(0.0, 0.0, 0.0, 1.0);
    assert_eq!(parts(i * j), parts(k));
    assert_eq!(parts(j * k), parts(i));
    assert_eq!(parts(k * i), parts(j));
    assert_eq!(parts(i * i), (-1.0, 0.0, 0.0, 0.0));
    assert_eq!(parts(j * j), (-1.0, 0.0, 0.0, 0.0));
    assert_eq!(parts(k * k), (-1.0, 0.0, 0.0, 0.0));
    assert_eq!(parts(one * i), parts(i));
}

#[test]
fn the_product_goes_by_the_formula() {
    let a = q(1.0, 2.0, 3.0, 4.0);
    let b = q(5.0, 6.0, 7.0, 8.0);
    assert_eq!(parts(a * b), (-60.0, 12.0, 30.0, 24.0));
}

#[test]
fn the_product_with_the_quaternion_one_is_the_quaternion() {
    let one = q(1.0, 0.0, 0.0, 0.0);
    for a in [q(1.0, 2.0, 3.0, 4.0), q(-0.45, -0.447, 0.181, 0.306), q(0.0, 0.0, 0.0, 0.0)] {
        assert_eq!(parts(a * one), parts(a));
        assert_eq!(parts(one * a), parts(a));
    }
}

#[test]
fn the_product_depends_on_the_order() {
    let a = q(1.0, 2.0, 3.0, 4.0);
    let b = q(5.0, 6.0, 7.0, 8.0);
    assert_eq!(parts(b * a), (-60.0, 20.0, 14.0, 32.0));
    assert_ne!(parts(a * b), parts(b * a));
}

#[test]
fn a_number_multiplies_each_part() {
    assert_eq!(parts(q(1.0, 2.0, 3.0, 4.0) * 2.0), (2.0, 4.0, 6.0, 8.0));
    assert_eq!(parts(q(1.0, 2.0, 3.0, 4.0).scaled(0.5)), (0.5, 1.0, 1.5, 2.0));
}

#[test]
fn the_methods_of_a_quaternion_agree_with_its_operators() {
    let a = q(0.1, 0.2, 0.3, 0.4);
    let b = q(-0.5, 0.6, -0.7, 0.8);
    assert_eq!(parts(a.plus(b)), parts(a + b));
    assert_eq!(parts(a.times(b)), parts(a * b));
    assert_eq!(parts(a.scaled(3.0)), parts(a * 3.0));
}
