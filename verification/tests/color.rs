use raymarch::color::Color;
use raymarch::vec3::Vec3;
use std::ops::{Add, Mul};

#[test]
fn white_of_a_grey_level_is_one() {
    assert_eq!(<f64 as Color<f64>>::white(), 1.0);
    assert_eq!(<i64 as Color<i64>>::white(), 1);
    assert_eq!(<i128 as Color<i128>>::white(), 1);
}

#[test]
fn white_of_three_channels_is_one_in_each() {
    assert_eq!(
        <Vec3<f64> as Color<f64>>::white(),
        Vec3 {
            x: 1.0,
            y: 1.0,
            z: 1.0
        }
    );
}

fn lit<C: Color<f64>>(base: C, diffuse: f64, specular: f64) -> C {
    base * diffuse + C::white() * specular
}

#[test]
fn a_grey_level_has_the_operations_of_a_color() {
    assert_eq!(lit(0.5f64, 0.5, 0.25), 0.5);
    assert_eq!(lit(f64::default(), 1.0, 0.0), 0.0);
}

#[test]
fn a_vector_has_the_operations_of_a_color() {
    let base = Vec3 {
        x: 1.0,
        y: 0.0,
        z: 0.5,
    };
    assert_eq!(
        lit(base, 0.5, 0.25),
        Vec3 {
            x: 0.75,
            y: 0.25,
            z: 0.5
        }
    );
    assert_eq!(
        Vec3::<f64>::default(),
        Vec3 {
            x: 0.0,
            y: 0.0,
            z: 0.0
        }
    );
}

/// A colour that is neither a number nor a vector: red and blue only.
#[derive(Clone, Copy, Debug, Default, PartialEq)]
struct Purple(f64, f64);

impl Add<Purple> for Purple {
    type Output = Purple;
    fn add(self, rhs: Purple) -> Purple {
        Purple(self.0 + rhs.0, self.1 + rhs.1)
    }
}

impl Mul<f64> for Purple {
    type Output = Purple;
    fn mul(self, k: f64) -> Purple {
        Purple(self.0 * k, self.1 * k)
    }
}

impl Color<f64> for Purple {
    fn white() -> Purple {
        Purple(1.0, 1.0)
    }
}

#[test]
fn a_type_of_its_own_can_be_a_color() {
    assert_eq!(lit(Purple(1.0, 0.5), 0.5, 0.25), Purple(0.75, 0.5));
}
