use raymarch::number::Math;
use raymarch::pixel::{clamp, pack, pack_rgb, to_color_byte};
use raymarch::vec3::Vec3;

/// The functions of double precision.
struct Float;

impl Math<f64> for Float {
    fn sqrt(&self, x: f64) -> f64 {
        x.sqrt()
    }

    fn ln(&self, x: f64) -> f64 {
        x.ln()
    }

    fn powf(&self, x: f64, exponent: f64) -> f64 {
        x.powf(exponent)
    }

    fn from_usize(&self, n: usize) -> f64 {
        n as f64
    }

    fn to_byte(&self, x: f64) -> u8 {
        x as u8
    }
}

fn rgb(x: f64, y: f64, z: f64) -> Vec3<f64> {
    Vec3 { x, y, z }
}

#[test]
fn clamp_leaves_a_value_in_the_range_alone() {
    assert_eq!(clamp(0.5f64, 0.0, 1.0), 0.5);
    assert_eq!(clamp(0.0f64, 0.0, 1.0), 0.0);
    assert_eq!(clamp(1.0f64, 0.0, 1.0), 1.0);
    assert_eq!(clamp(-4i64, -10, -1), -4);
}

#[test]
fn clamp_raises_a_value_below_the_range() {
    assert_eq!(clamp(-0.5f64, 0.0, 1.0), 0.0);
    assert_eq!(clamp(f64::NEG_INFINITY, 0.0, 1.0), 0.0);
    assert_eq!(clamp(3i64, 5, 9), 5);
}

#[test]
fn clamp_lowers_a_value_above_the_range() {
    assert_eq!(clamp(1.5f64, 0.0, 1.0), 1.0);
    assert_eq!(clamp(f64::INFINITY, 0.0, 1.0), 1.0);
    assert_eq!(clamp(12i64, 5, 9), 9);
}

#[test]
fn clamp_asks_for_the_lower_end_first() {
    // With the ends the wrong way round, a value below `min` still gives `min`.
    assert_eq!(clamp(5i64, 10, 3), 10);
    assert_eq!(clamp(20i64, 10, 3), 3);
    assert_eq!(clamp(7i64, 10, 3), 10);
}

#[test]
fn clamp_lets_what_is_no_number_through() {
    assert!(clamp(f64::NAN, 0.0, 1.0).is_nan());
}

#[test]
fn to_color_byte_cuts_off_both_ends() {
    assert_eq!(to_color_byte(&Float, -3.0), 0);
    assert_eq!(to_color_byte(&Float, f64::NEG_INFINITY), 0);
    assert_eq!(to_color_byte(&Float, 300.0), 255);
    assert_eq!(to_color_byte(&Float, f64::INFINITY), 255);
    assert_eq!(to_color_byte(&Float, 1.0), 255);
    assert_eq!(to_color_byte(&Float, 0.0), 0);
}

#[test]
fn to_color_byte_drops_the_fraction() {
    // One half is 127.5 on the scale of a byte.
    assert_eq!(to_color_byte(&Float, 0.5), 127);
    assert_eq!(to_color_byte(&Float, 0.999), 254);
    assert_eq!(to_color_byte(&Float, 0.003), 0);
    assert_eq!(to_color_byte(&Float, 0.004), 1);
}

#[test]
fn to_color_byte_of_what_is_no_number_is_zero() {
    assert_eq!(to_color_byte(&Float, f64::NAN), 0);
}

#[test]
fn to_color_byte_reaches_every_byte() {
    for n in 0..=255u32 {
        let channel = (n as f64 + 0.5) / 255.0;
        assert_eq!(to_color_byte(&Float, channel) as u32, n.min(255));
    }
}

#[test]
fn to_color_byte_clamps_then_scales_then_cuts() {
    for &val in &[-1.0, 0.0, 0.1, 0.25, 0.5, 0.75, 0.9999, 1.0, 1.0001, 2.0, 1E300] {
        let clamped: f64 = if val < 0.0 {
            0.0
        } else if val > 1.0 {
            1.0
        } else {
            val
        };
        assert_eq!(to_color_byte(&Float, val), (clamped * 255.0) as u8);
    }
}

/// A rule for the byte that rounds to the nearest whole number.
struct Rounding;

impl Math<f64> for Rounding {
    fn sqrt(&self, x: f64) -> f64 {
        x.sqrt()
    }

    fn ln(&self, x: f64) -> f64 {
        x.ln()
    }

    fn powf(&self, x: f64, exponent: f64) -> f64 {
        x.powf(exponent)
    }

    fn from_usize(&self, n: usize) -> f64 {
        n as f64
    }

    fn to_byte(&self, x: f64) -> u8 {
        x.round() as u8
    }
}

#[test]
fn to_color_byte_hands_the_scaled_channel_to_be_cut() {
    assert_eq!(to_color_byte(&Rounding, 0.5), 128);
    assert_eq!(to_color_byte(&Float, 0.5), 127);
}

#[test]
fn pack_lays_the_bytes_side_by_side() {
    assert_eq!(pack(255, 0, 1), 0x00FF_0001);
    assert_eq!(pack(0x12, 0x34, 0x56), 0x0012_3456);
    assert_eq!(pack(0, 0, 0), 0);
    assert_eq!(pack(255, 255, 255), 0x00FF_FFFF);
}

#[test]
fn pack_matches_the_big_endian_bytes() {
    assert_eq!(pack(1, 2, 3), u32::from_be_bytes([0, 1, 2, 3]));
    assert_eq!(pack(200, 100, 50).to_be_bytes(), [0, 200, 100, 50]);
}

#[test]
fn pack_gives_each_byte_back() {
    let p = pack(17, 255, 0);
    assert_eq!(p >> 24, 0);
    assert_eq!((p >> 16) & 0xff, 17);
    assert_eq!((p >> 8) & 0xff, 255);
    assert_eq!(p & 0xff, 0);
}

#[test]
fn pack_rgb_packs_a_byte_for_each_channel() {
    assert_eq!(pack_rgb(&Float, rgb(1.0, 0.0, 0.5)), 0x00FF_007F);
    assert_eq!(pack_rgb(&Float, rgb(0.0, 0.0, 0.0)), 0);
    assert_eq!(pack_rgb(&Float, rgb(1.0, 1.0, 1.0)), 0x00FF_FFFF);
    assert_eq!(
        pack_rgb(&Float, rgb(0.25, 0.5, 0.75)),
        u32::from_be_bytes([0, 63, 127, 191])
    );
}

#[test]
fn pack_rgb_clamps_each_channel() {
    assert_eq!(pack_rgb(&Float, rgb(1.5, -2.0, 0.004)), 0x00FF_0001);
    assert_eq!(pack_rgb(&Float, rgb(-1.0, 256.0, 0.5)), 0x0000_FF7F);
    assert_eq!(
        pack_rgb(&Float, rgb(f64::INFINITY, f64::NEG_INFINITY, f64::NAN)),
        0x00FF_0000
    );
}

#[test]
fn pack_rgb_leaves_the_top_byte_zero() {
    for &color in &[rgb(0.0, 0.0, 0.0), rgb(1.0, 1.0, 1.0), rgb(1000.0, 1000.0, 1000.0), rgb(-5.0, 0.7, 0.99)]
    {
        assert_eq!(pack_rgb(&Float, color) >> 24, 0);
    }
}
