//! Turning a finished colour into bytes and a packed pixel.
//!
//! A channel is brought into the range from zero to one, multiplied by 255
//! and cut to a whole number: that is its byte. Three bytes are laid side by
//! side in a `u32`, red highest, the top byte zero.

use crate::number::{Math, Number};
use crate::vec3::Vec3;
use vstd::prelude::*;

verus! {

/// Whether `clamped` is a value that the numbers can give for `val` brought
/// into the range from `min` to `max`: `min` where they find `val` less than
/// `min`; else `max` where they find `val` greater than `max`; else `val`.
pub open spec fn is_clamped<S: Number>(val: S, min: S, max: S, clamped: S) -> bool {
    exists|below: bool| #[trigger]
        crate::number::is_less(val, min, below) && if below {
            clamped == min
        } else {
            exists|above: bool| #[trigger]
                crate::number::is_greater(val, max, above) && clamped == (if above {
                    max
                } else {
                    val
                })
        }
}

/// Brings `val` into the range from `min` to `max`.
pub fn clamp<S: Number>(val: S, min: S, max: S) -> (clamped: S)
    ensures
        is_clamped(val, min, max, clamped),
{
    let below = val.lt(&min);
    if below {
        assert(crate::number::is_less(val, min, below));
        min
    } else {
        let above = val.gt(&max);
        assert(crate::number::is_greater(val, max, above));
        assert(crate::number::is_less(val, min, below));
        if above {
            max
        } else {
            val
        }
    }
}

/// Whether `scaled` is a value that the numbers can give for the channel
/// `val` on the scale of a byte: `val` brought into the range from zero to
/// one, times 255.
pub open spec fn is_scaled<S: Number>(val: S, scaled: S) -> bool {
    exists|zero: S, one: S, clamped: S, full: S|
        #![trigger is_clamped(val, zero, one, clamped), crate::number::is_product(clamped, full, scaled)]
        crate::number::is_whole(0, zero) && crate::number::is_whole(1, one) && is_clamped(
            val,
            zero,
            one,
            clamped,
        ) && crate::number::is_whole(255, full) && crate::number::is_product(
            clamped,
            full,
            scaled,
        )
}

/// Whether `byte` is a byte that the channel `val` can get: what `math` can
/// make of the channel on the scale of a byte.
pub open spec fn is_color_byte<S: Number, M: Math<S>>(math: M, val: S, byte: u8) -> bool {
    exists|scaled: S| is_scaled(val, scaled) && #[trigger] crate::number::is_byte(math, scaled, byte)
}

/// The byte of the channel `val`: the channel brought into the range from
/// zero to one, multiplied by 255 and cut to a whole number.
pub fn to_color_byte<S: Number, M: Math<S>>(math: &M, val: S) -> (byte: u8)
    requires
        crate::number::is_total::<S>(),
    ensures
        is_color_byte(*math, val, byte),
{
    let zero = S::from(0u32);
    let one = S::from(1u32);
    let clamped = clamp(val, zero, one);
    let full = S::from(255u32);
    let scaled = clamped * full;
    assert(is_clamped(val, zero, one, clamped) && crate::number::is_product(clamped, full, scaled));
    assert(is_scaled(val, scaled));
    let byte = math.to_byte(scaled);
    assert(crate::number::is_byte(*math, scaled, byte));
    byte
}

/// Three bytes as one number: red in bits 16 to 23, green in bits 8 to 15,
/// blue in bits 0 to 7.
pub open spec fn pack_spec(r: u8, g: u8, b: u8) -> int {
    r * 65536 + g * 256 + b
}

/// Lays three bytes side by side: the four big-endian bytes of the result
/// are zero, `r`, `g` and `b`.
pub fn pack(r: u8, g: u8, b: u8) -> (p: u32)
    ensures
        p == pack_spec(r, g, b),
{
    (r as u32) * 65536 + (g as u32) * 256 + (b as u32)
}

/// Whether `p` is a packed pixel that the colour `color` can get: a byte of
/// each of its coordinates, laid side by side.
pub open spec fn is_pixel<S: Number, M: Math<S>>(math: M, color: Vec3<S>, p: u32) -> bool {
    exists|r: u8, g: u8, b: u8|
        #![trigger is_color_byte(math, color.x, r), is_color_byte(math, color.y, g), is_color_byte(math, color.z, b)]
        is_color_byte(math, color.x, r) && is_color_byte(math, color.y, g) && is_color_byte(
            math,
            color.z,
            b,
        ) && p == pack_spec(r, g, b)
}

/// Packs a colour of three channels into one `u32`: a byte for each of red,
/// green and blue, which are the coordinates of `color` in this order, and
/// the top byte zero.
pub fn pack_rgb<S: Number, M: Math<S>>(math: &M, color: Vec3<S>) -> (p: u32)
    requires
        crate::number::is_total::<S>(),
    ensures
        is_pixel(*math, color, p),
{
    let r = to_color_byte(math, color.x);
    let g = to_color_byte(math, color.y);
    let b = to_color_byte(math, color.z);
    assert(is_color_byte(*math, color.x, r) && is_color_byte(*math, color.y, g) && is_color_byte(
        *math,
        color.z,
        b,
    ));
    pack(r, g, b)
}

/// A clamped value is one of the three: the value itself or an end of the
/// range.
pub proof fn lemma_clamped_is_one_of_three<S: Number>(val: S, min: S, max: S, clamped: S)
    requires
        is_clamped(val, min, max, clamped),
    ensures
        clamped == val || clamped == min || clamped == max,
{
}

/// A value has one clamped value where each operation of the numbers gives
/// one result.
pub proof fn lemma_clamped_is_unique<S: Number>(val: S, min: S, max: S, p: S, q: S)
    requires
        is_clamped(val, min, max, p),
        is_clamped(val, min, max, q),
        crate::number::is_exact::<S>(),
    ensures
        p == q,
{
    let below_p = choose|below: bool| #[trigger]
        crate::number::is_less(val, min, below) && if below {
            p == min
        } else {
            exists|above: bool| #[trigger]
                crate::number::is_greater(val, max, above) && p == (if above {
                    max
                } else {
                    val
                })
        };
    let below_q = choose|below: bool| #[trigger]
        crate::number::is_less(val, min, below) && if below {
            q == min
        } else {
            exists|above: bool| #[trigger]
                crate::number::is_greater(val, max, above) && q == (if above {
                    max
                } else {
                    val
                })
        };
    assert(below_p == below_q);
    if !below_p {
        let above_p = choose|above: bool| #[trigger]
            crate::number::is_greater(val, max, above) && p == (if above {
                max
            } else {
                val
            });
        let above_q = choose|above: bool| #[trigger]
            crate::number::is_greater(val, max, above) && q == (if above {
                max
            } else {
                val
            });
        assert(above_p == above_q);
    }
}

/// A channel has one byte where each operation of the numbers and of `math`
/// gives one result.
pub proof fn lemma_color_byte_is_unique<S: Number, M: Math<S>>(math: M, val: S, p: u8, q: u8)
    requires
        is_color_byte(math, val, p),
        is_color_byte(math, val, q),
        crate::number::is_exact::<S>(),
        crate::number::is_exact_math(math),
    ensures
        p == q,
{
    let scaled_p = choose|scaled: S|
        is_scaled(val, scaled) && #[trigger] crate::number::is_byte(math, scaled, p);
    let scaled_q = choose|scaled: S|
        is_scaled(val, scaled) && #[trigger] crate::number::is_byte(math, scaled, q);
    let (zero_p, one_p, clamped_p, full_p) = choose|zero: S, one: S, clamped: S, full: S|
        #![trigger is_clamped(val, zero, one, clamped), crate::number::is_product(clamped, full, scaled_p)]
        crate::number::is_whole(0, zero) && crate::number::is_whole(1, one) && is_clamped(
            val,
            zero,
            one,
            clamped,
        ) && crate::number::is_whole(255, full) && crate::number::is_product(
            clamped,
            full,
            scaled_p,
        );
    let (zero_q, one_q, clamped_q, full_q) = choose|zero: S, one: S, clamped: S, full: S|
        #![trigger is_clamped(val, zero, one, clamped), crate::number::is_product(clamped, full, scaled_q)]
        crate::number::is_whole(0, zero) && crate::number::is_whole(1, one) && is_clamped(
            val,
            zero,
            one,
            clamped,
        ) && crate::number::is_whole(255, full) && crate::number::is_product(
            clamped,
            full,
            scaled_q,
        );
    assert(zero_p == zero_q && one_p == one_q && full_p == full_q);
    lemma_clamped_is_unique(val, zero_p, one_p, clamped_p, clamped_q);
    assert(scaled_p == scaled_q);
}

/// A colour has one packed pixel where each operation of the numbers and of
/// `math` gives one result: the same colour always packs to the same bytes.
pub proof fn lemma_pixel_is_unique<S: Number, M: Math<S>>(math: M, color: Vec3<S>, p: u32, q: u32)
    requires
        is_pixel(math, color, p),
        is_pixel(math, color, q),
        crate::number::is_exact::<S>(),
        crate::number::is_exact_math(math),
    ensures
        p == q,
{
    let (rp, gp, bp) = choose|r: u8, g: u8, b: u8|
        #![trigger is_color_byte(math, color.x, r), is_color_byte(math, color.y, g), is_color_byte(math, color.z, b)]
        is_color_byte(math, color.x, r) && is_color_byte(math, color.y, g) && is_color_byte(
            math,
            color.z,
            b,
        ) && p == pack_spec(r, g, b);
    let (rq, gq, bq) = choose|r: u8, g: u8, b: u8|
        #![trigger is_color_byte(math, color.x, r), is_color_byte(math, color.y, g), is_color_byte(math, color.z, b)]
        is_color_byte(math, color.x, r) && is_color_byte(math, color.y, g) && is_color_byte(
            math,
            color.z,
            b,
        ) && q == pack_spec(r, g, b);
    lemma_color_byte_is_unique(math, color.x, rp, rq);
    lemma_color_byte_is_unique(math, color.y, gp, gq);
    lemma_color_byte_is_unique(math, color.z, bp, bq);
}

/// A packed pixel has its top byte zero, and each byte can be read back out
/// of it.
pub proof fn lemma_pack_reads_back(r: u8, g: u8, b: u8)
    ensures
        0 <= pack_spec(r, g, b) < 0x100_0000,
        pack_spec(r, g, b) / 65536 == r,
        (pack_spec(r, g, b) / 256) % 256 == g,
        pack_spec(r, g, b) % 256 == b,
{
    let red = r as int;
    let green = g as int;
    let blue = b as int;
    let packed = red * 65536 + green * 256 + blue;
    assert(packed == pack_spec(r, g, b));
    assert(0 <= green * 256 + blue < 65536);
    assert(packed / 65536 == red);
    assert(packed / 256 == red * 256 + green);
    assert((red * 256 + green) % 256 == green);
    assert(packed % 256 == blue);
}

} // verus!
