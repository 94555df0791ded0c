//! Display colours from hue, saturation and value.
use vstd::prelude::*;
use crate::kinds::Colour;
use crate::scalar::ONE;

verus! {

/// The product of two scalars between zero and one, rounded down.
pub open spec fn unit_product(a: int, b: int) -> int {
    a * b / (ONE as int)
}

/// A scalar between zero and one as a colour channel: `c * 255`, rounded
/// down.
pub open spec fn channel(c: int) -> u8 {
    (c * 255 / (ONE as int)) as u8
}

/// The colour of hue `h`, saturation `s` and value `v`. The hue circle is
/// cut into six sectors of equal width; `h` counts turns round it.
pub open spec fn spec_hsv_to_rgb(h: int, s: int, v: int) -> Colour {
    let sector = (6 * h / (ONE as int)) % 6;
    let f = (6 * h) % (ONE as int);
    let p = unit_product(v, ONE - s);
    let q = unit_product(v, ONE - unit_product(f, s));
    let t = unit_product(v, ONE - unit_product(ONE - f, s));
    if sector == 0 {
        (channel(v), channel(t), channel(p))
    } else if sector == 1 {
        (channel(q), channel(v), channel(p))
    } else if sector == 2 {
        (channel(p), channel(v), channel(t))
    } else if sector == 3 {
        (channel(p), channel(q), channel(v))
    } else if sector == 4 {
        (channel(t), channel(p), channel(v))
    } else {
        (channel(v), channel(p), channel(q))
    }
}

/// The colour of a hue at full saturation and full value.
pub open spec fn hue_colour(h: int) -> Colour {
    spec_hsv_to_rgb(h, ONE as int, ONE as int)
}

/// The colour has one channel fully on and one fully off.
pub open spec fn is_pure(c: Colour) -> bool {
    (c.0 == 255 || c.1 == 255 || c.2 == 255) && (c.0 == 0 || c.1 == 0 || c.2 == 0)
}

/// The product of two scalars between zero and one lies between zero and
/// one.
pub proof fn lemma_unit_product(a: int, b: int)
    requires
        0 <= a <= ONE,
        0 <= b <= ONE,
    ensures
        0 <= unit_product(a, b) <= ONE,
        0 <= a * b <= ONE * ONE,
{
    assert(0 <= a * b <= ONE * ONE) by (nonlinear_arith)
        requires
            0 <= a <= ONE,
            0 <= b <= ONE,
    ;
}

/// A colour at full saturation and full value has one channel fully on and
/// one fully off.
pub proof fn lemma_hue_colour_is_pure(h: int)
    ensures
        is_pure(hue_colour(h)),
{
}

fn unit_mul(a: i64, b: i64) -> (c: i64)
    requires
        0 <= a <= ONE,
        0 <= b <= ONE,
    ensures
        c == unit_product(a as int, b as int),
        0 <= c <= ONE,
{
    proof {
        lemma_unit_product(a as int, b as int);
    }
    a * b / ONE
}

fn to_channel(c: i64) -> (byte: u8)
    requires
        0 <= c <= ONE,
    ensures
        byte == channel(c as int),
{
    (c * 255 / ONE) as u8
}

/// Converts hue, saturation and value to red, green and blue.
pub fn hsv_to_rgb(h: i64, s: i64, v: i64) -> (rgb: Colour)
    requires
        0 <= h,
        0 <= s <= ONE,
        0 <= v <= ONE,
    ensures
        rgb == spec_hsv_to_rgb(h as int, s as int, v as int),
{
    let turns: i128 = 6 * (h as i128);
    let sector: i128 = (turns / (ONE as i128)) % 6;
    let f: i64 = (turns % (ONE as i128)) as i64;
    let p: i64 = unit_mul(v, ONE - s);
    let q: i64 = unit_mul(v, ONE - unit_mul(f, s));
    let t: i64 = unit_mul(v, ONE - unit_mul(ONE - f, s));
    if sector == 0 {
        (to_channel(v), to_channel(t), to_channel(p))
    } else if sector == 1 {
        (to_channel(q), to_channel(v), to_channel(p))
    } else if sector == 2 {
        (to_channel(p), to_channel(v), to_channel(t))
    } else if sector == 3 {
        (to_channel(p), to_channel(q), to_channel(v))
    } else if sector == 4 {
        (to_channel(t), to_channel(p), to_channel(v))
    } else {
        (to_channel(v), to_channel(p), to_channel(q))
    }
}

} // verus!
