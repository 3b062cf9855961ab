//! Integer HSV to RGB conversion.
//!
//! Hue is measured in whole degrees, saturation and value are 8-bit levels.
//! Every intermediate step is a truncating integer division, so a color is
//! reproduced bit for bit wherever it is computed.

use vstd::prelude::*;

verus! {

/// Degrees in the hue wheel.
pub const HUE_DEGREES: u16 = 360;

/// The region of the wheel that a hue falls in. Hues of 300 degrees and
/// beyond all count as the last region.
pub open spec fn hue_region(h: int) -> int {
    h / 60
}

/// How far a hue lies into its region, rescaled from `0..60` degrees to an
/// 8-bit fraction and truncated.
pub open spec fn hue_fraction(h: int) -> int {
    ((h % 60) * 255) / 60
}

/// `level` scaled down by `weight / 255`, truncated.
pub open spec fn scale(level: int, weight: int) -> int {
    level * weight / 255
}

/// The level of the weakest channel: `v` with the saturation taken out.
pub open spec fn floor_level(s: int, v: int) -> int {
    scale(v, 255 - s)
}

/// The level of the channel that fades as the hue moves through a region.
pub open spec fn falling_level(s: int, v: int, fraction: int) -> int {
    scale(v, 255 - (s * fraction) / 255)
}

/// The level of the channel that grows as the hue moves through a region.
pub open spec fn rising_level(s: int, v: int, fraction: int) -> int {
    scale(v, 255 - (s * (255 - fraction)) / 255)
}

/// The red, green and blue levels of the color with hue `h`, saturation `s`
/// and value `v`.
pub open spec fn hsv_levels(h: int, s: int, v: int) -> (int, int, int) {
    let f = hue_fraction(h);
    let p = floor_level(s, v);
    let q = falling_level(s, v, f);
    let t = rising_level(s, v, f);
    if s == 0 {
        (v, v, v)
    } else if hue_region(h) == 0 {
        (v, t, p)
    } else if hue_region(h) == 1 {
        (q, v, p)
    } else if hue_region(h) == 2 {
        (p, v, t)
    } else if hue_region(h) == 3 {
        (p, q, v)
    } else if hue_region(h) == 4 {
        (t, p, v)
    } else {
        (v, p, q)
    }
}

/// The color with hue `h`, saturation `s` and value `v` as 8-bit channels.
/// Every level of such a color is at most `v`, so none is cut short here.
pub open spec fn hsv_color(h: u16, s: u8, v: u8) -> (u8, u8, u8) {
    let c = hsv_levels(h as int, s as int, v as int);
    (c.0 as u8, c.1 as u8, c.2 as u8)
}

/// The channels of an 8-bit color as mathematical integers.
pub open spec fn levels_of(c: (u8, u8, u8)) -> (int, int, int) {
    (c.0 as int, c.1 as int, c.2 as int)
}

/// The largest of three levels.
pub open spec fn brightest(c: (int, int, int)) -> int {
    if c.0 >= c.1 && c.0 >= c.2 {
        c.0
    } else if c.1 >= c.2 {
        c.1
    } else {
        c.2
    }
}

/// The smallest of three levels.
pub open spec fn dimmest(c: (int, int, int)) -> int {
    if c.0 <= c.1 && c.0 <= c.2 {
        c.0
    } else if c.1 <= c.2 {
        c.1
    } else {
        c.2
    }
}

/// The distance between two levels.
pub open spec fn gap(a: int, b: int) -> int {
    if a >= b {
        a - b
    } else {
        b - a
    }
}

/// Scaling by a weight of at most 255 never raises a level.
pub proof fn lemma_scale_bounds(level: int, weight: int)
    requires
        0 <= level,
        0 <= weight <= 255,
    ensures
        0 <= scale(level, weight) <= level,
{
    assert(0 <= level * weight <= level * 255) by (nonlinear_arith)
        requires
            0 <= level,
            0 <= weight <= 255,
    ;
}

/// The product of two 8-bit levels, brought back to 8 bits, is an 8-bit
/// level.
pub proof fn lemma_mix_bounds(a: int, b: int)
    requires
        0 <= a <= 255,
        0 <= b <= 255,
    ensures
        0 <= a * b <= 65025,
        0 <= (a * b) / 255 <= 255,
{
    assert(0 <= a * b <= 65025) by (nonlinear_arith)
        requires
            0 <= a <= 255,
            0 <= b <= 255,
    ;
}

/// Converts a color from hue (degrees), saturation and value to red, green
/// and blue.
///
/// A color without saturation is the gray `(v, v, v)`. Otherwise one
/// channel carries `v`, one the floor level, and the third rises or falls
/// with the hue's position inside its region; which channel plays which
/// part rotates from region to region.
pub fn hsv_to_rgb(h: u16, s: u8, v: u8) -> (c: (u8, u8, u8))
    ensures
        c == hsv_color(h, s, v),
        levels_of(c) == hsv_levels(h as int, s as int, v as int),
        s == 0 ==> c == (v, v, v),
        c.0 <= v && c.1 <= v && c.2 <= v,
        c.0 == v || c.1 == v || c.2 == v,
{
    if s == 0 {
        return (v, v, v);
    }
    let region: u16 = h / 60;
    let remainder: u16 = ((h % 60) * 255) / 60;
    proof {
        lemma_mix_bounds(s as int, remainder as int);
        lemma_mix_bounds(s as int, 255 - remainder);
        lemma_mix_bounds(v as int, 255 - s);
        lemma_mix_bounds(v as int, 255 - (s * remainder) / 255);
        lemma_mix_bounds(v as int, 255 - (s * (255 - remainder)) / 255);
        lemma_scale_bounds(v as int, 255 - s);
        lemma_scale_bounds(v as int, 255 - (s * remainder) / 255);
        lemma_scale_bounds(v as int, 255 - (s * (255 - remainder)) / 255);
    }
    let p: u8 = ((v as u16) * (255 - s as u16) / 255) as u8;
    let q: u8 = ((v as u16) * (255 - (s as u16 * remainder) / 255) / 255) as u8;
    let t: u8 = ((v as u16) * (255 - (s as u16 * (255 - remainder)) / 255) / 255) as u8;
    match region {
        0 => (v, t, p),
        1 => (q, v, p),
        2 => (p, v, t),
        3 => (p, q, v),
        4 => (t, p, v),
        _ => (v, p, q),
    }
}

/// Without saturation the hue is irrelevant: every channel carries the
/// value.
pub proof fn lemma_unsaturated_is_gray(h: int, v: int)
    ensures
        hsv_levels(h, 0, v) == (v, v, v),
{
}

/// The value is the level of the brightest channel: no channel exceeds it
/// and at least one reaches it, whatever the hue and saturation.
pub proof fn lemma_value_is_brightest(h: int, s: int, v: int)
    requires
        0 <= s <= 255,
        0 <= v <= 255,
        0 <= h,
    ensures
        0 <= hsv_levels(h, s, v).0 <= v,
        0 <= hsv_levels(h, s, v).1 <= v,
        0 <= hsv_levels(h, s, v).2 <= v,
        brightest(hsv_levels(h, s, v)) == v,
{
    let f = hue_fraction(h);
    lemma_mix_bounds(s, f);
    lemma_mix_bounds(s, 255 - f);
    lemma_scale_bounds(v, 255 - s);
    lemma_scale_bounds(v, 255 - (s * f) / 255);
    lemma_scale_bounds(v, 255 - (s * (255 - f)) / 255);
}

/// At full saturation and full value every hue has a channel at 255, and
/// every channel is an 8-bit level.
pub proof fn lemma_full_color_has_full_channel(h: int)
    requires
        0 <= h,
    ensures
        ({
            let c = hsv_levels(h, 255, 255);
            &&& c.0 == 255 || c.1 == 255 || c.2 == 255
            &&& 0 <= c.0 <= 255
            &&& 0 <= c.1 <= 255
            &&& 0 <= c.2 <= 255
        }),
{
    lemma_value_is_brightest(h, 255, 255);
}

/// At full saturation the weakest channel is dark, whatever the value.
pub proof fn lemma_saturated_has_dark_channel(h: int, v: int)
    requires
        0 <= h,
        0 <= v <= 255,
    ensures
        dimmest(hsv_levels(h, 255, v)) == 0,
{
    lemma_value_is_brightest(h, 255, v);
}

/// At full saturation and full value the moving channel follows the hue
/// fraction exactly.
pub proof fn lemma_full_color_levels(h: int)
    requires
        0 <= h,
    ensures
        floor_level(255, 255) == 0,
        rising_level(255, 255, hue_fraction(h)) == hue_fraction(h),
        falling_level(255, 255, hue_fraction(h)) == 255 - hue_fraction(h),
{
}

/// Where a region begins, the fully saturated, full value color is a
/// primary or secondary color: every channel is pinned at 0 or at 255.
pub proof fn lemma_region_starts_are_pure(h: int)
    requires
        0 <= h,
        h % 60 == 0,
    ensures
        ({
            let c = hsv_levels(h, 255, 255);
            &&& c.0 == 0 || c.0 == 255
            &&& c.1 == 0 || c.1 == 255
            &&& c.2 == 0 || c.2 == 255
        }),
{
    lemma_full_color_levels(h);
}

/// From one degree to the next inside a region the hue fraction grows by 4
/// or 5; the last degree of a region has fraction 250.
pub proof fn lemma_hue_fraction_step(h: int)
    requires
        0 <= h,
    ensures
        h % 60 < 59 ==> hue_region(h + 1) == hue_region(h),
        h % 60 < 59 ==> 4 <= hue_fraction(h + 1) - hue_fraction(h) <= 5,
        h % 60 == 59 ==> hue_region(h + 1) == hue_region(h) + 1,
        h % 60 == 59 ==> hue_fraction(h) == 250 && hue_fraction(h + 1) == 0,
{
    let k = h % 60;
    if k < 59 {
        assert((h + 1) % 60 == k + 1);
    } else {
        assert((h + 1) % 60 == 0);
    }
}

/// The hue wheel has no jump: between one degree and the next, the wrap
/// from 359 back to 0 included, no channel of the fully saturated, full
/// value color moves by more than 5 levels.
pub proof fn lemma_hue_wheel_is_continuous(h: int)
    requires
        0 <= h < 360,
    ensures
        ({
            let here = hsv_levels(h, 255, 255);
            let next = hsv_levels((h + 1) % 360, 255, 255);
            &&& gap(here.0, next.0) <= 5
            &&& gap(here.1, next.1) <= 5
            &&& gap(here.2, next.2) <= 5
        }),
{
    let n = (h + 1) % 360;
    lemma_full_color_levels(h);
    lemma_full_color_levels(n);
    lemma_hue_fraction_step(h);
    if h < 359 {
        assert(n == h + 1);
    }
}

} // verus!
