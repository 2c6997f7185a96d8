//! Lengths, boxes and the conversion from font design units to pixels.
//!
//! Every pixel length is held in fixed point with six fractional bits, the
//! unit in which shaping engines report sub-pixel advances: `Pixels(64)` is
//! one pixel. Arithmetic on pixel lengths saturates at the ends of `i64`.

use vstd::arithmetic::div_mod::lemma_fundamental_div_mod;
use vstd::arithmetic::div_mod::lemma_fundamental_div_mod_converse;
use vstd::prelude::*;

verus! {

/// Number of fixed-point steps in one pixel.
pub const SUBPIXELS_PER_PIXEL: i64 = 64;

/// A length in 64ths of a scaled pixel.
#[derive(Clone, Copy, Debug, PartialEq, Eq, Structural)]
pub struct Pixels(pub i64);

/// A whole number of physical screen pixels.
#[derive(Clone, Copy, Debug, PartialEq, Eq, Structural)]
pub struct DevicePixels(pub i32);

/// A position.
#[derive(Clone, Copy, Debug, PartialEq, Eq)]
pub struct Point<T> {
    pub x: T,
    pub y: T,
}

/// An extent.
#[derive(Clone, Copy, Debug, PartialEq, Eq)]
pub struct Size<T> {
    pub width: T,
    pub height: T,
}

/// A box: its origin and its extent.
#[derive(Clone, Copy, Debug, PartialEq, Eq)]
pub struct Bounds<T> {
    pub origin: Point<T>,
    pub size: Size<T>,
}

/// `v`, held to the range of `i64`.
pub open spec fn clamp_to_i64(v: int) -> int {
    if v < i64::MIN as int {
        i64::MIN as int
    } else if v > i64::MAX as int {
        i64::MAX as int
    } else {
        v
    }
}

/// The sum of two pixel lengths, saturating.
pub open spec fn pixels_sum(a: int, b: int) -> int {
    clamp_to_i64(a + b)
}

/// A length of `units` design units, set at `font_size` in a face of
/// `units_per_em` units to the em, in 64ths of a pixel: the exact quotient
/// rounded down, saturating.
pub open spec fn scaled_units(units: int, font_size: int, units_per_em: int) -> int
    recommends
        units_per_em > 0,
{
    clamp_to_i64((units * font_size) / units_per_em)
}

/// For a negative numerator the rounded-down quotient is the negated
/// rounded-up quotient of the magnitude.
proof fn lemma_floor_of_negative(n: int, d: int)
    requires
        n < 0,
        d > 0,
    ensures
        n / d == -((-n + d - 1) / d),
{
    let m = -n + d - 1;
    let k = m / d;
    let r = m % d;
    lemma_fundamental_div_mod(m, d);
    assert(m == d * k + r);
    assert(0 <= r < d);
    let rest = d - 1 - r;
    assert(n == (-k) * d + rest) by (nonlinear_arith)
        requires
            -n + d - 1 == d * k + r,
            rest == d - 1 - r,
    ;
    lemma_fundamental_div_mod_converse(n, d, -k, rest);
}

impl Pixels {
    /// The empty length.
    pub fn zero() -> (r: Pixels)
        ensures
            r.0 == 0,
    {
        Pixels(0)
    }

    /// A whole number of pixels.
    pub fn from_whole(pixels: i32) -> (r: Pixels)
        ensures
            r.0 == pixels as int * 64,
    {
        let wide: i64 = pixels as i64;
        Pixels(wide * SUBPIXELS_PER_PIXEL)
    }

    /// The sum of two lengths, saturating at the ends of `i64`.
    pub fn saturating_add(self, other: Pixels) -> (r: Pixels)
        ensures
            r.0 as int == pixels_sum(self.0 as int, other.0 as int),
    {
        let wide: i128 = self.0 as i128 + other.0 as i128;
        Pixels(narrow(wide))
    }

    /// The larger of two lengths.
    pub fn max(self, other: Pixels) -> (r: Pixels)
        ensures
            r.0 == if self.0 >= other.0 { self.0 } else { other.0 },
    {
        if self.0 >= other.0 {
            self
        } else {
            other
        }
    }
}

/// Narrows a wide intermediate to `i64`, saturating.
fn narrow(wide: i128) -> (r: i64)
    ensures
        r as int == clamp_to_i64(wide as int),
{
    if wide < i64::MIN as i128 {
        i64::MIN
    } else if wide > i64::MAX as i128 {
        i64::MAX
    } else {
        wide as i64
    }
}

/// Converts a length in design units to pixels at `font_size`.
pub fn scale_units(units: i64, font_size: Pixels, units_per_em: u32) -> (r: Pixels)
    requires
        units_per_em > 0,
    ensures
        r.0 as int == scaled_units(units as int, font_size.0 as int, units_per_em as int),
{
    let u: i128 = units as i128;
    let s: i128 = font_size.0 as i128;
    let d: i128 = units_per_em as i128;
    assert(-0x4000_0000_0000_0000_0000_0000_0000_0000 <= u * s
        <= 0x4000_0000_0000_0000_0000_0000_0000_0000) by (nonlinear_arith)
        requires
            -0x8000_0000_0000_0000 <= u <= 0x8000_0000_0000_0000,
            -0x8000_0000_0000_0000 <= s <= 0x8000_0000_0000_0000,
    ;
    let product: i128 = u * s;
    let quotient: i128 = if product >= 0 {
        product / d
    } else {
        proof {
            lemma_floor_of_negative(product as int, d as int);
        }
        let magnitude: i128 = -product + (d - 1);
        -(magnitude / d)
    };
    Pixels(narrow(quotient))
}

} // verus!
