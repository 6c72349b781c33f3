//! Colors: three fixed-point channels meant to lie between zero and one.
//!
//! Adding colors models saturating accumulation of light: each channel is
//! clamped back into the unit range.  Scaling by a brightness factor is only
//! defined for factors inside the unit range — that is a precondition, not a
//! clamp, so misuse of the lighting model cannot pass silently.

use vstd::prelude::*;

use crate::fixed::{almost_eq_s, fx_add, mul_s, EPSILON, SCALE};
use crate::traits::AlmostEqual;

verus! {

/// Clamp `v` into `[min, max]`.
pub open spec fn clamp_s(min: int, max: int, v: int) -> int {
    if v < min {
        min
    } else if v > max {
        max
    } else {
        v
    }
}

/// An RGB color; each channel counts multiples of `1 / SCALE` and is meant
/// to lie in `[0, SCALE]`.
#[derive(Copy, Clone, Debug)]
pub struct Color {
    pub r: i64,
    pub g: i64,
    pub b: i64,
}

impl Color {
    /// Channels lie in the unit range.
    pub open spec fn spec_valid(self) -> bool {
        0 <= self.r <= SCALE && 0 <= self.g <= SCALE && 0 <= self.b <= SCALE
    }

    /// Channel-wise sum, clamped back into the unit range.
    pub open spec fn spec_add(self, other: Color) -> Color {
        Color {
            r: clamp_s(0, SCALE as int, self.r as int + other.r as int) as i64,
            g: clamp_s(0, SCALE as int, self.g as int + other.g as int) as i64,
            b: clamp_s(0, SCALE as int, self.b as int + other.b as int) as i64,
        }
    }

    /// Channel-wise product with the scalar `k`.
    pub open spec fn spec_scale(self, k: int) -> Color {
        Color {
            r: mul_s(self.r as int, k) as i64,
            g: mul_s(self.g as int, k) as i64,
            b: mul_s(self.b as int, k) as i64,
        }
    }

    /// Channel-wise comparison up to the default tolerance.
    pub open spec fn spec_almost_eq(self, other: Color) -> bool {
        almost_eq_s(self.r as int, other.r as int, EPSILON as int) && almost_eq_s(
            self.g as int,
            other.g as int,
            EPSILON as int,
        ) && almost_eq_s(self.b as int, other.b as int, EPSILON as int)
    }

    /// A color from its three channels.
    pub fn new(r: i64, g: i64, b: i64) -> (c: Color)
        ensures
            c == (Color { r, g, b }),
    {
        Color { r, g, b }
    }

    /// Black: every channel zero.
    pub fn new_black() -> (c: Color)
        ensures
            c == (Color { r: 0, g: 0, b: 0 }),
            c.spec_valid(),
    {
        Self::new(0, 0, 0)
    }

    /// Pure red.
    pub fn new_red() -> (c: Color)
        ensures
            c == (Color { r: SCALE as i64, g: 0, b: 0 }),
            c.spec_valid(),
    {
        Self::new(SCALE, 0, 0)
    }

    /// Pure green.
    pub fn new_green() -> (c: Color)
        ensures
            c == (Color { r: 0, g: SCALE as i64, b: 0 }),
            c.spec_valid(),
    {
        Self::new(0, SCALE, 0)
    }

    /// Pure blue.
    pub fn new_blue() -> (c: Color)
        ensures
            c == (Color { r: 0, g: 0, b: SCALE as i64 }),
            c.spec_valid(),
    {
        Self::new(0, 0, SCALE)
    }

    /// White: every channel one.
    pub fn new_white() -> (c: Color)
        ensures
            c == (Color { r: SCALE as i64, g: SCALE as i64, b: SCALE as i64 }),
            c.spec_valid(),
    {
        Color { r: SCALE, g: SCALE, b: SCALE }
    }

    /// Accumulate light: channel-wise sum clamped into the unit range.
    pub fn add(&self, other: &Color) -> (c: Color)
        ensures
            c == self.spec_add(*other),
            c.spec_valid(),
    {
        Color {
            r: clamp(0, SCALE, fx_add(self.r, other.r)),
            g: clamp(0, SCALE, fx_add(self.g, other.g)),
            b: clamp(0, SCALE, fx_add(self.b, other.b)),
        }
    }

    /// Attenuate by a factor `k` in the unit range.
    pub fn scale(&self, k: i64) -> (c: Color)
        requires
            0 <= k <= SCALE,
        ensures
            c == self.spec_scale(k as int),
            self.spec_valid() ==> c.spec_valid(),
    {
        let c = Color {
            r: crate::fixed::fx_mul(self.r, k),
            g: crate::fixed::fx_mul(self.g, k),
            b: crate::fixed::fx_mul(self.b, k),
        };
        proof {
            if self.spec_valid() {
                lemma_unit_product_valid(self.r as int, k as int);
                lemma_unit_product_valid(self.g as int, k as int);
                lemma_unit_product_valid(self.b as int, k as int);
            }
        }
        c
    }
}

/// Scaling a unit-range channel by a unit-range factor stays in range.
proof fn lemma_unit_product_valid(c: int, k: int)
    requires
        0 <= c <= SCALE,
        0 <= k <= SCALE,
    ensures
        0 <= mul_s(c, k) <= SCALE,
{
    assert(0 <= c * k <= (SCALE as int) * (SCALE as int)) by (nonlinear_arith)
        requires
            0 <= c <= SCALE as int,
            0 <= k <= SCALE as int,
    ;
    crate::fixed::lemma_trunc_div_rem(c * k, SCALE as int);
    let q = crate::fixed::trunc_div(c * k, SCALE as int);
    assert(q * SCALE <= (SCALE as int) * (SCALE as int));
    assert(q <= SCALE) by (nonlinear_arith)
        requires
            q * (SCALE as int) <= (SCALE as int) * (SCALE as int),
            SCALE as int > 0,
    ;
}

/// Clamp a scalar into `[min, max]`.
fn clamp(min: i64, max: i64, value: i64) -> (r: i64)
    ensures
        r as int == clamp_s(min as int, max as int, value as int),
{
    if value < min {
        min
    } else if value > max {
        max
    } else {
        value
    }
}

impl AlmostEqual for Color {
    open spec fn almost_eq_spec(&self, other: &Self) -> bool {
        self.spec_almost_eq(*other)
    }

    fn almost_equal(&self, other: &Self) -> (r: bool) {
        crate::fixed::almost_equal_with_epsilon(self.r, other.r, EPSILON)
            && crate::fixed::almost_equal_with_epsilon(self.g, other.g, EPSILON)
            && crate::fixed::almost_equal_with_epsilon(self.b, other.b, EPSILON)
    }
}

} // verus!
