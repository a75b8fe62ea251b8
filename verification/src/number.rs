//! Fractions, rounding and clamping.

use vstd::prelude::*;

verus! {

/// A non-negative factor, as a fraction.
#[derive(Clone, Copy, Debug, PartialEq, Eq, Structural)]
pub struct Factor {
    pub numerator: u32,
    pub denominator: u32,
}

impl Factor {
    pub open spec fn wf(self) -> bool {
        self.denominator > 0
    }
}

/// `numerator / denominator` rounded to the nearest integer, halves upwards.
pub open spec fn rounded(numerator: int, denominator: int) -> int
    recommends
        denominator > 0,
{
    (2 * numerator + denominator) / (2 * denominator)
}

/// The number in `low..=high` closest to `value`.
pub open spec fn clamped_to(value: int, low: int, high: int) -> int {
    if value < low {
        low
    } else if value > high {
        high
    } else {
        value
    }
}

/// [`clamped_to`] on screen coordinates.
pub fn clamp_i32(value: i32, low: i32, high: i32) -> (r: i32)
    requires
        low <= high,
    ensures
        r == clamped_to(value as int, low as int, high as int),
{
    if value < low {
        low
    } else if value > high {
        high
    } else {
        value
    }
}

/// A rounded quotient is within half of the exact one, and a half goes upwards.
pub proof fn rounding_is_to_the_nearest(numerator: int, denominator: int)
    requires
        denominator > 0,
    ensures
        -denominator < 2 * (rounded(numerator, denominator) * denominator - numerator)
            <= denominator,
{
    let (n, d, q) = (numerator, denominator, rounded(numerator, denominator));
    assert(q * (2 * d) <= 2 * n + d < q * (2 * d) + 2 * d) by (nonlinear_arith)
        requires
            q == (2 * n + d) / (2 * d),
            d > 0,
    ;
    assert(q * (2 * d) == 2 * (q * d)) by (nonlinear_arith);
}

/// A number is held to a range: left alone inside it, and moved to the nearer end outside.
pub proof fn a_number_is_held_to_its_range(value: int, low: int, high: int)
    requires
        low <= high,
    ensures
        low <= clamped_to(value, low, high) <= high,
        low <= value <= high ==> clamped_to(value, low, high) == value,
        value <= low ==> clamped_to(value, low, high) == low,
        value >= high ==> clamped_to(value, low, high) == high,
{
}

} // verus!
