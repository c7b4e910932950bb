//! Fixed-point units shared by every module, and the arithmetic helpers that keep
//! intermediate results exact.

use vstd::arithmetic::div_mod::{lemma_fundamental_div_mod, lemma_fundamental_div_mod_converse};
use vstd::arithmetic::mul::lemma_mul_is_commutative;
use vstd::prelude::*;

verus! {

/// Position units per pixel.
pub const UNITS_PER_PIXEL: i64 = 1_000_000;

/// Nanoseconds per second.
pub const NANOS_PER_SECOND: u64 = 1_000_000_000;

/// Largest magnitude a coordinate or velocity may take (2^53 units).
pub const COORD_LIMIT: i64 = 9_007_199_254_740_992;

/// Whether `v` lies within the coordinate range.
pub open spec fn in_range(v: int) -> bool {
    -COORD_LIMIT <= v <= COORD_LIMIT
}

/// `v` pulled back to the nearest value of the coordinate range.
pub open spec fn saturate(v: int) -> int {
    if v < -COORD_LIMIT {
        -COORD_LIMIT as int
    } else if v > COORD_LIMIT {
        COORD_LIMIT as int
    } else {
        v
    }
}

/// Saturates a wide intermediate result into the coordinate range.
pub fn saturate_wide(v: i128) -> (r: i64)
    ensures
        r == saturate(v as int),
        in_range(r as int),
{
    if v < -(COORD_LIMIT as i128) {
        -COORD_LIMIT
    } else if v > COORD_LIMIT as i128 {
        COORD_LIMIT
    } else {
        v as i64
    }
}

/// Floor division of a signed numerator by a positive divisor.
pub fn floor_div(n: i128, d: i128) -> (q: i128)
    requires
        d > 0,
        n > i128::MIN,
    ensures
        q == (n as int) / (d as int),
{
    if n >= 0 {
        n / d
    } else {
        let m: i128 = -n;
        let whole: i128 = m / d;
        let rest: i128 = m % d;
        proof {
            lemma_fundamental_div_mod(m as int, d as int);
            lemma_mul_is_commutative(d as int, whole as int);
        }
        if rest == 0 {
            proof {
                assert((-whole) * d == -(whole * d)) by (nonlinear_arith);
                lemma_fundamental_div_mod_converse(n as int, d as int, -whole as int, 0);
            }
            -whole
        } else {
            proof {
                assert((-whole - 1) * d + (d - rest) == -(whole * d) - rest) by (nonlinear_arith);
                lemma_fundamental_div_mod_converse(
                    n as int,
                    d as int,
                    -whole - 1,
                    d as int - rest as int,
                );
            }
            -whole - 1
        }
    }
}

/// A whole number of pixels expressed in position units.
pub open spec fn pixel_units(px: int) -> int {
    px * UNITS_PER_PIXEL
}

/// Converts a pixel count into position units.
pub fn pixels(px: u32) -> (u: i64)
    ensures
        u == pixel_units(px as int),
        0 <= u < COORD_LIMIT,
{
    (px as i64) * UNITS_PER_PIXEL
}

} // verus!
