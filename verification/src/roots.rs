//! Integer square and seventh roots, rounded down, with their defining bounds.

use vstd::prelude::*;

verus! {

/// The seventh power of `r`.
pub open spec fn pow7(r: int) -> int {
    r * r * r * r * r * r * r
}

/// `r` is the square root of `n` rounded down.
pub open spec fn is_sqrt(n: int, r: int) -> bool {
    0 <= r && r * r <= n < (r + 1) * (r + 1)
}

/// `r` is the seventh root of `n` rounded down.
pub open spec fn is_root7(n: int, r: int) -> bool {
    0 <= r && pow7(r) <= n < pow7(r + 1)
}

/// The square root of `n` rounded down (for `n >= 0`).
pub open spec fn sqrt_floor(n: int) -> int {
    choose|r: int| is_sqrt(n, r)
}

/// The seventh root of `n` rounded down (for `n >= 0`).
pub open spec fn root7_floor(n: int) -> int {
    choose|r: int| is_root7(n, r)
}

/// Exclusive upper bound of the arguments `seventh_root` accepts (2^105).
pub const ROOT7_DOMAIN: u128 = 40_564_819_207_303_340_847_894_502_572_032;

/// Squaring is monotonic on the non-negative integers.
pub proof fn lemma_square_monotonic(a: int, b: int)
    requires
        0 <= a <= b,
    ensures
        a * a <= b * b,
{
    assert(a * a <= b * b) by (nonlinear_arith)
        requires
            0 <= a <= b,
    ;
}

proof fn lemma_product_monotonic(a: int, b: int, c: int, d: int)
    requires
        0 <= a <= b,
        0 <= c <= d,
    ensures
        0 <= a * c <= b * d,
{
    assert(0 <= a * c <= b * d) by (nonlinear_arith)
        requires
            0 <= a <= b,
            0 <= c <= d,
    ;
}

/// The seventh power is monotonic on the non-negative integers.
pub proof fn lemma_pow7_monotonic(a: int, b: int)
    requires
        0 <= a <= b,
    ensures
        0 <= pow7(a) <= pow7(b),
{
    lemma_product_monotonic(a, b, a, b);
    lemma_product_monotonic(a * a, b * b, a, b);
    lemma_product_monotonic(a * a * a, b * b * b, a, b);
    lemma_product_monotonic(a * a * a * a, b * b * b * b, a, b);
    lemma_product_monotonic(a * a * a * a * a, b * b * b * b * b, a, b);
    lemma_product_monotonic(a * a * a * a * a * a, b * b * b * b * b * b, a, b);
}

/// A number has at most one rounded-down square root, and `sqrt_floor` names it.
pub proof fn lemma_sqrt_unique(n: int, r: int)
    requires
        is_sqrt(n, r),
    ensures
        sqrt_floor(n) == r,
{
    let s = sqrt_floor(n);
    assert(is_sqrt(n, s));
    if s < r {
        lemma_square_monotonic(s + 1, r);
    } else if r < s {
        lemma_square_monotonic(r + 1, s);
    }
}

/// A number has at most one rounded-down seventh root, and `root7_floor` names it.
pub proof fn lemma_root7_unique(n: int, r: int)
    requires
        is_root7(n, r),
    ensures
        root7_floor(n) == r,
{
    let s = root7_floor(n);
    assert(is_root7(n, s));
    if s < r {
        lemma_pow7_monotonic(s + 1, r);
    } else if r < s {
        lemma_pow7_monotonic(r + 1, s);
    }
}

/// Every non-negative number has a rounded-down square root.
pub proof fn lemma_sqrt_exists(n: int)
    requires
        0 <= n,
    ensures
        is_sqrt(n, sqrt_floor(n)),
    decreases n,
{
    if n == 0 {
        assert(is_sqrt(0, 0));
    } else {
        lemma_sqrt_exists(n - 1);
        let r = sqrt_floor(n - 1);
        if (r + 1) * (r + 1) <= n {
            assert((r + 1) * (r + 1) < (r + 2) * (r + 2)) by (nonlinear_arith)
                requires
                    0 <= r,
            ;
            assert(is_sqrt(n, r + 1));
        } else {
            assert(is_sqrt(n, r));
        }
    }
}

/// Computes the square root of `n` rounded down.
pub fn square_root(n: u64) -> (r: u32)
    ensures
        is_sqrt(n as int, r as int),
        r == sqrt_floor(n as int),
{
    let mut low: u64 = 0;
    let mut high: u64 = 4_294_967_296;
    while high - low > 1
        invariant
            low < high <= 4_294_967_296,
            low * low <= n < high * high,
        decreases high - low,
    {
        let mid: u64 = low + (high - low) / 2;
        proof {
            lemma_square_monotonic(mid as int, 4_294_967_295);
        }
        if mid * mid <= n {
            low = mid;
        } else {
            high = mid;
        }
    }
    proof {
        lemma_sqrt_unique(n as int, low as int);
    }
    low as u32
}

fn seventh_power(r: u128) -> (p: u128)
    requires
        r <= 32_768,
    ensures
        p == pow7(r as int),
{
    proof {
        let r = r as int;
        let b: int = 32_768;
        lemma_product_monotonic(r, b, r, b);
        lemma_product_monotonic(r * r, b * b, r, b);
        lemma_product_monotonic(r * r * r, b * b * b, r, b);
        lemma_product_monotonic(r * r * r * r, b * b * b * b, r, b);
        lemma_product_monotonic(r * r * r * r * r, b * b * b * b * b, r, b);
        lemma_product_monotonic(r * r * r * r * r * r, b * b * b * b * b * b, r, b);
        assert(b * b * b * b * b * b * b == ROOT7_DOMAIN) by (nonlinear_arith)
            requires
                b == 32_768,
        ;
    }
    r * r * r * r * r * r * r
}

/// Computes the seventh root of `n` rounded down.
pub fn seventh_root(n: u128) -> (r: u32)
    requires
        n < ROOT7_DOMAIN,
    ensures
        is_root7(n as int, r as int),
        r == root7_floor(n as int),
        r < 32_768,
{
    let mut low: u128 = 0;
    let mut high: u128 = 32_768;
    assert(pow7(0) == 0 && pow7(32_768) == ROOT7_DOMAIN) by (nonlinear_arith);
    while high - low > 1
        invariant
            low < high <= 32_768,
            pow7(low as int) <= n < pow7(high as int),
        decreases high - low,
    {
        let mid: u128 = low + (high - low) / 2;
        if seventh_power(mid) <= n {
            low = mid;
        } else {
            high = mid;
        }
    }
    proof {
        lemma_root7_unique(n as int, low as int);
    }
    low as u32
}

} // verus!
