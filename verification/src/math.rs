use vstd::prelude::*;
use crate::wide::mul_div;

verus! {

/// One unit of price: the fixed-point value that stands for 1.
pub const SCALE: u64 = 1_000_000;

/// A bound that no square-root price of a 64-bit price exceeds.
pub const MAX_SQRT_PRICE: u64 = 4_294_967_296_000;

/// `r` is the integer square root of `n`: the largest integer whose square
/// does not exceed `n`.
pub open spec fn is_int_sqrt(n: int, r: int) -> bool {
    0 <= r && r * r <= n && n < (r + 1) * (r + 1)
}

/// The integer square root, as a value.
pub open spec fn int_sqrt(n: int) -> int {
    choose|r: int| is_int_sqrt(n, r)
}

/// Two integer square roots of one number are equal.
pub proof fn lemma_int_sqrt_unique(n: int, a: int, b: int)
    requires
        is_int_sqrt(n, a),
        is_int_sqrt(n, b),
    ensures
        a == b,
{
    if a < b {
        assert((a + 1) * (a + 1) <= b * b) by (nonlinear_arith)
            requires 0 <= a, a + 1 <= b;
    } else if b < a {
        assert((b + 1) * (b + 1) <= a * a) by (nonlinear_arith)
            requires 0 <= b, b + 1 <= a;
    }
}

/// Integer square root by bisection.
pub fn isqrt(n: u128) -> (r: u64)
    ensures
        is_int_sqrt(n as int, r as int),
        r as int == int_sqrt(n as int),
{
    let mut lo: u128 = 0;
    let mut hi: u128 = 0x1_0000_0000_0000_0000;
    assert(hi * hi > n) by (nonlinear_arith)
        requires hi == 0x1_0000_0000_0000_0000u128, n <= u128::MAX;
    while hi - lo > 1
        invariant
            lo < hi <= 0x1_0000_0000_0000_0000,
            lo * lo <= n,
            n < hi * hi,
        decreases hi - lo,
    {
        let mid: u128 = lo + (hi - lo) / 2;
        assert(mid * mid <= u128::MAX) by (nonlinear_arith)
            requires mid <= 0xffff_ffff_ffff_ffffu128;
        if mid * mid <= n {
            lo = mid;
        } else {
            hi = mid;
        }
    }
    proof {
        assert(hi == lo + 1);
        let w = lo as int;
        assert(is_int_sqrt(n as int, w));
        lemma_int_sqrt_unique(n as int, w, int_sqrt(n as int));
    }
    lo as u64
}

/// The square-root price of `price`: the integer square root of
/// `price * SCALE`, so that it stands for the root of the real price,
/// truncated to a multiple of `1 / SCALE`.
pub open spec fn spec_sqrt_price(price: int) -> int {
    int_sqrt(price * SCALE as int)
}

pub fn sqrt_price_of(price: u64) -> (r: u64)
    ensures
        r as int == spec_sqrt_price(price as int),
        r <= MAX_SQRT_PRICE,
{
    assert(price * SCALE <= u128::MAX) by (nonlinear_arith)
        requires price <= u64::MAX, SCALE == 1_000_000;
    let r = isqrt((price as u128) * (SCALE as u128));
    proof {
        if r > MAX_SQRT_PRICE {
            assert(r * r > price * SCALE) by (nonlinear_arith)
                requires r >= 4_294_967_296_001u64, price <= 0xffff_ffff_ffff_ffffu64,
                    SCALE == 1_000_000;
        }
    }
    r
}

/// The price that a square-root price stands for: its square, brought back
/// to the scale and truncated.
pub open spec fn spec_price_of(sqrt_price: int) -> int {
    sqrt_price * sqrt_price / SCALE as int
}

pub fn price_of(sqrt_price: u64) -> (r: u128)
    ensures
        r as int == spec_price_of(sqrt_price as int),
{
    assert(sqrt_price * sqrt_price <= u128::MAX) by (nonlinear_arith)
        requires sqrt_price <= u64::MAX;
    (sqrt_price as u128) * (sqrt_price as u128) / (SCALE as u128)
}

/// Amount of the first asset that liquidity `l` holds over the square-root
/// price range from `lo` to `hi`: `l * (hi - lo) / (hi * lo)` in real terms,
/// truncated.
pub open spec fn spec_amount0(l: int, lo: int, hi: int) -> int {
    l * (hi - lo) * SCALE as int / (hi * lo)
}

/// Amount of the second asset that liquidity `l` holds over the square-root
/// price range from `lo` to `hi`: `l * (hi - lo)` in real terms, truncated.
pub open spec fn spec_amount1(l: int, lo: int, hi: int) -> int {
    l * (hi - lo) / SCALE as int
}

/// The amount of the first asset over a range, or `None` where it passes
/// 128 bits.
pub fn amount0(l: u128, lo: u64, hi: u64) -> (r: Option<u128>)
    requires
        0 < lo <= hi,
    ensures
        match r {
            Some(v) => v as int == spec_amount0(l as int, lo as int, hi as int),
            None => spec_amount0(l as int, lo as int, hi as int) > u128::MAX,
        },
{
    let d: u64 = hi - lo;
    assert(d * SCALE <= u128::MAX) by (nonlinear_arith)
        requires d <= u64::MAX, SCALE == 1_000_000;
    assert(0 < hi * lo <= u128::MAX) by (nonlinear_arith)
        requires 0 < lo <= hi, hi <= u64::MAX;
    assert((l as int) * (d as int) * (SCALE as int) == (l as int) * ((d as int) * (SCALE as int)))
        by (nonlinear_arith);
    mul_div(l, (d as u128) * (SCALE as u128), (hi as u128) * (lo as u128))
}

/// The amount of the second asset over a range, or `None` where it passes
/// 128 bits.
pub fn amount1(l: u128, lo: u64, hi: u64) -> (r: Option<u128>)
    requires
        lo <= hi,
    ensures
        match r {
            Some(v) => v as int == spec_amount1(l as int, lo as int, hi as int),
            None => spec_amount1(l as int, lo as int, hi as int) > u128::MAX,
        },
{
    mul_div(l, (hi - lo) as u128, SCALE as u128)
}

/// Liquidity that `x` of the first asset provides over the range from `lo`
/// to `hi`: `x * lo * hi / (hi - lo)` in real terms, truncated after the
/// product with `lo` and again at the end.
pub open spec fn spec_liquidity0(x: int, lo: int, hi: int) -> int {
    (x * lo / SCALE as int) * hi / (hi - lo)
}

/// Liquidity that `y` of the second asset provides over the range from `lo`
/// to `hi`: `y / (hi - lo)` in real terms, truncated.
pub open spec fn spec_liquidity1(y: int, lo: int, hi: int) -> int {
    y * SCALE as int / (hi - lo)
}

/// The liquidity of `x` of the first asset over the range from `lo` to
/// `hi`, or `None` where it passes 128 bits.
pub fn liquidity0(x: u128, lo: u64, hi: u64) -> (r: Option<u128>)
    requires
        lo < hi,
    ensures
        match r {
            Some(l) => l as int == spec_liquidity0(x as int, lo as int, hi as int),
            None => spec_liquidity0(x as int, lo as int, hi as int) > u128::MAX,
        },
{
    let ghost whole = (x as int) * (lo as int) / (SCALE as int);
    proof {
        assert(x * lo >= 0) by (nonlinear_arith)
            requires x >= 0, lo >= 0;
        lemma_scaled_up(whole, hi as int, (hi - lo) as int);
    }
    match mul_div(x, lo as u128, SCALE as u128) {
        None => None,
        Some(a) => mul_div(a, hi as u128, (hi - lo) as u128),
    }
}

/// The liquidity of `y` of the second asset over the range from `lo` to
/// `hi`, or `None` where it passes 128 bits.
pub fn liquidity1(y: u128, lo: u64, hi: u64) -> (r: Option<u128>)
    requires
        lo < hi,
    ensures
        match r {
            Some(l) => l as int == spec_liquidity1(y as int, lo as int, hi as int),
            None => spec_liquidity1(y as int, lo as int, hi as int) > u128::MAX,
        },
{
    mul_div(y, SCALE as u128, (hi - lo) as u128)
}

/// A number brought from the width of a range up to its upper bound is no
/// smaller than before.
pub proof fn lemma_scaled_up(a: int, hi: int, d: int)
    requires
        a >= 0,
        0 < d <= hi,
    ensures
        a * hi / d >= a,
{
    assert(a * hi >= a * d) by (nonlinear_arith)
        requires a >= 0, d <= hi;
    assert(a * d / d == a) by (nonlinear_arith)
        requires d > 0;
    assert(a * hi / d >= a * d / d) by (nonlinear_arith)
        requires a * hi >= a * d, d > 0;
}

} // verus!
