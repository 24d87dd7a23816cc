use vstd::prelude::*;
use vstd::arithmetic::div_mod::{lemma_fundamental_div_mod, lemma_fundamental_div_mod_converse};

verus! {

/// A quotient is at least `q` where the dividend is at least `q` times the
/// divisor.
pub proof fn lemma_quotient_at_least(x: int, q: int, d: int)
    requires
        d > 0,
        x >= q * d,
    ensures
        x / d >= q,
{
    assert(x / d >= q) by (nonlinear_arith)
        requires d > 0, x >= q * d;
}

/// The sum of two remainders below `d`, as a remainder below `d` and a
/// carry of one `d`.
fn add_remainders(x: u128, y: u128, d: u128) -> (r: (u128, u128))
    requires
        x < d,
        y < d,
    ensures
        r.0 < d,
        r.1 <= 1,
        x + y == r.0 + r.1 * d,
{
    let room: u128 = d - y;
    if x >= room {
        (x - room, 1)
    } else {
        (x + y, 0)
    }
}

/// The sum of two quotients and a carry, or `None` where it passes 128
/// bits.
fn add_quotients(x: u128, y: u128, carry: u128) -> (r: Option<u128>)
    requires
        carry <= 1,
    ensures
        match r {
            Some(v) => v == x + y + carry,
            None => x + y + carry > u128::MAX,
        },
{
    match x.checked_add(y) {
        None => None,
        Some(s) => s.checked_add(carry),
    }
}

/// The product of `a` and `b` divided by `d`, truncated: exact over the
/// full 256 bits of the product. `None` where the quotient itself passes
/// 128 bits.
pub fn mul_div(a: u128, b: u128, d: u128) -> (r: Option<u128>)
    requires
        d > 0,
    ensures
        match r {
            Some(q) => q as int == (a as int) * (b as int) / (d as int),
            None => (a as int) * (b as int) / (d as int) > u128::MAX,
        },
{
    let ghost ab: int = (a as int) * (b as int);
    let ghost dd: int = d as int;
    let mut q: u128 = 0;
    let mut r: u128 = 0;
    let mut qt: u128 = a / d;
    let mut rt: u128 = a % d;
    let mut rest: u128 = b;
    proof {
        lemma_fundamental_div_mod(a as int, dd);
        assert(dd * (a as int / dd) == (a as int / dd) * dd) by (nonlinear_arith);
        assert(((qt as int) * dd + rt) * (rest as int) == ab);
    }
    while rest > 0
        invariant
            dd == d as int,
            d > 0,
            r < d,
            rt < d,
            ab == (a as int) * (b as int),
            ab == (q as int) * dd + r + ((qt as int) * dd + rt) * (rest as int),
        decreases rest,
    {
        let ghost t: int = (qt as int) * dd + rt;
        let half: u128 = rest / 2;
        assert(t >= 0) by (nonlinear_arith)
            requires t == (qt as int) * dd + rt, qt >= 0, dd > 0, rt >= 0;
        assert((q as int) * dd >= 0) by (nonlinear_arith)
            requires q >= 0, dd > 0;
        if rest % 2 == 1 {
            let (nr, carry) = add_remainders(r, rt, d);
            assert(t * (rest as int) == t * (2 * (half as int)) + t) by (nonlinear_arith)
                requires rest == 2 * half + 1;
            assert(t * (2 * (half as int)) >= 0) by (nonlinear_arith)
                requires t >= 0, half >= 0;
            assert(((q as int) + (qt as int) + (carry as int)) * dd == (q as int) * dd + (
            qt as int) * dd + (carry as int) * dd) by (nonlinear_arith);
            match add_quotients(q, qt, carry) {
                None => {
                    proof {
                        lemma_quotient_at_least(ab, q + qt + carry, dd);
                    }
                    return None;
                },
                Some(nq) => {
                    q = nq;
                    r = nr;
                },
            }
        } else {
            assert(t * (rest as int) == t * (2 * (half as int))) by (nonlinear_arith)
                requires rest == 2 * half;
        }
        assert(ab == (q as int) * dd + r + t * (2 * (half as int)));
        assert(t * (2 * (half as int)) == (2 * t) * (half as int)) by (nonlinear_arith);
        if half > 0 {
            let (nrt, carry) = add_remainders(rt, rt, d);
            assert(((qt as int) + (qt as int) + (carry as int)) * dd == 2 * ((qt as int) * dd)
                + (carry as int) * dd) by (nonlinear_arith);
            match add_quotients(qt, qt, carry) {
                None => {
                    proof {
                        assert((2 * t) * (half as int) >= 2 * t) by (nonlinear_arith)
                            requires t >= 0, half >= 1;
                        assert((q as int) * dd >= 0) by (nonlinear_arith)
                            requires q >= 0, dd > 0;
                        lemma_quotient_at_least(ab, qt + qt + carry, dd);
                    }
                    return None;
                },
                Some(nqt) => {
                    qt = nqt;
                    rt = nrt;
                },
            }
        } else {
            assert((2 * t) * (half as int) == 0) by (nonlinear_arith)
                requires half == 0;
            assert(((qt as int) * dd + rt) * (half as int) == 0) by (nonlinear_arith)
                requires half == 0;
        }
        rest = half;
    }
    proof {
        assert(((qt as int) * dd + rt) * (rest as int) == 0) by (nonlinear_arith)
            requires rest == 0;
        lemma_fundamental_div_mod_converse(ab, dd, q as int, r as int);
    }
    Some(q)
}

} // verus!
