use vstd::prelude::*;
use vstd::arithmetic::div_mod::{lemma_div_is_ordered, lemma_div_is_ordered_by_denominator};
use crate::errors::Error;
use crate::math::{SCALE, spec_amount0, spec_amount1, spec_liquidity0,
    spec_liquidity1, spec_sqrt_price, amount0, amount1, liquidity0, liquidity1, sqrt_price_of};

verus! {

/// One owner's liquidity over a range of square-root prices.
///
/// The bounds are square-root prices in fixed point, so a range exists only
/// where the truncated roots of its two prices differ and the lower one is
/// not zero. The liquidity constant and the reserves have 128 bits; a
/// position can stand at a price where both reserves that the range gives
/// there fit them.
#[derive(Clone, Copy, Debug, PartialEq, Eq, Structural)]
pub struct Position {
    /// The liquidity constant of the range.
    pub liquidity_constant: u128,
    /// Amount of the first asset that the position holds at the current price.
    pub token0_real_liquidity: u128,
    /// Amount of the second asset that the position holds at the current price.
    pub token1_real_liquidity: u128,
    /// Lower bound of the range, as a square-root price.
    pub sqrt_lower_bound_price: u64,
    /// Upper bound of the range, as a square-root price.
    pub sqrt_upper_bound_price: u64,
    /// Whether the current price lies strictly inside the range.
    pub is_active: bool,
}

/// The split of a position's liquidity at a given square-root price.
pub struct Split {
    pub amount0: int,
    pub amount1: int,
    pub active: bool,
}

/// The three-region rule. At or above the upper bound the range is wholly
/// in the second asset; at or below the lower bound wholly in the first;
/// strictly inside it holds both and is active.
pub open spec fn spec_split(l: int, lower: int, upper: int, sqrt_price: int) -> Split {
    if sqrt_price >= upper {
        Split { amount0: 0, amount1: spec_amount1(l, lower, upper), active: false }
    } else if sqrt_price <= lower {
        Split { amount0: spec_amount0(l, lower, upper), amount1: 0, active: false }
    } else {
        Split {
            amount0: spec_amount0(l, sqrt_price, upper),
            amount1: spec_amount1(l, lower, sqrt_price),
            active: true,
        }
    }
}

/// The liquidity constant that the known sides give at a square-root price.
/// A side counts where it is known and the range holds that asset at this
/// price; where both count, the smaller constant is taken; where none
/// counts, the constant is zero.
pub open spec fn spec_liquidity(
    side0: Option<u128>,
    side1: Option<u128>,
    lower: int,
    upper: int,
    sqrt_price: int,
) -> int {
    let at = if sqrt_price <= lower { lower } else if sqrt_price >= upper { upper } else {
        sqrt_price
    };
    let from0 = side0 is Some && at < upper;
    let from1 = side1 is Some && at > lower;
    let l0 = spec_liquidity0(side0.unwrap() as int, at, upper);
    let l1 = spec_liquidity1(side1.unwrap() as int, lower, at);
    if from0 && from1 {
        if l0 <= l1 { l0 } else { l1 }
    } else if from0 {
        l0
    } else if from1 {
        l1
    } else {
        0
    }
}

impl Default for Position {
    /// The empty position: no liquidity, no range, inactive.
    fn default() -> (r: Position)
        ensures
            r == (Position {
                liquidity_constant: 0,
                token0_real_liquidity: 0,
                token1_real_liquidity: 0,
                sqrt_lower_bound_price: 0,
                sqrt_upper_bound_price: 0,
                is_active: false,
            }),
    {
        Position {
            liquidity_constant: 0,
            token0_real_liquidity: 0,
            token1_real_liquidity: 0,
            sqrt_lower_bound_price: 0,
            sqrt_upper_bound_price: 0,
            is_active: false,
        }
    }
}

impl Position {
    /// The bounds form a range.
    pub open spec fn wf(&self) -> bool {
        0 < self.sqrt_lower_bound_price < self.sqrt_upper_bound_price
    }

    /// Both reserves that the range gives at `sqrt_price` can be held.
    pub open spec fn fits_at(&self, sqrt_price: u64) -> bool {
        self.split_at(sqrt_price).amount0 <= u128::MAX && self.split_at(sqrt_price).amount1
            <= u128::MAX
    }

    /// The split of this position at `sqrt_price`.
    pub open spec fn split_at(&self, sqrt_price: u64) -> Split {
        spec_split(
            self.liquidity_constant as int,
            self.sqrt_lower_bound_price as int,
            self.sqrt_upper_bound_price as int,
            sqrt_price as int,
        )
    }

    /// This position with its reserves and flag derived anew at `sqrt_price`.
    pub open spec fn refreshed(&self, sqrt_price: u64) -> Position {
        Position {
            token0_real_liquidity: self.split_at(sqrt_price).amount0 as u128,
            token1_real_liquidity: self.split_at(sqrt_price).amount1 as u128,
            is_active: self.split_at(sqrt_price).active,
            ..*self
        }
    }

    /// The reserves and the flag are those of the three-region rule at
    /// `sqrt_price`.
    pub open spec fn is_refreshed_at(&self, sqrt_price: u64) -> bool {
        &&& self.token0_real_liquidity as int == self.split_at(sqrt_price).amount0
        &&& self.token1_real_liquidity as int == self.split_at(sqrt_price).amount1
        &&& self.is_active == self.split_at(sqrt_price).active
    }

    /// The outcome of `new`, as a value.
    pub open spec fn spec_new(
        side0: Option<u128>,
        side1: Option<u128>,
        lower_bound_price: u64,
        upper_bound_price: u64,
        sqrt_price: u64,
    ) -> Result<Position, Error> {
        let lower = spec_sqrt_price(lower_bound_price as int);
        let upper = spec_sqrt_price(upper_bound_price as int);
        let l = spec_liquidity(side0, side1, lower, upper, sqrt_price as int);
        if !(0 < lower < upper) {
            Err(Error::BadPriceRange)
        } else if l > u128::MAX || !(Position {
            liquidity_constant: l as u128,
            token0_real_liquidity: 0,
            token1_real_liquidity: 0,
            sqrt_lower_bound_price: lower as u64,
            sqrt_upper_bound_price: upper as u64,
            is_active: false,
        }).fits_at(sqrt_price) {
            Err(Error::AmountOutOfRange)
        } else {
            Ok(
                (Position {
                    liquidity_constant: l as u128,
                    token0_real_liquidity: 0,
                    token1_real_liquidity: 0,
                    sqrt_lower_bound_price: lower as u64,
                    sqrt_upper_bound_price: upper as u64,
                    is_active: false,
                }).refreshed(sqrt_price),
            )
        }
    }

    /// Builds a position over the price range from `lower_bound_price` to
    /// `upper_bound_price` out of the sides that are known, at the pool's
    /// current square-root price, and derives its reserves.
    ///
    /// It is refused only in two cases. The bounds give no range: the
    /// square-root prices are held to six decimal places, so two prices
    /// whose truncated roots are equal, or a lower price whose root is zero,
    /// bound nothing. Or the position cannot be held: the liquidity
    /// constant that the sides give, or a reserve that it gives at the
    /// current price, passes 128 bits.
    pub fn new(
        token0_liquidity: Option<u128>,
        token1_liquidity: Option<u128>,
        lower_bound_price: u64,
        upper_bound_price: u64,
        sqrt_price: u64,
    ) -> (r: Result<Position, Error>)
        ensures
            r == Self::spec_new(
                token0_liquidity,
                token1_liquidity,
                lower_bound_price,
                upper_bound_price,
                sqrt_price,
            ),
            r is Ok ==> r.unwrap().wf() && r.unwrap().is_refreshed_at(sqrt_price),
    {
        let lower: u64 = sqrt_price_of(lower_bound_price);
        let upper: u64 = sqrt_price_of(upper_bound_price);
        if lower == 0 || lower >= upper {
            return Err(Error::BadPriceRange);
        }
        let at: u64 = if sqrt_price <= lower {
            lower
        } else if sqrt_price >= upper {
            upper
        } else {
            sqrt_price
        };
        let from0: bool = token0_liquidity.is_some() && at < upper;
        let from1: bool = token1_liquidity.is_some() && at > lower;
        let l0: Option<u128> = match token0_liquidity {
            Some(x) => if at < upper {
                liquidity0(x, at, upper)
            } else {
                None
            },
            None => None,
        };
        let l1: Option<u128> = match token1_liquidity {
            Some(y) => if at > lower {
                liquidity1(y, lower, at)
            } else {
                None
            },
            None => None,
        };
        let found: Option<u128> = if from0 && from1 {
            match (l0, l1) {
                (Some(a), Some(b)) => if a <= b { Some(a) } else { Some(b) },
                (Some(a), None) => Some(a),
                (None, Some(b)) => Some(b),
                (None, None) => None,
            }
        } else if from0 {
            l0
        } else if from1 {
            l1
        } else {
            Some(0)
        };
        let l: u128 = match found {
            Some(l) => l,
            None => { return Err(Error::AmountOutOfRange); },
        };
        let mut position = Position {
            liquidity_constant: l,
            token0_real_liquidity: 0,
            token1_real_liquidity: 0,
            sqrt_lower_bound_price: lower,
            sqrt_upper_bound_price: upper,
            is_active: false,
        };
        if !position.fits(sqrt_price) {
            return Err(Error::AmountOutOfRange);
        }
        position.refresh(sqrt_price);
        Ok(position)
    }

    /// The reserves and the flag that the range gives at `sqrt_price`, or
    /// `None` where a reserve passes 128 bits.
    fn split(&self, sqrt_price: u64) -> (r: Option<(u128, u128, bool)>)
        requires
            self.wf(),
        ensures
            r is Some <==> self.fits_at(sqrt_price),
            r is Some ==> r.unwrap().0 as int == self.split_at(sqrt_price).amount0
                && r.unwrap().1 as int == self.split_at(sqrt_price).amount1 && r.unwrap().2
                == self.split_at(sqrt_price).active,
    {
        let l: u128 = self.liquidity_constant;
        let lower: u64 = self.sqrt_lower_bound_price;
        let upper: u64 = self.sqrt_upper_bound_price;
        if sqrt_price >= upper {
            match amount1(l, lower, upper) {
                Some(y) => Some((0, y, false)),
                None => None,
            }
        } else if sqrt_price <= lower {
            match amount0(l, lower, upper) {
                Some(x) => Some((x, 0, false)),
                None => None,
            }
        } else {
            match (amount0(l, sqrt_price, upper), amount1(l, lower, sqrt_price)) {
                (Some(x), Some(y)) => Some((x, y, true)),
                _ => None,
            }
        }
    }

    /// Whether the position can stand at `sqrt_price`: both reserves that
    /// the range gives there fit 128 bits.
    pub fn fits(&self, sqrt_price: u64) -> (r: bool)
        requires
            self.wf(),
        ensures
            r == self.fits_at(sqrt_price),
    {
        self.split(sqrt_price).is_some()
    }

    /// Derives the reserves and the active flag anew from the liquidity
    /// constant, the bounds and the square-root price. Nothing of the
    /// previous reserves enters, so a second call at the same price changes
    /// nothing. The position must be able to stand at the price: `fits`
    /// tells.
    pub fn refresh(&mut self, sqrt_price: u64)
        requires
            old(self).wf(),
            old(self).fits_at(sqrt_price),
        ensures
            *final(self) == old(self).refreshed(sqrt_price),
            final(self).wf(),
            final(self).is_refreshed_at(sqrt_price),
    {
        match self.split(sqrt_price) {
            Some((x, y, active)) => {
                self.token0_real_liquidity = x;
                self.token1_real_liquidity = y;
                self.is_active = active;
            },
            None => {},
        }
    }
}

/// Refreshing twice at one price gives what refreshing once gives.
pub proof fn lemma_refresh_idempotent(p: Position, sqrt_price: u64)
    ensures
        p.refreshed(sqrt_price).refreshed(sqrt_price) == p.refreshed(sqrt_price),
{
}

/// The three regions of a refreshed position that can stand at the price. Strictly inside the range the
/// position is active and each reserve is the truncated amount of its side,
/// positive exactly where that amount reaches one unit. At or below the
/// lower bound it is inactive and holds none of the second asset; at or
/// above the upper bound it is inactive and holds none of the first.
pub proof fn lemma_refresh_regions(p: Position, sqrt_price: u64)
    requires
        p.wf(),
        p.fits_at(sqrt_price),
    ensures
        ({
            let q = p.refreshed(sqrt_price);
            let l = p.liquidity_constant as int;
            let lower = p.sqrt_lower_bound_price as int;
            let upper = p.sqrt_upper_bound_price as int;
            let s = sqrt_price as int;
            &&& q.is_active <==> lower < s < upper
            &&& s >= upper ==> q.token0_real_liquidity == 0 && (q.token1_real_liquidity > 0 <==> l
                * (upper - lower) >= SCALE)
            &&& s <= lower ==> q.token1_real_liquidity == 0 && (q.token0_real_liquidity > 0 <==> l
                * (upper - lower) * SCALE >= upper * lower)
            &&& lower < s < upper ==> (q.token0_real_liquidity > 0 <==> l * (upper - s)
                * SCALE >= upper * s) && (q.token1_real_liquidity > 0 <==> l * (s
                - lower) >= SCALE)
        }),
{
    let l = p.liquidity_constant as int;
    let lower = p.sqrt_lower_bound_price as int;
    let upper = p.sqrt_upper_bound_price as int;
    let s = sqrt_price as int;
    lemma_amounts_fit(l, lower, lower, upper);
    lemma_amounts_fit(l, lower, upper, upper);
    lemma_positive_quotient(l * (upper - lower), SCALE as int);
    assert(upper * lower > 0) by (nonlinear_arith)
        requires 0 < lower < upper;
    lemma_positive_quotient(l * (upper - lower) * SCALE, upper * lower);
    if lower < s < upper {
        lemma_amounts_fit(l, lower, s, upper);
        assert(upper * s > 0) by (nonlinear_arith)
            requires 0 < s < upper;
        lemma_positive_quotient(l * (upper - s) * SCALE, upper * s);
        lemma_positive_quotient(l * (s - lower), SCALE as int);
    }
}

/// A truncated quotient is positive exactly where the dividend reaches the
/// divisor.
pub proof fn lemma_positive_quotient(n: int, d: int)
    requires
        d > 0,
    ensures
        n / d > 0 <==> n >= d,
{
    assert(n / d > 0 <==> n >= d) by (nonlinear_arith)
        requires d > 0;
}

/// Within its range a position holds of neither asset more than at the
/// far edge: of the first no more than at the lower bound, of the second no
/// more than at the upper bound.
pub proof fn lemma_amounts_fit(l: int, lower: int, s: int, upper: int)
    requires
        0 <= l,
        0 < lower <= s <= upper,
    ensures
        0 <= spec_amount0(l, s, upper) <= spec_amount0(l, lower, upper),
        0 <= spec_amount1(l, lower, s) <= spec_amount1(l, lower, upper),
{
    let scale = SCALE as int;
    let n1 = l * (upper - s) * scale;
    let n2 = l * (upper - lower) * scale;
    let d1 = upper * s;
    let d2 = upper * lower;
    assert(0 <= n1 <= n2) by (nonlinear_arith)
        requires
            0 <= l,
            lower <= s <= upper,
            scale == 1_000_000,
            n1 == l * (upper - s) * scale,
            n2 == l * (upper - lower) * scale,
    ;
    assert(0 < d2 <= d1) by (nonlinear_arith)
        requires 0 < lower <= s <= upper, d1 == upper * s, d2 == upper * lower;
    lemma_div_is_ordered_by_denominator(n1, d2, d1);
    lemma_div_is_ordered(n1, n2, d2);
    lemma_div_is_ordered(0, n1, d1);
    let m1 = l * (s - lower);
    let m2 = l * (upper - lower);
    assert(0 <= m1 <= m2) by (nonlinear_arith)
        requires 0 <= l, lower <= s <= upper, m1 == l * (s - lower), m2 == l * (upper - lower);
    lemma_div_is_ordered(m1, m2, scale);
    lemma_div_is_ordered(0, m1, scale);
}

} // verus!
