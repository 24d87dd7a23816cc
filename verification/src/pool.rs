use vstd::prelude::*;
use crate::errors::Error;
use crate::math::{SCALE, int_sqrt, isqrt, spec_sqrt_price, spec_price_of, sqrt_price_of, price_of};
use crate::position::Position;
use crate::wide::mul_div;

verus! {

/// The fee divisor of a new pool: one part in a thousand of every input
/// stays with the pool.
pub const DEFAULT_FEE_DIVISOR: u128 = 1000;

/// The market of one asset pair: its current square-root price and the
/// positions that supply its liquidity.
///
/// Amounts and reserves have 128 bits, and the curve is computed exactly
/// over the full width of its products. A trade is out of range only where
/// an active reserve, or the reserve that the input would leave, passes 128
/// bits.
#[derive(Clone, Debug)]
pub struct Pool {
    pub token0: String,
    pub token1: String,
    pub sqrt_price: u64,
    pub positions: Vec<Position>,
    /// The pool keeps `amount / fee_divisor` of every input; zero means no
    /// fee.
    pub fee_divisor: u128,
}

/// What the active positions of `s` hold of the first asset.
pub open spec fn active_reserve0(s: Seq<Position>) -> int
    decreases s.len(),
{
    if s.len() == 0 {
        0
    } else {
        active_reserve0(s.drop_last()) + if s.last().is_active {
            s.last().token0_real_liquidity as int
        } else {
            0
        }
    }
}

/// What the active positions of `s` hold of the second asset.
pub open spec fn active_reserve1(s: Seq<Position>) -> int
    decreases s.len(),
{
    if s.len() == 0 {
        0
    } else {
        active_reserve1(s.drop_last()) + if s.last().is_active {
            s.last().token1_real_liquidity as int
        } else {
            0
        }
    }
}

/// Every position of `s` can stand at `sqrt_price`.
pub open spec fn all_fit(s: Seq<Position>, sqrt_price: u64) -> bool {
    forall|i: int| 0 <= i < s.len() ==> (#[trigger] s[i]).fits_at(sqrt_price)
}

/// The part of an input that the pool keeps.
pub open spec fn spec_fee(amount_in: int, fee_divisor: int) -> int {
    if fee_divisor > 0 {
        amount_in / fee_divisor
    } else {
        0
    }
}

/// The output of the constant-product curve over the active reserves for
/// an input net of fee, truncated.
pub open spec fn spec_output(reserve_in: int, reserve_out: int, net_in: int) -> int {
    reserve_out * net_in / (reserve_in + net_in)
}

/// The square-root price at which the second reserve stands to the first
/// as `reserve1` to `reserve0`. Where the ratio passes 128 bits its root
/// passes 64, and the price is the largest that a pool holds: it lies above
/// every range.
pub open spec fn spec_ratio_sqrt_price(reserve0: int, reserve1: int) -> int {
    let ratio = reserve1 * (SCALE as int * SCALE as int) / reserve0;
    if ratio > u128::MAX {
        u64::MAX as int
    } else {
        int_sqrt(ratio)
    }
}

impl Pool {
    /// Every position has a valid range and holds the reserves that the
    /// three-region rule gives at the pool's price.
    pub open spec fn wf(&self) -> bool {
        forall|i: int|
            0 <= i < self.positions@.len() ==> (#[trigger] self.positions@[i]).wf()
                && self.positions@[i].is_refreshed_at(self.sqrt_price)
    }

    /// The active reserve of the asset that comes in.
    pub open spec fn reserve_in(&self, token_in: Seq<char>) -> int {
        if token_in == self.token0@ {
            active_reserve0(self.positions@)
        } else {
            active_reserve1(self.positions@)
        }
    }

    /// The active reserve of the asset that goes out.
    pub open spec fn reserve_out(&self, token_in: Seq<char>) -> int {
        if token_in == self.token0@ {
            active_reserve1(self.positions@)
        } else {
            active_reserve0(self.positions@)
        }
    }

    /// The pool has no active liquidity: its active positions hold nothing
    /// of one of the two assets.
    pub open spec fn no_active_liquidity(&self) -> bool {
        active_reserve0(self.positions@) == 0 || active_reserve1(self.positions@) == 0
    }

    /// Why the pool cannot trade `amount_in` of `token_in`, if it cannot.
    /// A pool without active liquidity trades nothing, whatever is asked of
    /// it. Otherwise the asset must be one of the pair, and both active
    /// reserves and the reserve that the input would leave must fit 128
    /// bits.
    pub open spec fn trade_refused(&self, token_in: Seq<char>, amount_in: u128) -> Option<Error> {
        if self.no_active_liquidity() {
            Some(Error::NoActiveLiquidity)
        } else if token_in != self.token0@ && token_in != self.token1@ {
            Some(Error::AssetMismatch)
        } else if active_reserve0(self.positions@) > u128::MAX || active_reserve1(
            self.positions@,
        ) > u128::MAX || self.reserve_in(token_in) + amount_in > u128::MAX {
            Some(Error::AmountOutOfRange)
        } else {
            None
        }
    }

    /// The outcome of a quote, as a value.
    pub open spec fn spec_get_return(&self, token_in: Seq<char>, amount_in: u128) -> Result<
        u128,
        Error,
    > {
        match self.trade_refused(token_in, amount_in) {
            Some(e) => Err(e),
            None => Ok(
                spec_output(
                    self.reserve_in(token_in),
                    self.reserve_out(token_in),
                    amount_in - spec_fee(amount_in as int, self.fee_divisor as int),
                ) as u128,
            ),
        }
    }

    /// The square-root price that a trade leaves: that of the ratio of the
    /// active reserves after the input has come in and the output gone out.
    pub open spec fn price_after(&self, token_in: Seq<char>, amount_in: u128, amount_out: u128)
        -> u64 {
        if token_in == self.token0@ {
            spec_ratio_sqrt_price(
                active_reserve0(self.positions@) + amount_in,
                active_reserve1(self.positions@) - amount_out,
            ) as u64
        } else {
            spec_ratio_sqrt_price(
                active_reserve0(self.positions@) - amount_out,
                active_reserve1(self.positions@) + amount_in,
            ) as u64
        }
    }

    /// The outcome of a swap, as a value: the new square-root price, or the
    /// reason why nothing is applied. Beyond what refuses a quote, a swap
    /// is refused where the output is not below the reserve it is paid
    /// from, and where a position could not hold its reserves at the new
    /// price.
    pub open spec fn spec_swap(&self, token_in: Seq<char>, amount_in: u128, amount_out: u128)
        -> Result<u64, Error> {
        match self.trade_refused(token_in, amount_in) {
            Some(e) => Err(e),
            None => if amount_out >= self.reserve_out(token_in) {
                Err(Error::NoActiveLiquidity)
            } else if !all_fit(
                self.positions@,
                self.price_after(token_in, amount_in, amount_out),
            ) {
                Err(Error::AmountOutOfRange)
            } else {
                Ok(self.price_after(token_in, amount_in, amount_out))
            },
        }
    }

    /// `self` is `pre` at the square-root price `sqrt_price`, with every
    /// position derived anew at that price.
    pub open spec fn swapped_from(&self, pre: &Pool, sqrt_price: u64) -> bool {
        &&& self.sqrt_price == sqrt_price
        &&& self.token0 == pre.token0
        &&& self.token1 == pre.token1
        &&& self.fee_divisor == pre.fee_divisor
        &&& self.positions@.len() == pre.positions@.len()
        &&& forall|i: int|
            0 <= i < self.positions@.len() ==> #[trigger] self.positions@[i]
                == pre.positions@[i].refreshed(sqrt_price)
    }

    /// A pool of two assets at an initial price, without positions.
    pub fn new(token0: String, token1: String, initial_price: u64) -> (r: Pool)
        ensures
            r.token0 == token0,
            r.token1 == token1,
            r.sqrt_price as int == spec_sqrt_price(initial_price as int),
            r.positions@.len() == 0,
            r.fee_divisor == DEFAULT_FEE_DIVISOR,
            r.wf(),
    {
        Pool {
            token0,
            token1,
            sqrt_price: sqrt_price_of(initial_price),
            positions: Vec::new(),
            fee_divisor: DEFAULT_FEE_DIVISOR,
        }
    }

    pub fn get_sqrt_price(&self) -> (r: u64)
        ensures
            r == self.sqrt_price,
    {
        self.sqrt_price
    }

    /// The current price: the square of the square-root price.
    pub fn get_price(&self) -> (r: u128)
        ensures
            r as int == spec_price_of(self.sqrt_price as int),
    {
        price_of(self.sqrt_price)
    }

    /// Each active reserve, or `None` in its place where it passes 128
    /// bits.
    fn active_reserves(&self) -> (r: (Option<u128>, Option<u128>))
        ensures
            match r.0 {
                Some(a) => a == active_reserve0(self.positions@),
                None => active_reserve0(self.positions@) > u128::MAX,
            },
            match r.1 {
                Some(b) => b == active_reserve1(self.positions@),
                None => active_reserve1(self.positions@) > u128::MAX,
            },
    {
        let mut sum0: Option<u128> = Some(0);
        let mut sum1: Option<u128> = Some(0);
        let mut i: usize = 0;
        let n: usize = self.positions.len();
        assert(self.positions@.take(0) =~= Seq::<Position>::empty());
        while i < n
            invariant
                i <= n,
                n == self.positions@.len(),
                match sum0 {
                    Some(a) => a == active_reserve0(self.positions@.take(i as int)),
                    None => active_reserve0(self.positions@.take(i as int)) > u128::MAX,
                },
                match sum1 {
                    Some(b) => b == active_reserve1(self.positions@.take(i as int)),
                    None => active_reserve1(self.positions@.take(i as int)) > u128::MAX,
                },
            decreases n - i,
        {
            let p: Position = self.positions[i];
            proof {
                let next = self.positions@.take(i + 1);
                assert(next.drop_last() =~= self.positions@.take(i as int));
                assert(next.last() == p);
            }
            if p.is_active {
                sum0 = Self::grown(sum0, p.token0_real_liquidity);
                sum1 = Self::grown(sum1, p.token1_real_liquidity);
            }
            i += 1;
        }
        assert(self.positions@.take(n as int) =~= self.positions@);
        (sum0, sum1)
    }

    /// A running sum with one more amount, or `None` once it passes 128
    /// bits.
    fn grown(sum: Option<u128>, amount: u128) -> (r: Option<u128>)
        ensures
            match (sum, r) {
                (Some(a), Some(b)) => b == a + amount,
                (Some(a), None) => a + amount > u128::MAX,
                (None, _) => r is None,
            },
    {
        match sum {
            Some(a) => a.checked_add(amount),
            None => None,
        }
    }

    fn check_trade(&self, token_in: &String, amount_in: u128) -> (r: Result<(u128, u128), Error>)
        ensures
            match r {
                Ok((a, b)) => self.trade_refused(token_in@, amount_in) is None && a
                    == active_reserve0(self.positions@) && b == active_reserve1(self.positions@),
                Err(e) => self.trade_refused(token_in@, amount_in) == Some(e),
            },
    {
        let (reserve0, reserve1) = self.active_reserves();
        let empty0: bool = match reserve0 {
            Some(a) => a == 0,
            None => false,
        };
        let empty1: bool = match reserve1 {
            Some(b) => b == 0,
            None => false,
        };
        if empty0 || empty1 {
            return Err(Error::NoActiveLiquidity);
        }
        if !(*token_in == self.token0) && !(*token_in == self.token1) {
            return Err(Error::AssetMismatch);
        }
        match (reserve0, reserve1) {
            (Some(a), Some(b)) => {
                let reserve_in: u128 = if *token_in == self.token0 { a } else { b };
                if amount_in > u128::MAX - reserve_in {
                    Err(Error::AmountOutOfRange)
                } else {
                    Ok((a, b))
                }
            },
            _ => Err(Error::AmountOutOfRange),
        }
    }

    /// Quotes what `amount_in` of `token_in` buys of the other asset along
    /// the curve of the active reserves, net of fee. The pool is not
    /// changed, and the result depends on nothing but the pool and the
    /// arguments.
    pub fn get_return(&self, token_in: &String, amount_in: u128) -> (r: Result<u128, Error>)
        ensures
            r == self.spec_get_return(token_in@, amount_in),
    {
        let (a, b) = match self.check_trade(token_in, amount_in) {
            Err(e) => { return Err(e); },
            Ok(pair) => pair,
        };
        let fee: u128 = if self.fee_divisor > 0 {
            amount_in / self.fee_divisor
        } else {
            0
        };
        let net: u128 = amount_in - fee;
        let (reserve_in, reserve_out) = if *token_in == self.token0 {
            (a, b)
        } else {
            (b, a)
        };
        proof {
            lemma_output_below_reserve(reserve_in as int, reserve_out as int, net as int);
        }
        match mul_div(reserve_out, net, reserve_in + net) {
            Some(out) => Ok(out),
            None => Ok(0),
        }
    }

    /// What a swap would do, without doing it: the new square-root price,
    /// or the reason why the swap would be refused.
    pub fn swap_outcome(&self, token_in: &String, amount_in: u128, amount_out: u128) -> (r: Result<
        u64,
        Error,
    >)
        requires
            self.wf(),
        ensures
            r == self.spec_swap(token_in@, amount_in, amount_out),
    {
        let (a, b) = match self.check_trade(token_in, amount_in) {
            Err(e) => { return Err(e); },
            Ok(pair) => pair,
        };
        let zero_for_one: bool = *token_in == self.token0;
        let reserve_out: u128 = if zero_for_one { b } else { a };
        if amount_out >= reserve_out {
            return Err(Error::NoActiveLiquidity);
        }
        let (new0, new1): (u128, u128) = if zero_for_one {
            (a + amount_in, b - amount_out)
        } else {
            (a - amount_out, b + amount_in)
        };
        let unit: u128 = 1_000_000_000_000;
        assert(unit == SCALE as int * SCALE as int);
        let sqrt_price: u64 = match mul_div(new1, unit, new0) {
            Some(ratio) => isqrt(ratio),
            None => u64::MAX,
        };
        let n: usize = self.positions.len();
        let mut i: usize = 0;
        while i < n
            invariant
                i <= n,
                n == self.positions@.len(),
                self.wf(),
                self.trade_refused(token_in@, amount_in) is None,
                amount_out < self.reserve_out(token_in@),
                sqrt_price == self.price_after(token_in@, amount_in, amount_out),
                forall|k: int| 0 <= k < i ==> (#[trigger] self.positions@[k]).fits_at(sqrt_price),
            decreases n - i,
        {
            if !self.positions[i].fits(sqrt_price) {
                assert(!self.positions@[i as int].fits_at(sqrt_price));
                return Err(Error::AmountOutOfRange);
            }
            i += 1;
        }
        Ok(sqrt_price)
    }

    /// Applies a trade of `amount_in` of `token_in` for `amount_out` of the
    /// other asset to the active reserves, takes the new square-root price
    /// from their ratio, and derives every position anew at that price.
    /// Where the trade is refused nothing changes.
    pub fn swap(&mut self, token_in: &String, amount_in: u128, amount_out: u128) -> (r: Result<
        (),
        Error,
    >)
        requires
            old(self).wf(),
        ensures
            final(self).wf(),
            r is Err <==> old(self).spec_swap(token_in@, amount_in, amount_out) is Err,
            r is Err ==> r.unwrap_err() == old(self).spec_swap(
                token_in@,
                amount_in,
                amount_out,
            ).unwrap_err() && *final(self) == *old(self),
            r is Ok ==> final(self).swapped_from(
                old(self),
                old(self).spec_swap(token_in@, amount_in, amount_out).unwrap(),
            ),
    {
        let sqrt_price: u64 = match self.swap_outcome(token_in, amount_in, amount_out) {
            Err(e) => { return Err(e); },
            Ok(price) => price,
        };
        self.sqrt_price = sqrt_price;
        let n: usize = self.positions.len();
        let mut i: usize = 0;
        while i < n
            invariant
                i <= n,
                n == self.positions@.len(),
                n == old(self).positions@.len(),
                old(self).wf(),
                self.sqrt_price == sqrt_price,
                self.token0 == old(self).token0,
                self.token1 == old(self).token1,
                self.fee_divisor == old(self).fee_divisor,
                forall|k: int|
                    0 <= k < i ==> #[trigger] self.positions@[k] == old(self).positions@[k].refreshed(
                        sqrt_price,
                    ),
                forall|k: int| i <= k < n ==> #[trigger] self.positions@[k] == old(self).positions@[k],
                all_fit(old(self).positions@, sqrt_price),
                forall|k: int|
                    0 <= k < i ==> (#[trigger] self.positions@[k]).wf()
                        && self.positions@[k].is_refreshed_at(sqrt_price),
            decreases n - i,
        {
            let mut p: Position = self.positions[i];
            p.refresh(sqrt_price);
            self.positions[i] = p;
            i += 1;
        }
        Ok(())
    }

    /// Appends a position, with its reserves derived at the pool's price.
    /// No side is matched here: both sides are settled before the call.
    pub fn open_position(&mut self, position: Position)
        requires
            old(self).wf(),
            position.wf(),
            position.fits_at(old(self).sqrt_price),
        ensures
            final(self).wf(),
            final(self).positions@ == old(self).positions@.push(
                position.refreshed(old(self).sqrt_price),
            ),
            final(self).sqrt_price == old(self).sqrt_price,
            final(self).token0 == old(self).token0,
            final(self).token1 == old(self).token1,
            final(self).fee_divisor == old(self).fee_divisor,
    {
        let mut p: Position = position;
        p.refresh(self.sqrt_price);
        self.positions.push(p);
    }
}

/// A quote is a function of the pool's assets, positions and fee and of the
/// input alone: two pools that agree in these quote the same for the same
/// input, whatever else differs between them.
pub proof fn lemma_quote_is_a_function(a: Pool, b: Pool, token_in: Seq<char>, amount_in: u128)
    requires
        a.token0@ == b.token0@,
        a.token1@ == b.token1@,
        a.positions@ == b.positions@,
        a.fee_divisor == b.fee_divisor,
    ensures
        a.spec_get_return(token_in, amount_in) == b.spec_get_return(token_in, amount_in),
{
}

/// The curve pays out less than the reserve it pays from.
pub proof fn lemma_output_below_reserve(reserve_in: int, reserve_out: int, net_in: int)
    requires
        reserve_in >= 1,
        reserve_out >= 1,
        net_in >= 0,
    ensures
        0 <= spec_output(reserve_in, reserve_out, net_in) < reserve_out,
{
    assert(0 <= reserve_out * net_in / (reserve_in + net_in) < reserve_out) by (nonlinear_arith)
        requires reserve_in >= 1, reserve_out >= 1, net_in >= 0;
}

/// A quote can be applied: where the pool quotes an output for an input,
/// that output is below the reserve it is paid from, and a swap of the input
/// for it is refused only where a position could not hold its reserves at
/// the new price.
pub proof fn lemma_quote_can_be_swapped(pool: Pool, token_in: Seq<char>, amount_in: u128)
    requires
        pool.spec_get_return(token_in, amount_in) is Ok,
    ensures
        pool.spec_get_return(token_in, amount_in).unwrap() < pool.reserve_out(token_in),
        pool.spec_swap(token_in, amount_in, pool.spec_get_return(token_in, amount_in).unwrap())
            is Ok || pool.spec_swap(
            token_in,
            amount_in,
            pool.spec_get_return(token_in, amount_in).unwrap(),
        ) == Err::<u64, Error>(Error::AmountOutOfRange),
{
    let x = pool.reserve_in(token_in);
    let y = pool.reserve_out(token_in);
    let net = amount_in - spec_fee(amount_in as int, pool.fee_divisor as int);
    let d = pool.fee_divisor as int;
    let a = amount_in as int;
    lemma_reserves_nonnegative(pool.positions@);
    if d > 0 {
        assert(0 <= a / d <= a) by (nonlinear_arith)
            requires a >= 0, d > 0;
    }
    lemma_output_below_reserve(x, y, net);
}

proof fn lemma_reserves_nonnegative(s: Seq<Position>)
    ensures
        0 <= active_reserve0(s),
        0 <= active_reserve1(s),
    decreases s.len(),
{
    if s.len() > 0 {
        lemma_reserves_nonnegative(s.drop_last());
    }
}

} // verus!
