use vstd::prelude::*;
use std::collections::HashMap;
use crate::errors::Error;
use crate::balance::{AccountsInfo, PayoutRequest};
use crate::pool::Pool;
use crate::position::Position;
use crate::action::{OpenPositionAction, SwapLeg};

verus! {

broadcast use vstd::std_specs::hash::group_hash_axioms;

/// The first half of a two-phase opening: one side is known, the other is
/// still to come.
#[derive(Clone, Debug)]
pub struct OpenPositionRequest {
    pub owner_id: String,
    pub pool_id: usize,
    pub token0_liquidity: Option<u128>,
    pub token1_liquidity: Option<u128>,
    pub lower_bound_price: u64,
    pub upper_bound_price: u64,
}

/// Where a request identifier stands. An identifier that was never used has
/// no state.
#[derive(Clone, Debug)]
pub enum RequestState {
    /// One side is known; the request waits for the other.
    Pending(OpenPositionRequest),
    /// The position was opened. The identifier is spent.
    Activated,
}

/// The exchange: its owner, its pools in the order of their creation, the
/// ledger, and the requests of the two-phase opening by identifier.
pub struct Contract {
    pub owner_id: String,
    pub pools: Vec<Pool>,
    pub accounts: AccountsInfo,
    pub open_position_requests: HashMap<u64, RequestState>,
}

/// The second call supplies exactly the side that the request lacks.
pub open spec fn fills_missing_side(request: OpenPositionRequest, action: OpenPositionAction)
    -> bool {
    if request.token0_liquidity is None {
        action.token0_liquidity is Some && action.token1_liquidity is None
    } else {
        action.token1_liquidity is Some && action.token0_liquidity is None
    }
}

/// The second call disagrees with the request in owner, pool or bounds.
pub open spec fn mismatches(
    request: OpenPositionRequest,
    caller: Seq<char>,
    action: OpenPositionAction,
) -> bool {
    request.owner_id@ != caller || request.pool_id != action.pool_id || request.lower_bound_price
        != action.lower_bound_price || request.upper_bound_price != action.upper_bound_price
}

impl Contract {
    /// The ledger and every pool keep their invariants.
    pub open spec fn wf(&self) -> bool {
        &&& self.accounts.wf()
        &&& forall|i: int| 0 <= i < self.pools@.len() ==> (#[trigger] self.pools@[i]).wf()
    }

    /// Every pool of `self` but the one at `pool_id` is that of `pre`.
    pub open spec fn other_pools_kept(&self, pre: &Contract, pool_id: usize) -> bool {
        &&& self.pools@.len() == pre.pools@.len()
        &&& forall|i: int|
            0 <= i < self.pools@.len() && i != pool_id ==> #[trigger] self.pools@[i]
                == pre.pools@[i]
    }

    /// The outcome of a swap by `caller`, as a value: the amount paid out,
    /// or the reason why nothing is applied. The tests come in this order:
    /// the pool exists; the caller holds the input; the pool has active
    /// liquidity; the two assets are the pool's pair; the curve can be
    /// computed; the caller's balance can hold the output; every position
    /// can hold its reserves at the new price.
    pub open spec fn spec_swap(
        &self,
        caller: Seq<char>,
        pool_id: usize,
        token_in: Seq<char>,
        amount_in: u128,
        token_out: Seq<char>,
    ) -> Result<u128, Error> {
        if pool_id >= self.pools@.len() {
            Err(Error::BadPoolId)
        } else {
            let pool = self.pools@[pool_id as int];
            if amount_in > self.accounts.balance_of(caller, token_in) {
                Err(Error::InsufficientBalance)
            } else if pool.no_active_liquidity() {
                Err(Error::NoActiveLiquidity)
            } else if !(token_in == pool.token0@ && token_out == pool.token1@) && !(token_in
                == pool.token1@ && token_out == pool.token0@) {
                Err(Error::AssetMismatch)
            } else {
                match pool.spec_get_return(token_in, amount_in) {
                    Err(e) => Err(e),
                    Ok(out) => if self.accounts.balance_of(caller, token_out) - (if token_in
                        == token_out {
                        amount_in as int
                    } else {
                        0
                    }) + out > u128::MAX {
                        Err(Error::AmountOutOfRange)
                    } else {
                        match pool.spec_swap(token_in, amount_in, out) {
                            Err(e) => Err(e),
                            Ok(_) => Ok(out),
                        }
                    },
                }
            }
        }
    }

    /// `post` and `r` are what a swap by `caller` makes of `pre`. A refused
    /// swap changes nothing. An applied one takes the input from the
    /// caller's balance, pays the quoted output into it, and moves the pool.
    pub open spec fn swap_post(
        pre: &Contract,
        post: &Contract,
        caller: Seq<char>,
        pool_id: usize,
        token_in: Seq<char>,
        amount_in: u128,
        token_out: Seq<char>,
        r: Result<u128, Error>,
    ) -> bool {
        &&& r == pre.spec_swap(caller, pool_id, token_in, amount_in, token_out)
        &&& r is Err ==> *post == *pre
        &&& r is Ok ==> {
            &&& post.owner_id == pre.owner_id
            &&& post.open_position_requests == pre.open_position_requests
            &&& post.accounts.moved(
                &pre.accounts,
                caller,
                token_in,
                -(amount_in as int),
                token_out,
                r.unwrap() as int,
            )
            &&& post.other_pools_kept(pre, pool_id)
            &&& post.pools@[pool_id as int].swapped_from(
                &pre.pools@[pool_id as int],
                pre.pools@[pool_id as int].spec_swap(token_in, amount_in, r.unwrap()).unwrap(),
            )
        }
    }

    /// The outcome of opening a position for `caller`, as a value: the
    /// position, or the reason why nothing is applied.
    pub open spec fn spec_open_position(
        &self,
        caller: Seq<char>,
        pool_id: usize,
        token0_liquidity: Option<u128>,
        token1_liquidity: Option<u128>,
        lower_bound_price: u64,
        upper_bound_price: u64,
    ) -> Result<Position, Error> {
        if pool_id >= self.pools@.len() {
            Err(Error::BadPoolId)
        } else {
            let pool = self.pools@[pool_id as int];
            match Position::spec_new(
                token0_liquidity,
                token1_liquidity,
                lower_bound_price,
                upper_bound_price,
                pool.sqrt_price,
            ) {
                Err(e) => Err(e),
                Ok(p) => if p.token0_real_liquidity > self.accounts.balance_of(
                    caller,
                    pool.token0@,
                ) || p.token1_real_liquidity > self.accounts.balance_of(caller, pool.token1@) - (
                if pool.token0@ == pool.token1@ {
                    p.token0_real_liquidity as int
                } else {
                    0
                }) {
                    Err(Error::InsufficientBalance)
                } else {
                    Ok(p)
                },
            }
        }
    }

    /// `post` is `pre` with `position` appended to the pool at `pool_id` and
    /// its reserves taken from the balances of `caller`. The requests are
    /// not spoken of.
    pub open spec fn position_opened(
        pre: &Contract,
        post: &Contract,
        caller: Seq<char>,
        pool_id: usize,
        position: Position,
    ) -> bool {
        let before = pre.pools@[pool_id as int];
        let after = post.pools@[pool_id as int];
        &&& post.owner_id == pre.owner_id
        &&& post.accounts.moved(
            &pre.accounts,
            caller,
            before.token0@,
            -(position.token0_real_liquidity as int),
            before.token1@,
            -(position.token1_real_liquidity as int),
        )
        &&& post.other_pools_kept(pre, pool_id)
        &&& after.positions@ == before.positions@.push(position)
        &&& after.sqrt_price == before.sqrt_price
        &&& after.token0 == before.token0
        &&& after.token1 == before.token1
        &&& after.fee_divisor == before.fee_divisor
    }

    /// An exchange without pools, balances or requests.
    pub fn new(owner_id: String) -> (r: Contract)
        ensures
            r.wf(),
            r.owner_id == owner_id,
            r.pools@.len() == 0,
            forall|a: Seq<char>, t: Seq<char>| r.accounts.balance_of(a, t) == 0,
            r.open_position_requests@ == Map::<u64, RequestState>::empty(),
    {
        Contract {
            owner_id,
            pools: Vec::new(),
            accounts: AccountsInfo::new(),
            open_position_requests: HashMap::new(),
        }
    }

    /// Appends a pool of two assets at an initial price and returns its
    /// index. Only the owner may do so.
    pub fn create_pool(
        &mut self,
        caller: &String,
        token1: String,
        token2: String,
        initial_price: u64,
    ) -> (r: Result<usize, Error>)
        requires
            old(self).wf(),
        ensures
            final(self).wf(),
            r is Err <==> caller@ != old(self).owner_id@,
            r is Err ==> r.unwrap_err() == Error::PermissionDenied && *final(self) == *old(self),
            r is Ok ==> {
                &&& r.unwrap() == old(self).pools@.len()
                &&& final(self).pools@.len() == old(self).pools@.len() + 1
                &&& final(self).pools@.drop_last() == old(self).pools@
                &&& final(self).pools@.last().token0 == token1
                &&& final(self).pools@.last().token1 == token2
                &&& final(self).pools@.last().sqrt_price as int == crate::math::spec_sqrt_price(
                    initial_price as int,
                )
                &&& final(self).pools@.last().positions@.len() == 0
                &&& final(self).pools@.last().fee_divisor == crate::pool::DEFAULT_FEE_DIVISOR
                &&& final(self).owner_id == old(self).owner_id
                &&& final(self).accounts == old(self).accounts
                &&& final(self).open_position_requests == old(self).open_position_requests
            },
    {
        if !(*caller == self.owner_id) {
            return Err(Error::PermissionDenied);
        }
        self.pools.push(Pool::new(token1, token2, initial_price));
        assert(self.pools@.drop_last() =~= old(self).pools@);
        Ok(self.pools.len() - 1)
    }

    /// All pools, in the order of their creation.
    pub fn get_pools(&self) -> (r: &Vec<Pool>)
        ensures
            r == &self.pools,
    {
        &self.pools
    }

    /// The pool at `pool_id`, if there is one.
    pub fn get_pool(&self, pool_id: usize) -> (r: Option<&Pool>)
        ensures
            pool_id >= self.pools@.len() ==> r is None,
            pool_id < self.pools@.len() ==> r == Some(&self.pools@[pool_id as int]),
    {
        if pool_id >= self.pools.len() {
            None
        } else {
            Some(&self.pools[pool_id])
        }
    }

    /// The balance of `account_id` in `token`: zero where none is recorded.
    pub fn get_balance(&self, account_id: &String, token: &String) -> (r: u128)
        requires
            self.wf(),
        ensures
            r == self.accounts.balance_of(account_id@, token@),
    {
        self.accounts.get_balance(account_id, token)
    }

    /// The balances of `account` that are not zero, each asset once with
    /// its amount.
    pub fn get_balance_all_tokens(&self, account: &String) -> (r: Vec<(String, u128)>)
        requires
            self.wf(),
        ensures
            forall|k: int|
                0 <= k < r@.len() ==> (#[trigger] r@[k]).1 > 0 && r@[k].1
                    == self.accounts.balance_of(account@, r@[k].0@),
            forall|t: Seq<char>|
                self.accounts.balance_of(account@, t) > 0 ==> exists|k: int|
                    0 <= k < r@.len() && (#[trigger] r@[k]).0@ == t,
            forall|k: int, m: int|
                0 <= k < m < r@.len() ==> (#[trigger] r@[k]).0@ != (#[trigger] r@[m]).0@,
    {
        self.accounts.get_balance_all_tokens(account)
    }

    /// Gives back what a failed payout had taken from its recipient, as
    /// far as the balance can hold it. Returns whether it was restored.
    pub fn refund(&mut self, payout: &PayoutRequest) -> (r: bool)
        requires
            old(self).wf(),
        ensures
            final(self).wf(),
            r <==> old(self).accounts.balance_of(payout.recipient@, payout.token@) + payout.amount
                <= u128::MAX,
            r ==> final(self).accounts.differs_by(
                &old(self).accounts,
                payout.recipient@,
                payout.token@,
                payout.amount as int,
            ),
            !r ==> *final(self) == *old(self),
            final(self).owner_id == old(self).owner_id,
            final(self).pools == old(self).pools,
            final(self).open_position_requests == old(self).open_position_requests,
    {
        self.accounts.refund(payout)
    }

    /// Takes `amount` of `token` from the caller's balance and hands back
    /// the payout to request.
    pub fn withdraw(&mut self, caller: &String, token: &String, amount: u128) -> (r: Result<
        PayoutRequest,
        Error,
    >)
        requires
            old(self).wf(),
        ensures
            final(self).wf(),
            Self::withdraw_post(old(self), final(self), caller@, token@, amount, r),
    {
        self.accounts.withdraw(caller, token, amount)
    }

    /// `post` and `r` are what a withdrawal by `caller` makes of `pre`.
    pub open spec fn withdraw_post(
        pre: &Contract,
        post: &Contract,
        caller: Seq<char>,
        token: Seq<char>,
        amount: u128,
        r: Result<PayoutRequest, Error>,
    ) -> bool {
        &&& r is Err <==> amount > pre.accounts.balance_of(caller, token)
        &&& r is Err ==> r.unwrap_err() == Error::InsufficientBalance && *post == *pre
        &&& r is Ok ==> {
            &&& r.unwrap().recipient@ == caller
            &&& r.unwrap().token@ == token
            &&& r.unwrap().amount == amount
            &&& post.accounts.differs_by(&pre.accounts, caller, token, -(amount as int))
            &&& post.owner_id == pre.owner_id
            &&& post.pools == pre.pools
            &&& post.open_position_requests == pre.open_position_requests
        }
    }

    /// Quotes a swap in the pool at `pool_id`.
    pub fn get_return(&self, pool_id: usize, token_in: &String, amount_in: u128) -> (r: Result<
        u128,
        Error,
    >)
        ensures
            pool_id >= self.pools@.len() ==> r == Err::<u128, Error>(Error::BadPoolId),
            pool_id < self.pools@.len() ==> r == self.pools@[pool_id as int].spec_get_return(
                token_in@,
                amount_in,
            ),
    {
        if pool_id >= self.pools.len() {
            return Err(Error::BadPoolId);
        }
        self.pools[pool_id].get_return(token_in, amount_in)
    }

    /// The current price of the pool at `pool_id`.
    pub fn get_price(&self, pool_id: usize) -> (r: Result<u128, Error>)
        ensures
            pool_id >= self.pools@.len() ==> r == Err::<u128, Error>(Error::BadPoolId),
            pool_id < self.pools@.len() ==> r is Ok && r.unwrap() as int
                == crate::math::spec_price_of(self.pools@[pool_id as int].sqrt_price as int),
    {
        if pool_id >= self.pools.len() {
            return Err(Error::BadPoolId);
        }
        Ok(self.pools[pool_id].get_price())
    }

    /// Swaps `amount_in` of `token_in` from the caller's balance for the
    /// quoted amount of `token_out`, which is paid into the same balance and
    /// returned.
    pub fn swap(
        &mut self,
        caller: &String,
        pool_id: usize,
        token_in: &String,
        amount_in: u128,
        token_out: &String,
    ) -> (r: Result<u128, Error>)
        requires
            old(self).wf(),
        ensures
            final(self).wf(),
            Self::swap_post(old(self), final(self), caller@, pool_id, token_in@, amount_in, token_out@, r),
    {
        if pool_id >= self.pools.len() {
            return Err(Error::BadPoolId);
        }
        let held_in: u128 = self.accounts.get_balance(caller, token_in);
        if amount_in > held_in {
            return Err(Error::InsufficientBalance);
        }
        let pool = &self.pools[pool_id];
        let quote: Result<u128, Error> = pool.get_return(token_in, amount_in);
        if let Err(Error::NoActiveLiquidity) = quote {
            return Err(Error::NoActiveLiquidity);
        }
        let forward: bool = *token_in == pool.token0 && *token_out == pool.token1;
        let backward: bool = *token_in == pool.token1 && *token_out == pool.token0;
        if !forward && !backward {
            return Err(Error::AssetMismatch);
        }
        let out: u128 = match quote {
            Err(e) => { return Err(e); },
            Ok(v) => v,
        };
        let held_out: u128 = self.accounts.get_balance(caller, token_out);
        let base: u128 = if *token_in == *token_out {
            held_out - amount_in
        } else {
            held_out
        };
        if out > u128::MAX - base {
            return Err(Error::AmountOutOfRange);
        }
        if let Err(e) = self.pools[pool_id].swap_outcome(token_in, amount_in, out) {
            return Err(e);
        }
        match self.pools[pool_id].swap(token_in, amount_in, out) {
            Err(e) => { return Err(e); },
            Ok(()) => {},
        }
        match self.accounts.decrease_balance(caller, token_in, amount_in) {
            Err(e) => { return Err(e); },
            Ok(()) => {},
        }
        self.accounts.increase_balance(caller, token_out, out);
        Ok(out)
    }

    /// Opens a position for the caller in the pool at `pool_id` and takes
    /// its reserves from the caller's balances. Where anything is refused,
    /// nothing changes.
    pub fn open_position(
        &mut self,
        caller: &String,
        pool_id: usize,
        token0_liquidity: Option<u128>,
        token1_liquidity: Option<u128>,
        lower_bound_price: u64,
        upper_bound_price: u64,
    ) -> (r: Result<(), Error>)
        requires
            old(self).wf(),
        ensures
            final(self).wf(),
            Self::open_position_post(
                old(self),
                final(self),
                caller@,
                pool_id,
                token0_liquidity,
                token1_liquidity,
                lower_bound_price,
                upper_bound_price,
                r,
            ),
    {
        if pool_id >= self.pools.len() {
            return Err(Error::BadPoolId);
        }
        let pool = &self.pools[pool_id];
        let position: Position = match Position::new(
            token0_liquidity,
            token1_liquidity,
            lower_bound_price,
            upper_bound_price,
            pool.sqrt_price,
        ) {
            Err(e) => { return Err(e); },
            Ok(p) => p,
        };
        let held0: u128 = self.accounts.get_balance(caller, &pool.token0);
        if position.token0_real_liquidity > held0 {
            return Err(Error::InsufficientBalance);
        }
        let held1: u128 = self.accounts.get_balance(caller, &pool.token1);
        let base: u128 = if pool.token0 == pool.token1 {
            held1 - position.token0_real_liquidity
        } else {
            held1
        };
        if position.token1_real_liquidity > base {
            return Err(Error::InsufficientBalance);
        }
        let token0: String = pool.token0.clone();
        let token1: String = pool.token1.clone();
        match self.accounts.decrease_balance(caller, &token0, position.token0_real_liquidity) {
            Err(e) => { return Err(e); },
            Ok(()) => {},
        }
        match self.accounts.decrease_balance(caller, &token1, position.token1_real_liquidity) {
            Err(e) => { return Err(e); },
            Ok(()) => {},
        }
        self.pools[pool_id].open_position(position);
        Ok(())
    }

    /// `post` and `r` are what opening a position for `caller` makes of
    /// `pre`.
    pub open spec fn open_position_post(
        pre: &Contract,
        post: &Contract,
        caller: Seq<char>,
        pool_id: usize,
        token0_liquidity: Option<u128>,
        token1_liquidity: Option<u128>,
        lower_bound_price: u64,
        upper_bound_price: u64,
        r: Result<(), Error>,
    ) -> bool {
        let outcome = pre.spec_open_position(
            caller,
            pool_id,
            token0_liquidity,
            token1_liquidity,
            lower_bound_price,
            upper_bound_price,
        );
        &&& r is Err <==> outcome is Err
        &&& r is Err ==> r.unwrap_err() == outcome.unwrap_err() && *post == *pre
        &&& r is Ok ==> Self::position_opened(pre, post, caller, pool_id, outcome.unwrap())
            && post.open_position_requests == pre.open_position_requests
    }

    /// Closing a position is not offered.
    pub fn close_position(&mut self) -> (r: Result<(), Error>)
        ensures
            r == Err::<(), Error>(Error::Unsupported),
            *final(self) == *old(self),
    {
        Err(Error::Unsupported)
    }

    /// Pending requests do not expire: withdrawing one is not offered.
    pub fn expire_request(&mut self, request_id: u64) -> (r: Result<(), Error>)
        ensures
            r == Err::<(), Error>(Error::Unsupported),
            *final(self) == *old(self),
    {
        Err(Error::Unsupported)
    }

    /// The asset that goes into leg `j` of a chain: the chain's input for
    /// the first leg, the output of the leg before for every other.
    pub open spec fn hop_token(token_in: Seq<char>, legs: Seq<SwapLeg>, j: int) -> Seq<char> {
        if j == 0 {
            token_in
        } else {
            legs[j - 1].token_out@
        }
    }

    /// `trace` holds the exchange before and after each of the first `n`
    /// legs, and `amounts` what went into each and came out of the last:
    /// every leg is an applied swap whose output is the input of the next.
    pub open spec fn hops_applied(
        trace: Seq<Contract>,
        amounts: Seq<u128>,
        caller: Seq<char>,
        token_in: Seq<char>,
        legs: Seq<SwapLeg>,
        n: int,
    ) -> bool {
        &&& trace.len() == n + 1
        &&& amounts.len() == n + 1
        &&& forall|j: int|
            0 <= j < n ==> Self::swap_post(
                &trace[j],
                &trace[j + 1],
                caller,
                legs[j].pool_id,
                Self::hop_token(token_in, legs, j),
                #[trigger] amounts[j],
                legs[j].token_out@,
                Ok(amounts[j + 1]),
            )
    }

    /// `post` and `r` are what a chain of swaps by `caller` makes of `pre`.
    /// The legs are applied in order. The first leg that is refused ends
    /// the chain with its error; the legs before it stay applied, and what
    /// they paid stays in the caller's balance.
    pub open spec fn multihop_post(
        pre: &Contract,
        post: &Contract,
        caller: Seq<char>,
        token_in: Seq<char>,
        amount_in: u128,
        legs: Seq<SwapLeg>,
        r: Result<u128, Error>,
    ) -> bool {
        exists|trace: Seq<Contract>, amounts: Seq<u128>, n: int|
            {
                &&& 0 <= n <= legs.len()
                &&& #[trigger] Self::hops_applied(trace, amounts, caller, token_in, legs, n)
                &&& trace[0] == *pre
                &&& trace[n] == *post
                &&& amounts[0] == amount_in
                &&& match r {
                    Ok(v) => n == legs.len() && v == amounts[n],
                    Err(e) => n < legs.len() && post.spec_swap(
                        caller,
                        legs[n].pool_id,
                        Self::hop_token(token_in, legs, n),
                        amounts[n],
                        legs[n].token_out@,
                    ) == Err::<u128, Error>(e),
                }
            }
    }

    /// Swaps along a chain of legs: the output of each leg is the input of
    /// the next, and the output of the last is returned. Nothing is rolled
    /// back where a leg is refused.
    pub fn swap_multihop(
        &mut self,
        caller: &String,
        token_in: &String,
        amount_in: u128,
        legs: &Vec<SwapLeg>,
    ) -> (r: Result<u128, Error>)
        requires
            old(self).wf(),
        ensures
            final(self).wf(),
            Self::multihop_post(old(self), final(self), caller@, token_in@, amount_in, legs@, r),
    {
        let ghost mut trace: Seq<Contract> = seq![*self];
        let ghost mut amounts: Seq<u128> = seq![amount_in];
        let mut amount: u128 = amount_in;
        let mut current: String = token_in.clone();
        let mut i: usize = 0;
        while i < legs.len()
            invariant
                self.wf(),
                i <= legs.len(),
                Self::hops_applied(trace, amounts, caller@, token_in@, legs@, i as int),
                trace[0] == *old(self),
                trace[i as int] == *self,
                amounts[0] == amount_in,
                amounts[i as int] == amount,
                current@ == Self::hop_token(token_in@, legs@, i as int),
            decreases legs.len() - i,
        {
            let ghost before = *self;
            match self.swap(caller, legs[i].pool_id, &current, amount, &legs[i].token_out) {
                Err(e) => {
                    assert(Self::multihop_post(
                        old(self),
                        self,
                        caller@,
                        token_in@,
                        amount_in,
                        legs@,
                        Err(e),
                    )) by {
                        assert(*self == before);
                        assert(Self::hops_applied(
                            trace,
                            amounts,
                            caller@,
                            token_in@,
                            legs@,
                            i as int,
                        ));
                    }
                    return Err(e);
                },
                Ok(out) => {
                    proof {
                        let longer = trace.push(*self);
                        let more = amounts.push(out);
                        assert forall|j: int| 0 <= j < i + 1 implies Self::swap_post(
                            &longer[j],
                            &longer[j + 1],
                            caller@,
                            legs@[j].pool_id,
                            Self::hop_token(token_in@, legs@, j),
                            #[trigger] more[j],
                            legs@[j].token_out@,
                            Ok(more[j + 1]),
                        ) by {
                            if j < i {
                                assert(longer[j] == trace[j]);
                                assert(longer[j + 1] == trace[j + 1]);
                                assert(more[j] == amounts[j]);
                                assert(more[j + 1] == amounts[j + 1]);
                            }
                        }
                        trace = longer;
                        amounts = more;
                    }
                    amount = out;
                    current = legs[i].token_out.clone();
                },
            }
            i += 1;
        }
        assert(Self::hops_applied(trace, amounts, caller@, token_in@, legs@, i as int));
        Ok(amount)
    }

    /// `post` and `r` are what one call of the two-phase opening by
    /// `caller` makes of `pre`.
    ///
    /// On an identifier without state the call must bring exactly one side
    /// and is recorded as pending. On a pending identifier it must agree in
    /// owner, pool and bounds and bring exactly the missing side; then the
    /// position is opened and the identifier is spent. On a spent
    /// identifier it finds no request. A refused call changes nothing.
    pub open spec fn request_post(
        pre: &Contract,
        post: &Contract,
        caller: Seq<char>,
        action: OpenPositionAction,
        r: Result<(), Error>,
    ) -> bool {
        let id = action.request_id;
        let before = pre.open_position_requests@;
        let after = post.open_position_requests@;
        if !before.contains_key(id) {
            if (action.token0_liquidity is Some) == (action.token1_liquidity is Some) {
                r == Err::<(), Error>(Error::DuplicateOrMissingSide) && *post == *pre
            } else {
                &&& r is Ok
                &&& post.owner_id == pre.owner_id
                &&& post.pools == pre.pools
                &&& post.accounts == pre.accounts
                &&& after.contains_key(id)
                &&& after == before.insert(id, after[id])
                &&& match after[id] {
                    RequestState::Pending(request) => {
                        &&& request.owner_id@ == caller
                        &&& request.pool_id == action.pool_id
                        &&& request.token0_liquidity == action.token0_liquidity
                        &&& request.token1_liquidity == action.token1_liquidity
                        &&& request.lower_bound_price == action.lower_bound_price
                        &&& request.upper_bound_price == action.upper_bound_price
                    },
                    RequestState::Activated => false,
                }
            }
        } else {
            match before[id] {
                RequestState::Activated => r == Err::<(), Error>(Error::RequestNotFound) && *post
                    == *pre,
                RequestState::Pending(request) => if mismatches(request, caller, action) {
                    r == Err::<(), Error>(Error::ProtocolMismatch) && *post == *pre
                } else if !fills_missing_side(request, action) {
                    r == Err::<(), Error>(Error::DuplicateRequest) && *post == *pre
                } else {
                    let side0 = if request.token0_liquidity is None {
                        action.token0_liquidity
                    } else {
                        request.token0_liquidity
                    };
                    let side1 = if request.token0_liquidity is None {
                        request.token1_liquidity
                    } else {
                        action.token1_liquidity
                    };
                    let outcome = pre.spec_open_position(
                        caller,
                        request.pool_id,
                        side0,
                        side1,
                        request.lower_bound_price,
                        request.upper_bound_price,
                    );
                    &&& r is Err <==> outcome is Err
                    &&& r is Err ==> r.unwrap_err() == outcome.unwrap_err() && *post == *pre
                    &&& r is Ok ==> Self::position_opened(
                        pre,
                        post,
                        caller,
                        request.pool_id,
                        outcome.unwrap(),
                    ) && after == before.insert(id, RequestState::Activated)
                },
            }
        }
    }

    /// One call of the two-phase opening of a position.
    pub fn request_position(&mut self, caller: &String, action: &OpenPositionAction) -> (r: Result<
        (),
        Error,
    >)
        requires
            old(self).wf(),
        ensures
            final(self).wf(),
            Self::request_post(old(self), final(self), caller@, *action, r),
    {
        let id: u64 = action.request_id;
        let (side0, side1) = match self.open_position_requests.get(&id) {
            None => {
                if action.token0_liquidity.is_some() == action.token1_liquidity.is_some() {
                    return Err(Error::DuplicateOrMissingSide);
                }
                let request = OpenPositionRequest {
                    owner_id: caller.clone(),
                    pool_id: action.pool_id,
                    token0_liquidity: action.token0_liquidity,
                    token1_liquidity: action.token1_liquidity,
                    lower_bound_price: action.lower_bound_price,
                    upper_bound_price: action.upper_bound_price,
                };
                self.open_position_requests.insert(id, RequestState::Pending(request));
                return Ok(());
            },
            Some(RequestState::Activated) => {
                return Err(Error::RequestNotFound);
            },
            Some(RequestState::Pending(request)) => {
                if !(request.owner_id == *caller) || request.pool_id != action.pool_id
                    || request.lower_bound_price != action.lower_bound_price
                    || request.upper_bound_price != action.upper_bound_price {
                    return Err(Error::ProtocolMismatch);
                }
                if request.token0_liquidity.is_none() {
                    if action.token0_liquidity.is_none() || action.token1_liquidity.is_some() {
                        return Err(Error::DuplicateRequest);
                    }
                    (action.token0_liquidity, request.token1_liquidity)
                } else {
                    if action.token1_liquidity.is_none() || action.token0_liquidity.is_some() {
                        return Err(Error::DuplicateRequest);
                    }
                    (request.token0_liquidity, action.token1_liquidity)
                }
            },
        };
        match self.open_position(
            caller,
            action.pool_id,
            side0,
            side1,
            action.lower_bound_price,
            action.upper_bound_price,
        ) {
            Err(e) => Err(e),
            Ok(()) => {
                self.open_position_requests.insert(id, RequestState::Activated);
                Ok(())
            },
        }
    }
}

/// The round trip of a two-phase opening. A first call on an unused
/// identifier leaves a pending request and opens nothing. A second call
/// that is accepted opens exactly one position in the pool of the request
/// and spends the identifier. Every later call on that identifier finds no
/// request and changes nothing.
pub proof fn lemma_two_phase_round_trip(
    s0: Contract,
    s1: Contract,
    s2: Contract,
    s3: Contract,
    caller: Seq<char>,
    first: OpenPositionAction,
    second: OpenPositionAction,
    third: OpenPositionAction,
    r3: Result<(), Error>,
)
    requires
        !s0.open_position_requests@.contains_key(first.request_id),
        second.request_id == first.request_id,
        third.request_id == first.request_id,
        Contract::request_post(&s0, &s1, caller, first, Ok(())),
        Contract::request_post(&s1, &s2, caller, second, Ok(())),
        Contract::request_post(&s2, &s3, caller, third, r3),
    ensures
        s1.open_position_requests@[first.request_id] is Pending,
        s1.pools == s0.pools,
        s1.accounts == s0.accounts,
        second.pool_id == first.pool_id,
        first.pool_id < s0.pools@.len(),
        s2.open_position_requests@[first.request_id] is Activated,
        s2.pools@.len() == s0.pools@.len(),
        s2.pools@[first.pool_id as int].positions@.len() == s0.pools@[first.pool_id as int].positions@.len()
            + 1,
        forall|i: int|
            0 <= i < s0.pools@.len() && i != first.pool_id ==> #[trigger] s2.pools@[i]
                == s0.pools@[i],
        r3 == Err::<(), Error>(Error::RequestNotFound),
        s3 == s2,
{
    let id = first.request_id;
    assert(s1.open_position_requests@.contains_key(id));
    assert(s2.open_position_requests@ == s1.open_position_requests@.insert(
        id,
        RequestState::Activated,
    ));
    assert(s2.open_position_requests@.contains_key(id));
}

/// A quoted swap goes through. Where the pool quotes an amount for an
/// input, the caller holds the input, the asset asked for is the other asset
/// of the pool's pair, the caller's balance of it can take the quoted
/// amount, and every position can hold its reserves at the price that the
/// trade leaves, a swap in the same state is applied and pays that amount.
pub proof fn lemma_quoted_swap_succeeds(
    pre: Contract,
    caller: Seq<char>,
    pool_id: usize,
    token_in: Seq<char>,
    amount_in: u128,
    token_out: Seq<char>,
    quote: u128,
)
    requires
        pool_id < pre.pools@.len(),
        pre.pools@[pool_id as int].spec_get_return(token_in, amount_in) == Ok::<u128, Error>(quote),
        amount_in <= pre.accounts.balance_of(caller, token_in),
        token_in != token_out,
        (token_in == pre.pools@[pool_id as int].token0@ && token_out
            == pre.pools@[pool_id as int].token1@) || (token_in
            == pre.pools@[pool_id as int].token1@ && token_out
            == pre.pools@[pool_id as int].token0@),
        pre.accounts.balance_of(caller, token_out) + quote <= u128::MAX,
        pre.pools@[pool_id as int].spec_swap(token_in, amount_in, quote) is Ok,
    ensures
        pre.spec_swap(caller, pool_id, token_in, amount_in, token_out) == Ok::<u128, Error>(quote),
{
}

/// A swap pays what the quote promised: the amount that an applied swap
/// returns and pays into the caller's balance is the amount that the pool
/// quoted for the same input in the state before the swap.
pub proof fn lemma_swap_pays_the_quote(
    pre: Contract,
    post: Contract,
    caller: Seq<char>,
    pool_id: usize,
    token_in: Seq<char>,
    amount_in: u128,
    token_out: Seq<char>,
    r: Result<u128, Error>,
)
    requires
        Contract::swap_post(&pre, &post, caller, pool_id, token_in, amount_in, token_out, r),
        r is Ok,
    ensures
        pool_id < pre.pools@.len(),
        pre.pools@[pool_id as int].spec_get_return(token_in, amount_in) == Ok::<u128, Error>(
            r.unwrap(),
        ),
        token_in != token_out ==> post.accounts.balance_of(caller, token_out)
            == pre.accounts.balance_of(caller, token_out) + r.unwrap(),
        token_in != token_out ==> post.accounts.balance_of(caller, token_in)
            == pre.accounts.balance_of(caller, token_in) - amount_in,
{
}

} // verus!
