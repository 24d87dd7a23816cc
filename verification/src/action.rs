use vstd::prelude::*;
use crate::balance::PayoutRequest;

verus! {

/// Trade an amount of one asset of a pool for the other.
#[derive(Clone, Debug)]
pub struct SwapAction {
    pub pool_id: usize,
    pub token_in: String,
    pub amount_in: u128,
    pub token_out: String,
}

/// Pay an amount of an asset out of the caller's balance.
#[derive(Clone, Debug)]
pub struct WithdrawAction {
    pub token: String,
    pub amount: u128,
}

/// One leg of a chain of swaps: the pool to trade in and the asset to get.
#[derive(Clone, Debug)]
pub struct SwapLeg {
    pub pool_id: usize,
    pub token_out: String,
}

/// A chain of swaps: the output of each leg is the input of the next.
#[derive(Clone, Debug)]
pub struct MultihopSwapAction {
    pub token_in: String,
    pub amount_in: u128,
    pub legs: Vec<SwapLeg>,
}

/// One call of the two-phase opening of a position.
#[derive(Clone, Copy, Debug)]
pub struct OpenPositionAction {
    pub request_id: u64,
    pub pool_id: usize,
    pub token0_liquidity: Option<u128>,
    pub token1_liquidity: Option<u128>,
    pub lower_bound_price: u64,
    pub upper_bound_price: u64,
}

#[derive(Clone, Copy, Debug)]
pub struct AddLiquidityAction {
    pub pool_id: usize,
    pub position_id: usize,
    pub token0_liquidity: Option<u128>,
    pub token1_liquidity: Option<u128>,
}

#[derive(Clone, Debug)]
pub struct CreateDepositAction {
    pub asset: String,
    pub amount: u128,
}

#[derive(Clone, Copy, Debug)]
pub struct ReturnCollateralAndRepayAction {
    pub borrow_id: u128,
}

#[derive(Clone, Copy, Debug)]
pub struct LiquidateAction {
    pub borrow_id: u128,
}

/// One operation of a batch.
#[derive(Clone, Debug)]
pub enum Action {
    Swap(SwapAction),
    Withdraw(WithdrawAction),
    MultihopSwap(MultihopSwapAction),
    OpenPosition(OpenPositionAction),
    AddLiquidity(AddLiquidityAction),
    CreateDeposit(CreateDepositAction),
    ReturnCollateralAndRepay(ReturnCollateralAndRepayAction),
    Liquidate(LiquidateAction),
}

impl Action {
    /// The action belongs to the lending side, which the exchange does not
    /// run itself.
    pub open spec fn is_delegated(&self) -> bool {
        self is AddLiquidity || self is CreateDeposit || self is ReturnCollateralAndRepay
            || self is Liquidate
    }
}

/// What one applied action leaves for the caller.
#[derive(Clone, Debug)]
pub enum Step {
    /// A swap, or a chain of swaps, paid this amount into the balance.
    Swapped(u128),
    /// A withdrawal took its amount; the payout is to be requested.
    Payout(PayoutRequest),
    /// A call of the two-phase opening was recorded or completed.
    Requested,
}

/// What an instruction payload turned out to hold.
#[derive(Clone, Debug)]
pub enum Payload {
    /// No instruction.
    Empty,
    /// Text that is no batch of actions.
    Malformed,
    /// A batch of actions, in order.
    Execute(Vec<Action>),
}

} // verus!
