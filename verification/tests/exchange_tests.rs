use liquidity_exchange::action::{
    Action, AddLiquidityAction, MultihopSwapAction, OpenPositionAction, Payload, Step, SwapAction,
    SwapLeg, WithdrawAction,
};
use liquidity_exchange::balance::AccountsInfo;
use liquidity_exchange::errors::Error;
use liquidity_exchange::dispatch::BatchStatus;
use liquidity_exchange::exchange::{Contract, RequestState};
use liquidity_exchange::math::{isqrt, price_of, sqrt_price_of};
use liquidity_exchange::pool::Pool;
use liquidity_exchange::position::Position;
use liquidity_exchange::wide::mul_div;

fn s(x: &str) -> String {
    x.to_string()
}

fn deposit(c: &mut Contract, who: &str, token: &str, amount: u128) {
    let r = c.ft_on_transfer(&s(who), &s(token), amount, &Payload::Empty);
    assert!(r.is_ok());
}

/// An exchange with one pool of A and B at price 4 and one position of
/// liquidity 6000 over the prices 1 to 9, which holds 1000 A and 6000 B.
fn funded_exchange() -> Contract {
    let mut c = Contract::new(s("owner"));
    assert_eq!(c.create_pool(&s("owner"), s("A"), s("B"), 4_000_000), Ok(0));
    deposit(&mut c, "lp", "A", 1000);
    deposit(&mut c, "lp", "B", 6000);
    assert_eq!(
        c.open_position(&s("lp"), 0, Some(1000), Some(6000), 1_000_000, 9_000_000),
        Ok(())
    );
    c
}

#[test]
fn message_test() {
    let swap_action = Action::Swap(SwapAction {
        pool_id: 0,
        token_in: "token_in.testnet".to_string(),
        amount_in: 1000,
        token_out: "token_out.testnet".to_string(),
    });
    let withdraw_action = Action::Withdraw(WithdrawAction {
        token: "token_in.testnet".to_string(),
        amount: 1000,
    });
    let message = Payload::Execute(vec![swap_action, withdraw_action]);
    println!("message is: {}", format!("{:?}", message));
    match message {
        Payload::Execute(actions) => {
            assert_eq!(actions.len(), 2);
            assert!(matches!(&actions[0], Action::Swap(a) if a.amount_in == 1000
                && a.token_in == "token_in.testnet" && a.token_out == "token_out.testnet"));
            assert!(matches!(&actions[1], Action::Withdraw(a) if a.amount == 1000
                && a.token == "token_in.testnet"));
        }
        _ => panic!("not a batch"),
    }
}

#[test]
fn integer_square_root_values() {
    assert_eq!(isqrt(0), 0);
    assert_eq!(isqrt(1), 1);
    assert_eq!(isqrt(15), 3);
    assert_eq!(isqrt(16), 4);
    assert_eq!(isqrt(17), 4);
    assert_eq!(isqrt(u128::MAX), u64::MAX);
    assert_eq!(isqrt(1_501_000_000_000), 1_225_153);
}

#[test]
fn price_conversions() {
    assert_eq!(sqrt_price_of(4_000_000), 2_000_000);
    assert_eq!(sqrt_price_of(9_000_000), 3_000_000);
    assert_eq!(sqrt_price_of(2_000_000), 1_414_213);
    assert_eq!(price_of(2_000_000), 4_000_000);
    assert_eq!(price_of(1_414_213), 1_999_998);
    assert_eq!(sqrt_price_of(0), 0);
}

#[test]
fn position_inside_range_holds_both_assets() {
    let p = Position::new(Some(1000), None, 1_000_000, 9_000_000, 2_000_000).unwrap();
    assert_eq!(p.liquidity_constant, 6000);
    assert_eq!(p.sqrt_lower_bound_price, 1_000_000);
    assert_eq!(p.sqrt_upper_bound_price, 3_000_000);
    assert_eq!(p.token0_real_liquidity, 1000);
    assert_eq!(p.token1_real_liquidity, 6000);
    assert!(p.is_active);
}

#[test]
fn position_from_second_side_only() {
    let p = Position::new(None, Some(6000), 1_000_000, 9_000_000, 2_000_000).unwrap();
    assert_eq!(p.liquidity_constant, 6000);
    assert_eq!(p.token0_real_liquidity, 1000);
    assert_eq!(p.token1_real_liquidity, 6000);
}

#[test]
fn position_from_both_sides_takes_smaller_constant() {
    let p = Position::new(Some(1000), Some(3000), 1_000_000, 9_000_000, 2_000_000).unwrap();
    assert_eq!(p.liquidity_constant, 3000);
    assert_eq!(p.token0_real_liquidity, 500);
    assert_eq!(p.token1_real_liquidity, 3000);
}

#[test]
fn position_without_sides_is_empty() {
    let p = Position::new(None, None, 1_000_000, 9_000_000, 2_000_000).unwrap();
    assert_eq!(p.liquidity_constant, 0);
    assert_eq!(p.token0_real_liquidity, 0);
    assert_eq!(p.token1_real_liquidity, 0);
    assert!(p.is_active);
}

#[test]
fn refresh_three_regions() {
    let mut p = Position::new(Some(1000), None, 1_000_000, 9_000_000, 2_000_000).unwrap();
    p.refresh(500_000);
    assert_eq!((p.token0_real_liquidity, p.token1_real_liquidity, p.is_active), (4000, 0, false));
    p.refresh(1_000_000);
    assert_eq!((p.token0_real_liquidity, p.token1_real_liquidity, p.is_active), (4000, 0, false));
    p.refresh(3_000_000);
    assert_eq!((p.token0_real_liquidity, p.token1_real_liquidity, p.is_active), (0, 12000, false));
    p.refresh(5_000_000);
    assert_eq!((p.token0_real_liquidity, p.token1_real_liquidity, p.is_active), (0, 12000, false));
    p.refresh(2_000_000);
    assert_eq!((p.token0_real_liquidity, p.token1_real_liquidity, p.is_active), (1000, 6000, true));
    p.refresh(1_000_001);
    assert!(p.is_active);
    p.refresh(2_999_999);
    assert!(p.is_active);
}

#[test]
fn refresh_is_idempotent() {
    let mut p = Position::new(Some(1000), None, 1_000_000, 9_000_000, 2_000_000).unwrap();
    p.refresh(1_700_000);
    let once = p;
    p.refresh(1_700_000);
    assert_eq!(p, once);
}

#[test]
fn small_liquidity_truncates_to_zero_reserves() {
    let mut p = Position::new(None, None, 1_000_000, 9_000_000, 2_000_000).unwrap();
    p.refresh(2_000_000);
    assert!(p.is_active);
    assert_eq!(p.token0_real_liquidity, 0);
    assert_eq!(p.token1_real_liquidity, 0);
}

#[test]
fn position_default_is_empty() {
    let p = Position::default();
    assert_eq!(p.liquidity_constant, 0);
    assert_eq!(p.sqrt_lower_bound_price, 0);
    assert_eq!(p.sqrt_upper_bound_price, 0);
    assert!(!p.is_active);
}

#[test]
fn position_rejects_bad_ranges_and_amounts() {
    assert_eq!(
        Position::new(Some(1), None, 9_000_000, 1_000_000, 2_000_000).unwrap_err(),
        Error::BadPriceRange
    );
    assert_eq!(
        Position::new(Some(1), None, 4_000_000, 4_000_000, 2_000_000).unwrap_err(),
        Error::BadPriceRange
    );
    assert_eq!(
        Position::new(Some(1), None, 0, 4_000_000, 2_000_000).unwrap_err(),
        Error::BadPriceRange
    );
    assert_eq!(
        Position::new(Some(1), None, 1_000_000, 1_000_001, 2_000_000).unwrap_err(),
        Error::BadPriceRange
    );
    assert_eq!(
        Position::new(None, Some(u128::MAX), 1_000_000, 9_000_000, 1_000_001).unwrap_err(),
        Error::AmountOutOfRange
    );
    assert_eq!(
        Position::new(Some(u128::MAX), None, 1_000_000, 9_000_000, 2_000_000).unwrap_err(),
        Error::AmountOutOfRange
    );
    assert_eq!(
        Position::new(Some(u128::MAX / 2), None, 1_000_000, 9_000_000, 2_000_000).unwrap_err(),
        Error::AmountOutOfRange
    );
}

#[test]
fn ledger_credit_debit() {
    let mut l = AccountsInfo::new();
    assert_eq!(l.get_balance(&s("alice"), &s("A")), 0);
    l.increase_balance(&s("alice"), &s("A"), 10);
    l.increase_balance(&s("alice"), &s("A"), 5);
    l.increase_balance(&s("bob"), &s("A"), 7);
    assert_eq!(l.get_balance(&s("alice"), &s("A")), 15);
    assert_eq!(l.get_balance(&s("bob"), &s("A")), 7);
    assert_eq!(l.get_balance(&s("alice"), &s("B")), 0);
    assert_eq!(l.decrease_balance(&s("alice"), &s("A"), 16), Err(Error::InsufficientBalance));
    assert_eq!(l.get_balance(&s("alice"), &s("A")), 15);
    assert_eq!(l.decrease_balance(&s("alice"), &s("A"), 15), Ok(()));
    assert_eq!(l.get_balance(&s("alice"), &s("A")), 0);
    assert_eq!(l.decrease_balance(&s("alice"), &s("A"), 1), Err(Error::InsufficientBalance));
    assert_eq!(l.decrease_balance(&s("carol"), &s("A"), 0), Ok(()));
    assert_eq!(l.decrease_balance(&s("carol"), &s("A"), 1), Err(Error::InsufficientBalance));
    assert_eq!(l.get_balance(&s("bob"), &s("A")), 7);
}

#[test]
fn ledger_withdraw_and_refund() {
    let mut c = Contract::new(s("owner"));
    deposit(&mut c, "alice", "A", 100);
    let p = c.withdraw(&s("alice"), &s("A"), 40).unwrap();
    assert_eq!((p.recipient.as_str(), p.token.as_str(), p.amount), ("alice", "A", 40));
    assert_eq!(c.get_balance(&s("alice"), &s("A")), 60);
    assert!(c.refund(&p));
    assert_eq!(c.get_balance(&s("alice"), &s("A")), 100);
    assert_eq!(c.withdraw(&s("alice"), &s("A"), 101).unwrap_err(), Error::InsufficientBalance);
    assert_eq!(c.get_balance(&s("alice"), &s("A")), 100);
}

#[test]
fn refund_beyond_the_limit_is_not_applied() {
    let mut c = Contract::new(s("owner"));
    deposit(&mut c, "alice", "A", 10);
    let p = c.withdraw(&s("alice"), &s("A"), 10).unwrap();
    deposit(&mut c, "alice", "A", u128::MAX);
    assert!(!c.refund(&p));
    assert_eq!(c.get_balance(&s("alice"), &s("A")), u128::MAX);
}

#[test]
fn listing_holds_only_nonzero_balances() {
    let mut c = Contract::new(s("owner"));
    deposit(&mut c, "alice", "A", 5);
    deposit(&mut c, "alice", "B", 6);
    deposit(&mut c, "bob", "C", 7);
    deposit(&mut c, "alice", "D", 8);
    c.withdraw(&s("alice"), &s("B"), 6).unwrap();
    let mut listing = c.get_balance_all_tokens(&s("alice"));
    listing.sort();
    assert_eq!(listing, vec![(s("A"), 5), (s("D"), 8)]);
    assert!(c.get_balance_all_tokens(&s("nobody")).is_empty());
}

#[test]
fn create_pool_sets_price_and_is_privileged() {
    let mut c = Contract::new(s("owner"));
    assert_eq!(
        c.create_pool(&s("mallory"), s("A"), s("B"), 4_000_000),
        Err(Error::PermissionDenied)
    );
    assert_eq!(c.get_pools().len(), 0);
    assert_eq!(c.create_pool(&s("owner"), s("A"), s("B"), 4_000_000), Ok(0));
    assert_eq!(c.create_pool(&s("owner"), s("B"), s("C"), 1_000_000), Ok(1));
    assert_eq!(c.get_pool(0).unwrap().get_sqrt_price(), 2_000_000);
    assert_eq!(c.get_price(0), Ok(4_000_000));
    assert_eq!(c.get_price(2), Err(Error::BadPoolId));
    assert!(c.get_pool(2).is_none());
    assert_eq!(c.get_pools().len(), 2);
}

#[test]
fn swap_without_liquidity_fails() {
    let mut c = Contract::new(s("owner"));
    c.create_pool(&s("owner"), s("A"), s("B"), 4_000_000).unwrap();
    deposit(&mut c, "trader", "A", 1000);
    assert_eq!(c.get_return(0, &s("A"), 1000), Err(Error::NoActiveLiquidity));
    assert_eq!(c.swap(&s("trader"), 0, &s("A"), 1000, &s("B")), Err(Error::NoActiveLiquidity));
    assert_eq!(c.get_balance(&s("trader"), &s("A")), 1000);
    assert_eq!(c.get_balance(&s("trader"), &s("B")), 0);
}

#[test]
fn quote_values_and_errors() {
    let c = funded_exchange();
    assert_eq!(c.get_return(0, &s("A"), 1000), Ok(2998));
    assert_eq!(c.get_return(0, &s("B"), 6000), Ok(499));
    assert_eq!(c.get_return(0, &s("A"), 0), Ok(0));
    assert_eq!(c.get_return(0, &s("C"), 1000), Err(Error::AssetMismatch));
    assert_eq!(c.get_return(1, &s("A"), 1000), Err(Error::BadPoolId));
    assert_eq!(c.get_return(0, &s("A"), u128::MAX), Err(Error::AmountOutOfRange));
    assert_eq!(c.get_return(0, &s("A"), 1000), Ok(2998));
}

#[test]
fn pool_quote_without_fee() {
    let mut pool = Pool::new(s("A"), s("B"), 4_000_000);
    pool.fee_divisor = 0;
    pool.open_position(Position::new(Some(1000), None, 1_000_000, 9_000_000, 2_000_000).unwrap());
    assert_eq!(pool.get_return(&s("A"), 1000), Ok(3000));
}

#[test]
fn swap_pays_the_quote_and_moves_the_price() {
    let mut c = funded_exchange();
    deposit(&mut c, "trader", "A", 1500);
    let quote = c.get_return(0, &s("A"), 1000).unwrap();
    assert_eq!(c.swap(&s("trader"), 0, &s("A"), 1000, &s("B")), Ok(quote));
    assert_eq!(c.get_balance(&s("trader"), &s("A")), 500);
    assert_eq!(c.get_balance(&s("trader"), &s("B")), 2998);
    let pool = c.get_pool(0).unwrap();
    assert_eq!(pool.sqrt_price, 1_225_153);
    assert_eq!(c.get_price(0), Ok(1_500_999));
    let p = pool.positions[0];
    let mut q = p;
    q.refresh(1_225_153);
    assert_eq!(p, q);
    assert!(p.is_active);
    assert_eq!(p.token1_real_liquidity, 1350);
    assert_eq!(p.token0_real_liquidity, 2897);
}

#[test]
fn swap_errors_change_nothing() {
    let mut c = funded_exchange();
    deposit(&mut c, "trader", "A", 10);
    assert_eq!(c.swap(&s("trader"), 3, &s("A"), 5, &s("B")), Err(Error::BadPoolId));
    assert_eq!(c.swap(&s("trader"), 0, &s("A"), 5, &s("C")), Err(Error::AssetMismatch));
    assert_eq!(c.swap(&s("trader"), 0, &s("A"), 5, &s("A")), Err(Error::AssetMismatch));
    assert_eq!(c.swap(&s("trader"), 0, &s("A"), 11, &s("B")), Err(Error::InsufficientBalance));
    assert_eq!(c.get_balance(&s("trader"), &s("A")), 10);
    assert_eq!(c.get_pool(0).unwrap().sqrt_price, 2_000_000);
}

#[test]
fn pool_swap_refuses_output_at_or_above_reserve() {
    let mut pool = Pool::new(s("A"), s("B"), 4_000_000);
    pool.open_position(Position::new(Some(1000), None, 1_000_000, 9_000_000, 2_000_000).unwrap());
    assert_eq!(pool.swap(&s("A"), 10, 6000), Err(Error::NoActiveLiquidity));
    assert_eq!(pool.sqrt_price, 2_000_000);
    assert_eq!(pool.swap(&s("B"), 6000, 499), Ok(()));
    assert_eq!(pool.sqrt_price, 4_894_087);
    assert!(!pool.positions[0].is_active);
    assert_eq!(pool.positions[0].token0_real_liquidity, 0);
    assert_eq!(pool.positions[0].token1_real_liquidity, 12000);
    assert_eq!(pool.get_return(&s("A"), 10), Err(Error::NoActiveLiquidity));
}

#[test]
fn open_position_takes_reserves_from_balances() {
    let mut c = Contract::new(s("owner"));
    c.create_pool(&s("owner"), s("A"), s("B"), 4_000_000).unwrap();
    deposit(&mut c, "lp", "A", 1000);
    deposit(&mut c, "lp", "B", 5999);
    assert_eq!(
        c.open_position(&s("lp"), 0, Some(1000), None, 1_000_000, 9_000_000),
        Err(Error::InsufficientBalance)
    );
    assert_eq!(c.get_balance(&s("lp"), &s("A")), 1000);
    assert_eq!(c.get_pool(0).unwrap().positions.len(), 0);
    deposit(&mut c, "lp", "B", 2);
    assert_eq!(c.open_position(&s("lp"), 0, Some(1000), None, 1_000_000, 9_000_000), Ok(()));
    assert_eq!(c.get_balance(&s("lp"), &s("A")), 0);
    assert_eq!(c.get_balance(&s("lp"), &s("B")), 1);
    assert_eq!(c.get_pool(0).unwrap().positions.len(), 1);
    assert_eq!(
        c.open_position(&s("lp"), 1, Some(1000), None, 1_000_000, 9_000_000),
        Err(Error::BadPoolId)
    );
    assert_eq!(
        c.open_position(&s("lp"), 0, Some(1000), None, 9_000_000, 1_000_000),
        Err(Error::BadPriceRange)
    );
    assert_eq!(c.close_position(), Err(Error::Unsupported));
    assert_eq!(c.expire_request(1), Err(Error::Unsupported));
    assert_eq!(c.get_pool(0).unwrap().positions.len(), 1);
}

fn open_action(id: u64, side0: Option<u128>, side1: Option<u128>) -> OpenPositionAction {
    OpenPositionAction {
        request_id: id,
        pool_id: 0,
        token0_liquidity: side0,
        token1_liquidity: side1,
        lower_bound_price: 1_000_000,
        upper_bound_price: 9_000_000,
    }
}

#[test]
fn two_phase_round_trip() {
    let mut c = Contract::new(s("owner"));
    c.create_pool(&s("owner"), s("A"), s("B"), 4_000_000).unwrap();
    deposit(&mut c, "lp", "A", 1000);
    deposit(&mut c, "lp", "B", 6000);
    assert_eq!(c.request_position(&s("lp"), &open_action(7, Some(1000), None)), Ok(()));
    assert!(matches!(
        c.open_position_requests.get(&7),
        Some(RequestState::Pending(r)) if r.owner_id == "lp" && r.pool_id == 0
            && r.token0_liquidity == Some(1000) && r.token1_liquidity.is_none()
            && r.lower_bound_price == 1_000_000 && r.upper_bound_price == 9_000_000
    ));
    assert_eq!(c.get_pool(0).unwrap().positions.len(), 0);
    assert_eq!(c.get_balance(&s("lp"), &s("A")), 1000);
    assert_eq!(c.request_position(&s("lp"), &open_action(7, None, Some(6000))), Ok(()));
    assert_eq!(c.get_pool(0).unwrap().positions.len(), 1);
    let p = c.get_pool(0).unwrap().positions[0];
    assert_eq!(p.liquidity_constant, 6000);
    assert!(p.is_active);
    assert_eq!(c.get_balance(&s("lp"), &s("A")), 0);
    assert_eq!(c.get_balance(&s("lp"), &s("B")), 0);
    assert!(matches!(c.open_position_requests.get(&7), Some(RequestState::Activated)));
    assert_eq!(
        c.request_position(&s("lp"), &open_action(7, None, Some(6000))),
        Err(Error::RequestNotFound)
    );
    assert_eq!(
        c.request_position(&s("lp"), &open_action(7, Some(1000), None)),
        Err(Error::RequestNotFound)
    );
    assert_eq!(c.get_pool(0).unwrap().positions.len(), 1);
}

#[test]
fn two_phase_guards() {
    let mut c = Contract::new(s("owner"));
    c.create_pool(&s("owner"), s("A"), s("B"), 4_000_000).unwrap();
    deposit(&mut c, "lp", "A", 1000);
    assert_eq!(
        c.request_position(&s("lp"), &open_action(1, None, None)),
        Err(Error::DuplicateOrMissingSide)
    );
    assert_eq!(
        c.request_position(&s("lp"), &open_action(1, Some(1), Some(1))),
        Err(Error::DuplicateOrMissingSide)
    );
    assert!(c.open_position_requests.get(&1).is_none());
    assert_eq!(c.request_position(&s("lp"), &open_action(1, Some(1000), None)), Ok(()));
    assert_eq!(
        c.request_position(&s("eve"), &open_action(1, None, Some(6000))),
        Err(Error::ProtocolMismatch)
    );
    let mut other_pool = open_action(1, None, Some(6000));
    other_pool.pool_id = 1;
    assert_eq!(c.request_position(&s("lp"), &other_pool), Err(Error::ProtocolMismatch));
    let mut other_bounds = open_action(1, None, Some(6000));
    other_bounds.upper_bound_price = 9_000_001;
    assert_eq!(c.request_position(&s("lp"), &other_bounds), Err(Error::ProtocolMismatch));
    assert_eq!(
        c.request_position(&s("lp"), &open_action(1, Some(1000), None)),
        Err(Error::DuplicateRequest)
    );
    assert_eq!(
        c.request_position(&s("lp"), &open_action(1, Some(1000), Some(6000))),
        Err(Error::DuplicateRequest)
    );
    assert_eq!(
        c.request_position(&s("lp"), &open_action(1, None, Some(6000))),
        Err(Error::InsufficientBalance)
    );
    assert!(matches!(c.open_position_requests.get(&1), Some(RequestState::Pending(_))));
    deposit(&mut c, "lp", "B", 6000);
    assert_eq!(c.request_position(&s("lp"), &open_action(1, None, Some(6000))), Ok(()));
    assert_eq!(c.get_pool(0).unwrap().positions.len(), 1);
}

#[test]
fn batch_swap_then_withdraw() {
    let mut c = funded_exchange();
    let quote = c.get_return(0, &s("A"), 1000).unwrap();
    assert_eq!(quote, 2998);
    let batch = Payload::Execute(vec![
        Action::Swap(SwapAction { pool_id: 0, token_in: s("A"), amount_in: 1000, token_out: s("B") }),
        Action::Withdraw(WithdrawAction { token: s("B"), amount: quote }),
    ]);
    let out = c.ft_on_transfer(&s("trader"), &s("A"), 1000, &batch).unwrap();
    assert_eq!(out.applied, 2);
    assert_eq!(out.status, BatchStatus::Done);
    assert_eq!(out.steps.len(), 2);
    assert!(matches!(&out.steps[0], Step::Swapped(2998)));
    assert!(matches!(&out.steps[1], Step::Payout(p) if p.recipient == "trader" && p.token == "B"
        && p.amount == 2998));
    assert_eq!(c.get_balance(&s("trader"), &s("A")), 0);
    assert_eq!(c.get_balance(&s("trader"), &s("B")), 0);
}

#[test]
fn batch_failure_keeps_earlier_actions() {
    let mut c = funded_exchange();
    let batch = Payload::Execute(vec![
        Action::Swap(SwapAction { pool_id: 0, token_in: s("A"), amount_in: 1000, token_out: s("B") }),
        Action::Withdraw(WithdrawAction { token: s("B"), amount: 2999 }),
        Action::Withdraw(WithdrawAction { token: s("B"), amount: 1 }),
    ]);
    let out = c.ft_on_transfer(&s("trader"), &s("A"), 1000, &batch).unwrap();
    assert_eq!(out.applied, 1);
    assert_eq!(out.status, BatchStatus::Failed(Error::InsufficientBalance));
    assert_eq!(out.steps.len(), 1);
    assert_eq!(c.get_balance(&s("trader"), &s("A")), 0);
    assert_eq!(c.get_balance(&s("trader"), &s("B")), 2998);
}

#[test]
fn batch_swap_must_take_the_deposited_asset() {
    let mut c = funded_exchange();
    deposit(&mut c, "trader", "A", 1000);
    let actions = vec![Action::Swap(SwapAction {
        pool_id: 0,
        token_in: s("A"),
        amount_in: 1000,
        token_out: s("B"),
    })];
    let out = c.ft_on_transfer(&s("trader"), &s("B"), 5, &Payload::Execute(actions.clone())).unwrap();
    assert_eq!(out.status, BatchStatus::Failed(Error::AssetMismatch));
    assert_eq!(out.applied, 0);
    assert_eq!(c.get_balance(&s("trader"), &s("B")), 5);
    let out = c.internal_execute(&s("trader"), &None, &actions, 0);
    assert_eq!(out.status, BatchStatus::Done);
    assert_eq!(c.get_balance(&s("trader"), &s("A")), 0);
}

#[test]
fn batch_stops_at_lending_action_and_resumes() {
    let mut c = funded_exchange();
    deposit(&mut c, "trader", "A", 10);
    let actions = vec![
        Action::Withdraw(WithdrawAction { token: s("A"), amount: 4 }),
        Action::AddLiquidity(AddLiquidityAction {
            pool_id: 0,
            position_id: 0,
            token0_liquidity: Some(1),
            token1_liquidity: None,
        }),
        Action::Withdraw(WithdrawAction { token: s("A"), amount: 6 }),
    ];
    let out = c.internal_execute(&s("trader"), &None, &actions, 0);
    assert_eq!((out.applied, out.status), (1, BatchStatus::Delegated));
    assert_eq!(c.get_balance(&s("trader"), &s("A")), 6);
    let out = c.internal_execute(&s("trader"), &None, &actions, 2);
    assert_eq!((out.applied, out.status), (3, BatchStatus::Done));
    assert_eq!(c.get_balance(&s("trader"), &s("A")), 0);
    let out = c.internal_execute(&s("trader"), &None, &actions, 3);
    assert_eq!((out.applied, out.status, out.steps.len()), (3, BatchStatus::Done, 0));
}

#[test]
fn transfer_with_malformed_payload_changes_nothing() {
    let mut c = Contract::new(s("owner"));
    assert_eq!(
        c.ft_on_transfer(&s("alice"), &s("A"), 10, &Payload::Malformed).unwrap_err(),
        Error::MalformedPayload
    );
    assert_eq!(c.get_balance(&s("alice"), &s("A")), 0);
    deposit(&mut c, "alice", "A", u128::MAX);
    assert_eq!(
        c.ft_on_transfer(&s("alice"), &s("A"), 1, &Payload::Empty).unwrap_err(),
        Error::AmountOutOfRange
    );
    assert_eq!(c.get_balance(&s("alice"), &s("A")), u128::MAX);
}

#[test]
fn batch_open_position_in_two_transfers() {
    let mut c = Contract::new(s("owner"));
    c.create_pool(&s("owner"), s("A"), s("B"), 4_000_000).unwrap();
    let first = Payload::Execute(vec![Action::OpenPosition(open_action(9, Some(1000), None))]);
    let out = c.ft_on_transfer(&s("lp"), &s("A"), 1000, &first).unwrap();
    assert_eq!(out.status, BatchStatus::Done);
    assert!(matches!(&out.steps[0], Step::Requested));
    let second = Payload::Execute(vec![Action::OpenPosition(open_action(9, None, Some(6000)))]);
    let out = c.ft_on_transfer(&s("lp"), &s("B"), 6000, &second).unwrap();
    assert_eq!(out.status, BatchStatus::Done);
    assert_eq!(c.get_pool(0).unwrap().positions.len(), 1);
    assert_eq!(c.get_return(0, &s("A"), 1000), Ok(2998));
}

#[test]
fn multihop_chains_outputs() {
    let mut c = funded_exchange();
    assert_eq!(c.create_pool(&s("owner"), s("B"), s("C"), 4_000_000), Ok(1));
    deposit(&mut c, "lp", "B", 1000);
    deposit(&mut c, "lp", "C", 6000);
    assert_eq!(c.open_position(&s("lp"), 1, Some(1000), Some(6000), 1_000_000, 9_000_000), Ok(()));
    deposit(&mut c, "trader", "A", 1000);
    let legs = vec![
        SwapLeg { pool_id: 0, token_out: s("B") },
        SwapLeg { pool_id: 1, token_out: s("C") },
    ];
    let second = 6000 * (2998 - 2) / (1000 + 2996);
    assert_eq!(c.swap_multihop(&s("trader"), &s("A"), 1000, &legs), Ok(second));
    assert_eq!(c.get_balance(&s("trader"), &s("A")), 0);
    assert_eq!(c.get_balance(&s("trader"), &s("B")), 0);
    assert_eq!(c.get_balance(&s("trader"), &s("C")), second);
    assert_eq!(c.swap_multihop(&s("trader"), &s("C"), 7, &Vec::new()), Ok(7));
}

#[test]
fn multihop_failure_keeps_earlier_legs() {
    let mut c = funded_exchange();
    deposit(&mut c, "trader", "A", 1000);
    let action = Action::MultihopSwap(MultihopSwapAction {
        token_in: s("A"),
        amount_in: 1000,
        legs: vec![SwapLeg { pool_id: 0, token_out: s("B") }, SwapLeg { pool_id: 5, token_out: s("C") }],
    });
    let out = c.internal_execute(&s("trader"), &None, &vec![action], 0);
    assert_eq!(out.status, BatchStatus::Failed(Error::BadPoolId));
    assert_eq!(out.applied, 0);
    assert_eq!(c.get_balance(&s("trader"), &s("A")), 0);
    assert_eq!(c.get_balance(&s("trader"), &s("B")), 2998);
}

#[test]
fn ledger_entries_list_what_was_recorded() {
    let mut l = AccountsInfo::new();
    assert!(l.entries().is_empty());
    l.increase_balance(&s("alice"), &s("A"), 10);
    l.increase_balance(&s("bob"), &s("B"), 3);
    l.increase_balance(&s("alice"), &s("A"), 1);
    assert_eq!(l.decrease_balance(&s("bob"), &s("B"), 3), Ok(()));
    let seen: Vec<(String, String, u128)> = l
        .entries()
        .iter()
        .map(|e| (e.account.clone(), e.token.clone(), e.amount))
        .collect();
    assert_eq!(seen, vec![(s("alice"), s("A"), 11), (s("bob"), s("B"), 0)]);
}

#[test]
fn quote_is_repeatable_and_leaves_the_pool() {
    let c = funded_exchange();
    let before = format!("{:?}", c.get_pool(0).unwrap());
    let first = c.get_return(0, &s("B"), 12345);
    let second = c.get_return(0, &s("B"), 12345);
    assert_eq!(first, second);
    assert_eq!(first, Ok(672));
    assert_eq!(format!("{:?}", c.get_pool(0).unwrap()), before);
}

#[test]
fn position_takes_every_price_of_64_bits() {
    let p = Position::new(Some(1), None, 1_000_000, u64::MAX, 2_000_000).unwrap();
    assert_eq!(p.sqrt_lower_bound_price, 1_000_000);
    assert_eq!(p.sqrt_upper_bound_price, 4_294_967_295_999);
    assert!(p.is_active);
}

#[test]
fn position_takes_sides_beyond_64_bits() {
    let p = Position::new(None, Some(1u128 << 64), 1_000_000, u64::MAX, 4_000_000_000_000).unwrap();
    assert_eq!(p.liquidity_constant, 4_611_687_171_349);
    assert_eq!(p.token0_real_liquidity, 79_179);
    assert_eq!(p.token1_real_liquidity, 18_446_744_073_708_828_651);
    assert!(p.is_active);
    let q = Position::new(Some(1u128 << 64), None, 1, 4, 500).unwrap();
    assert_eq!(q.sqrt_lower_bound_price, 1000);
    assert_eq!(q.sqrt_upper_bound_price, 2000);
    assert_eq!(q.liquidity_constant, 36_893_488_147_419_102);
    assert_eq!(q.token0_real_liquidity, 18_446_744_073_709_551_000);
    assert_eq!(q.token1_real_liquidity, 0);
    assert!(!q.is_active);
}

#[test]
fn pool_without_active_liquidity_quotes_nothing() {
    let mut c = Contract::new(s("owner"));
    c.create_pool(&s("owner"), s("A"), s("B"), 4_000_000).unwrap();
    assert_eq!(c.get_return(0, &s("A"), 0), Err(Error::NoActiveLiquidity));
    assert_eq!(c.get_return(0, &s("A"), 1u128 << 64), Err(Error::NoActiveLiquidity));
    assert_eq!(c.get_return(0, &s("A"), u128::MAX), Err(Error::NoActiveLiquidity));
    assert_eq!(c.get_return(0, &s("C"), 1000), Err(Error::NoActiveLiquidity));
    deposit(&mut c, "lp", "B", 12000);
    assert_eq!(c.open_position(&s("lp"), 0, None, Some(12000), 1_000_000, 2_250_000), Ok(()));
    let p = c.get_pool(0).unwrap().positions[0];
    assert!(!p.is_active);
    assert_eq!((p.token0_real_liquidity, p.token1_real_liquidity), (0, 12000));
    assert_eq!(c.get_return(0, &s("B"), 10), Err(Error::NoActiveLiquidity));
    assert_eq!(c.get_return(0, &s("C"), 1u128 << 64), Err(Error::NoActiveLiquidity));
}

#[test]
fn swap_with_short_balance_fails_before_the_quote() {
    let mut c = Contract::new(s("owner"));
    c.create_pool(&s("owner"), s("A"), s("B"), 4_000_000).unwrap();
    assert_eq!(c.swap(&s("trader"), 0, &s("A"), 1000, &s("B")), Err(Error::InsufficientBalance));
    deposit(&mut c, "trader", "A", 999);
    assert_eq!(c.swap(&s("trader"), 0, &s("A"), 1000, &s("B")), Err(Error::InsufficientBalance));
    assert_eq!(c.swap(&s("trader"), 0, &s("C"), 1, &s("B")), Err(Error::InsufficientBalance));
    assert_eq!(c.swap(&s("trader"), 0, &s("A"), 999, &s("C")), Err(Error::NoActiveLiquidity));
    assert_eq!(c.swap(&s("trader"), 1, &s("A"), 1000, &s("B")), Err(Error::BadPoolId));
    assert_eq!(c.get_balance(&s("trader"), &s("A")), 999);
    let mut f = funded_exchange();
    assert_eq!(f.swap(&s("trader"), 0, &s("A"), 1, &s("C")), Err(Error::InsufficientBalance));
    deposit(&mut f, "trader", "A", u128::MAX);
    assert_eq!(f.swap(&s("trader"), 0, &s("A"), u128::MAX, &s("B")), Err(Error::AmountOutOfRange));
    assert_eq!(f.swap(&s("trader"), 0, &s("A"), 5, &s("C")), Err(Error::AssetMismatch));
}

#[test]
fn position_of_whole_token_units() {
    let unit: u128 = 1_000_000_000_000_000_000_000_000;
    let p = Position::new(Some(unit), None, 1_000_000, 9_000_000, 2_000_000).unwrap();
    assert_eq!(p.liquidity_constant, 6 * unit);
    assert_eq!(p.token0_real_liquidity, unit);
    assert_eq!(p.token1_real_liquidity, 6 * unit);
    assert!(p.is_active);
    let q = Position::new(None, Some(u64::MAX as u128), 1_000_000, 1_000_003, 1_000_000_000)
        .unwrap();
    assert_eq!(q.liquidity_constant, 18_446_744_073_709_551_615_000_000);
    assert_eq!(q.token0_real_liquidity, 0);
    assert_eq!(q.token1_real_liquidity, 18_446_744_073_709_551_615);
    assert!(!q.is_active);
}

#[test]
fn swap_of_whole_token_units() {
    let unit: u128 = 1_000_000_000_000_000_000_000_000;
    let mut c = Contract::new(s("owner"));
    c.create_pool(&s("owner"), s("A"), s("B"), 4_000_000).unwrap();
    deposit(&mut c, "lp", "A", unit);
    deposit(&mut c, "lp", "B", 6 * unit);
    assert_eq!(c.open_position(&s("lp"), 0, Some(unit), Some(6 * unit), 1_000_000, 9_000_000), Ok(()));
    deposit(&mut c, "trader", "A", unit);
    let quote = c.get_return(0, &s("A"), unit);
    assert_eq!(quote, Ok(2_998_499_249_624_812_406_203_101));
    assert_eq!(c.swap(&s("trader"), 0, &s("A"), unit, &s("B")), quote);
    assert_eq!(c.get_balance(&s("trader"), &s("A")), 0);
    assert_eq!(c.get_balance(&s("trader"), &s("B")), 2_998_499_249_624_812_406_203_101);
    let pool = c.get_pool(0).unwrap();
    assert_eq!(pool.sqrt_price, 1_225_051);
    assert_eq!(c.get_price(0), Ok(1_500_749));
    assert_eq!(pool.positions[0].token0_real_liquidity, 2_897_755_277_127_237_968_051_942);
    assert_eq!(pool.positions[0].token1_real_liquidity, 1_350_306_000_000_000_000_000_000);
}

#[test]
fn swap_beyond_64_bits_on_a_small_pool() {
    let mut f = funded_exchange();
    deposit(&mut f, "trader", "A", 1u128 << 64);
    assert_eq!(f.get_return(0, &s("A"), 1u128 << 64), Ok(5999));
    assert_eq!(f.swap(&s("trader"), 0, &s("A"), 1u128 << 64, &s("B")), Ok(5999));
    assert_eq!(f.get_pool(0).unwrap().sqrt_price, 0);
    assert!(!f.get_pool(0).unwrap().positions[0].is_active);
    assert_eq!(f.get_return(0, &s("A"), 1), Err(Error::NoActiveLiquidity));
}

#[test]
fn wide_division_is_exact() {
    assert_eq!(mul_div(0, 5, 7), Some(0));
    assert_eq!(mul_div(10, 10, 3), Some(33));
    assert_eq!(mul_div(u128::MAX, u128::MAX, u128::MAX), Some(u128::MAX));
    assert_eq!(mul_div(u128::MAX, 3, 4), Some(255211775190703847597530955573826158591));
    assert_eq!(mul_div(u128::MAX, 2, 1), None);
    assert_eq!(mul_div(u128::MAX, u128::MAX - 1, u128::MAX), Some(u128::MAX - 1));
    assert_eq!(mul_div(1u128 << 127, 1u128 << 127, (1u128 << 127) + 1), Some((1u128 << 127) - 1));
    assert_eq!(mul_div(1u128 << 100, 1u128 << 100, 1u128 << 71), None);
    assert_eq!(mul_div(1u128 << 100, 1u128 << 100, 1u128 << 73), Some(1u128 << 127));
}

#[test]
fn position_at_the_limit_of_128_bits() {
    let p = Position::new(None, Some(u128::MAX), 1_000_000, 9_000_000, 2_000_000).unwrap();
    assert_eq!(p.liquidity_constant, u128::MAX);
    assert_eq!(p.token0_real_liquidity, 56_713_727_820_156_410_577_229_101_238_628_035_242);
    assert_eq!(p.token1_real_liquidity, u128::MAX);
    assert!(p.fits(2_000_000));
    assert!(p.fits(1_000_000));
    assert!(!p.fits(2_000_001));
    assert!(!p.fits(3_000_000));
}

#[test]
fn swap_is_refused_where_a_position_could_not_hold_its_reserves() {
    let mut c = funded_exchange();
    let side: u128 = 1u128 << 110;
    deposit(&mut c, "whale", "B", side);
    assert_eq!(c.open_position(&s("whale"), 0, None, Some(side), 1, 4), Ok(()));
    let p = c.get_pool(0).unwrap().positions[1];
    assert_eq!(p.liquidity_constant, side * 1000);
    assert_eq!((p.token0_real_liquidity, p.token1_real_liquidity, p.is_active), (0, side, false));
    assert_eq!(c.get_balance(&s("whale"), &s("B")), 0);
    deposit(&mut c, "trader", "A", 1u128 << 64);
    assert_eq!(c.get_return(0, &s("A"), 1u128 << 64), Ok(5999));
    assert_eq!(
        c.swap(&s("trader"), 0, &s("A"), 1u128 << 64, &s("B")),
        Err(Error::AmountOutOfRange)
    );
    assert_eq!(c.get_balance(&s("trader"), &s("A")), 1u128 << 64);
    assert_eq!(c.get_pool(0).unwrap().sqrt_price, 2_000_000);
    assert_eq!(c.swap(&s("trader"), 0, &s("A"), 1000, &s("B")), Ok(2998));
    assert_eq!(c.get_pool(0).unwrap().sqrt_price, 1_225_153);
}
