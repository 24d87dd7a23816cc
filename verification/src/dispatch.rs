use vstd::prelude::*;
use crate::errors::Error;
use crate::action::{Action, Step, Payload};
use crate::exchange::Contract;

verus! {

/// The view of an optional asset name.
pub open spec fn asset_view(asset: Option<String>) -> Option<Seq<char>> {
    match asset {
        Some(name) => Some(name@),
        None => None,
    }
}

/// How a run over a batch ended.
#[derive(Clone, Copy, Debug, PartialEq, Eq, Structural)]
pub enum BatchStatus {
    /// Every action was applied.
    Done,
    /// The action at the index `applied` was refused with this error. What
    /// the actions before it did stays done.
    Failed(Error),
    /// The action at the index `applied` belongs to the lending side. The
    /// caller forwards it and resumes the batch behind it.
    Delegated,
}

/// What a run over a batch did.
#[derive(Clone, Debug)]
pub struct BatchOutcome {
    /// Index of the first action that was not applied; the length of the
    /// batch where all were.
    pub applied: usize,
    pub status: BatchStatus,
    /// What each applied action left, in order.
    pub steps: Vec<Step>,
}

impl Contract {
    /// `post` and `r` are what one action of a batch by `caller` makes of
    /// `pre`. `deposited` is the asset that came with the batch, if it came
    /// with a transfer: a swap must then take that asset. No action of the
    /// lending side is ever applied here.
    pub open spec fn action_post(
        pre: &Contract,
        post: &Contract,
        caller: Seq<char>,
        deposited: Option<Seq<char>>,
        action: Action,
        r: Result<Step, Error>,
    ) -> bool {
        match action {
            Action::Swap(a) => if deposited is Some && deposited.unwrap() != a.token_in@ {
                r == Err::<Step, Error>(Error::AssetMismatch) && *post == *pre
            } else {
                match r {
                    Ok(Step::Swapped(v)) => Self::swap_post(
                        pre,
                        post,
                        caller,
                        a.pool_id,
                        a.token_in@,
                        a.amount_in,
                        a.token_out@,
                        Ok(v),
                    ),
                    Err(e) => Self::swap_post(
                        pre,
                        post,
                        caller,
                        a.pool_id,
                        a.token_in@,
                        a.amount_in,
                        a.token_out@,
                        Err(e),
                    ),
                    _ => false,
                }
            },
            Action::Withdraw(a) => match r {
                Ok(Step::Payout(p)) => Self::withdraw_post(
                    pre,
                    post,
                    caller,
                    a.token@,
                    a.amount,
                    Ok(p),
                ),
                Err(e) => Self::withdraw_post(pre, post, caller, a.token@, a.amount, Err(e)),
                _ => false,
            },
            Action::MultihopSwap(a) => match r {
                Ok(Step::Swapped(v)) => Self::multihop_post(
                    pre,
                    post,
                    caller,
                    a.token_in@,
                    a.amount_in,
                    a.legs@,
                    Ok(v),
                ),
                Err(e) => Self::multihop_post(
                    pre,
                    post,
                    caller,
                    a.token_in@,
                    a.amount_in,
                    a.legs@,
                    Err(e),
                ),
                _ => false,
            },
            Action::OpenPosition(a) => match r {
                Ok(Step::Requested) => Self::request_post(pre, post, caller, a, Ok(())),
                Err(e) => Self::request_post(pre, post, caller, a, Err(e)),
                _ => false,
            },
            _ => false,
        }
    }

    /// `trace` holds the exchange before and after each of the `n` actions
    /// from the index `start` on, and `steps` what each of them left: every
    /// one of them was applied.
    pub open spec fn batch_applied(
        trace: Seq<Contract>,
        steps: Seq<Step>,
        caller: Seq<char>,
        deposited: Option<Seq<char>>,
        actions: Seq<Action>,
        start: int,
        n: int,
    ) -> bool {
        &&& trace.len() == n + 1
        &&& steps.len() == n
        &&& forall|j: int|
            0 <= j < n ==> Self::action_post(
                &trace[j],
                &trace[j + 1],
                caller,
                deposited,
                actions[start + j],
                Ok(#[trigger] steps[j]),
            )
    }

    /// `post` and `r` are what a run over `actions` from the index `start`
    /// on makes of `pre`; a start behind the end of the batch leaves
    /// nothing to do. The actions are applied in order, each on what the
    /// one before left. The run ends behind the last action, at the
    /// first action of the lending side, or at the first action that is
    /// refused; what was applied before stays applied.
    pub open spec fn batch_post(
        pre: &Contract,
        post: &Contract,
        caller: Seq<char>,
        deposited: Option<Seq<char>>,
        actions: Seq<Action>,
        start: usize,
        r: BatchOutcome,
    ) -> bool {
        &&& start > actions.len() ==> r.applied == start && r.status == BatchStatus::Done
            && r.steps@.len() == 0 && *post == *pre
        &&& start <= actions.len() ==> start <= r.applied <= actions.len()
        &&& start <= actions.len() ==> exists|trace: Seq<Contract>|
            {
                &&& #[trigger] Self::batch_applied(
                    trace,
                    r.steps@,
                    caller,
                    deposited,
                    actions,
                    start as int,
                    r.applied - start,
                )
                &&& trace[0] == *pre
                &&& match r.status {
                    BatchStatus::Done => r.applied == actions.len() && trace[r.applied - start]
                        == *post,
                    BatchStatus::Delegated => r.applied < actions.len()
                        && actions[r.applied as int].is_delegated() && trace[r.applied - start]
                        == *post,
                    BatchStatus::Failed(e) => r.applied < actions.len() && Self::action_post(
                        &trace[r.applied - start],
                        post,
                        caller,
                        deposited,
                        actions[r.applied as int],
                        Err(e),
                    ),
                }
            }
    }

    /// Applies one action that is not of the lending side.
    fn apply(&mut self, caller: &String, deposited: &Option<String>, action: &Action) -> (r: Result<
        Step,
        Error,
    >)
        requires
            old(self).wf(),
            !action.is_delegated(),
        ensures
            final(self).wf(),
            Self::action_post(old(self), final(self), caller@, asset_view(*deposited), *action, r),
    {
        match action {
            Action::Swap(a) => {
                let funded: bool = match deposited {
                    Some(token) => *token == a.token_in,
                    None => true,
                };
                if !funded {
                    return Err(Error::AssetMismatch);
                }
                match self.swap(caller, a.pool_id, &a.token_in, a.amount_in, &a.token_out) {
                    Ok(v) => Ok(Step::Swapped(v)),
                    Err(e) => Err(e),
                }
            },
            Action::Withdraw(a) => match self.withdraw(caller, &a.token, a.amount) {
                Ok(p) => Ok(Step::Payout(p)),
                Err(e) => Err(e),
            },
            Action::MultihopSwap(a) => match self.swap_multihop(
                caller,
                &a.token_in,
                a.amount_in,
                &a.legs,
            ) {
                Ok(v) => Ok(Step::Swapped(v)),
                Err(e) => Err(e),
            },
            Action::OpenPosition(a) => match self.request_position(caller, a) {
                Ok(()) => Ok(Step::Requested),
                Err(e) => Err(e),
            },
            _ => Err(Error::Unsupported),
        }
    }

    /// Runs over a batch of actions by `caller` from the index `start` on.
    pub fn internal_execute(
        &mut self,
        caller: &String,
        deposited: &Option<String>,
        actions: &Vec<Action>,
        start: usize,
    ) -> (r: BatchOutcome)
        requires
            old(self).wf(),
        ensures
            final(self).wf(),
            Self::batch_post(
                old(self),
                final(self),
                caller@,
                asset_view(*deposited),
                actions@,
                start,
                r,
            ),
    {
        let ghost mut trace: Seq<Contract> = seq![*self];
        let ghost dep = asset_view(*deposited);
        let mut steps: Vec<Step> = Vec::new();
        if start > actions.len() {
            return BatchOutcome { applied: start, status: BatchStatus::Done, steps };
        }
        let mut i: usize = start;
        while i < actions.len()
            invariant
                self.wf(),
                start <= i <= actions.len(),
                dep == asset_view(*deposited),
                Self::batch_applied(trace, steps@, caller@, dep, actions@, start as int, i - start),
                trace[0] == *old(self),
                trace[i - start] == *self,
            decreases actions.len() - i,
        {
            let delegated: bool = match &actions[i] {
                Action::AddLiquidity(_) => true,
                Action::CreateDeposit(_) => true,
                Action::ReturnCollateralAndRepay(_) => true,
                Action::Liquidate(_) => true,
                _ => false,
            };
            if delegated {
                let outcome = BatchOutcome { applied: i, status: BatchStatus::Delegated, steps };
                proof {
                    assert(Self::batch_applied(
                        trace,
                        outcome.steps@,
                        caller@,
                        dep,
                        actions@,
                        start as int,
                        outcome.applied - start,
                    ));
                }
                return outcome;
            }
            match self.apply(caller, deposited, &actions[i]) {
                Err(e) => {
                    let outcome = BatchOutcome { applied: i, status: BatchStatus::Failed(e), steps };
                    proof {
                        assert(Self::batch_applied(
                            trace,
                            outcome.steps@,
                            caller@,
                            dep,
                            actions@,
                            start as int,
                            outcome.applied - start,
                        ));
                    }
                    return outcome;
                },
                Ok(step) => {
                    proof {
                        let longer = trace.push(*self);
                        let more = steps@.push(step);
                        assert forall|j: int| 0 <= j < i - start + 1 implies Self::action_post(
                            &longer[j],
                            &longer[j + 1],
                            caller@,
                            dep,
                            actions@[start + j],
                            Ok(#[trigger] more[j]),
                        ) by {
                            if j < i - start {
                                assert(longer[j] == trace[j]);
                                assert(longer[j + 1] == trace[j + 1]);
                                assert(more[j] == steps@[j]);
                            }
                        }
                        trace = longer;
                    }
                    steps.push(step);
                },
            }
            i += 1;
        }
        let outcome = BatchOutcome { applied: i, status: BatchStatus::Done, steps };
        proof {
            assert(Self::batch_applied(
                trace,
                outcome.steps@,
                caller@,
                dep,
                actions@,
                start as int,
                outcome.applied - start,
            ));
        }
        outcome
    }

    /// `post` and `r` are what an inbound transfer of `amount` of `token`
    /// from `sender` makes of `pre`. A payload that cannot be read, or an
    /// amount that the balance cannot hold, refuses the transfer and
    /// changes nothing. Otherwise the amount is in the sender's balance
    /// before the first action of the payload runs.
    pub open spec fn transfer_post(
        pre: &Contract,
        post: &Contract,
        sender: Seq<char>,
        token: Seq<char>,
        amount: u128,
        payload: Payload,
        r: Result<BatchOutcome, Error>,
    ) -> bool {
        if payload is Malformed {
            r is Err && r.unwrap_err() == Error::MalformedPayload && *post == *pre
        } else if pre.accounts.balance_of(sender, token) + amount > u128::MAX {
            r is Err && r.unwrap_err() == Error::AmountOutOfRange && *post == *pre
        } else {
            &&& r is Ok
            &&& exists|mid: Contract|
                {
                    &&& #[trigger] mid.accounts.differs_by(
                        &pre.accounts,
                        sender,
                        token,
                        amount as int,
                    )
                    &&& mid.owner_id == pre.owner_id
                    &&& mid.pools == pre.pools
                    &&& mid.open_position_requests == pre.open_position_requests
                    &&& match payload {
                        Payload::Execute(actions) => Self::batch_post(
                            &mid,
                            post,
                            sender,
                            Some(token),
                            actions@,
                            0,
                            r.unwrap(),
                        ),
                        _ => *post == mid && r.unwrap().applied == 0 && r.unwrap().status
                            == BatchStatus::Done && r.unwrap().steps@.len() == 0,
                    }
                }
        }
    }

    /// Takes an inbound transfer: pays the amount into the sender's
    /// balance, then runs the batch of the payload, if it holds one, on
    /// behalf of the sender.
    pub fn ft_on_transfer(
        &mut self,
        sender_id: &String,
        token_in: &String,
        amount: u128,
        payload: &Payload,
    ) -> (r: Result<BatchOutcome, Error>)
        requires
            old(self).wf(),
        ensures
            final(self).wf(),
            Self::transfer_post(old(self), final(self), sender_id@, token_in@, amount, *payload, r),
    {
        if let Payload::Malformed = payload {
            return Err(Error::MalformedPayload);
        }
        let held: u128 = self.accounts.get_balance(sender_id, token_in);
        if amount > u128::MAX - held {
            return Err(Error::AmountOutOfRange);
        }
        self.accounts.increase_balance(sender_id, token_in, amount);
        let ghost mid = *self;
        match payload {
            Payload::Execute(actions) => {
                let deposited: Option<String> = Some(token_in.clone());
                let outcome = self.internal_execute(sender_id, &deposited, actions, 0);
                assert(mid.accounts.differs_by(
                    &old(self).accounts,
                    sender_id@,
                    token_in@,
                    amount as int,
                ));
                Ok(outcome)
            },
            _ => {
                assert(mid.accounts.differs_by(
                    &old(self).accounts,
                    sender_id@,
                    token_in@,
                    amount as int,
                ));
                Ok(BatchOutcome { applied: 0, status: BatchStatus::Done, steps: Vec::new() })
            },
        }
    }
}

} // verus!
