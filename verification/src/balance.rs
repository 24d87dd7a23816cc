use vstd::prelude::*;
use crate::errors::Error;

verus! {

/// One balance: what an account holds of one asset.
#[derive(Clone, Debug)]
pub struct BalanceEntry {
    pub account: String,
    pub token: String,
    pub amount: u128,
}

/// A request to pay an amount of an asset out to a recipient. The ledger
/// has already taken the amount from the recipient's balance.
#[derive(Clone, Debug)]
pub struct PayoutRequest {
    pub recipient: String,
    pub token: String,
    pub amount: u128,
}

/// The custodial ledger: for each account and asset an unsigned balance,
/// zero where nothing was ever recorded.
#[derive(Clone, Debug)]
pub struct AccountsInfo {
    entries: Vec<BalanceEntry>,
}

/// Entry `i` of `entries` is the balance of `account` in `token`.
pub open spec fn holds(entries: Seq<BalanceEntry>, i: int, account: Seq<char>, token: Seq<char>)
    -> bool {
    0 <= i < entries.len() && entries[i].account@ == account && entries[i].token@ == token
}

/// No two entries speak of the same account and asset.
pub open spec fn distinct_keys(entries: Seq<BalanceEntry>) -> bool {
    forall|i: int, j: int|
        0 <= i < j < entries.len() ==> !(#[trigger] entries[i].account@ == entries[j].account@
            && entries[i].token@ == #[trigger] entries[j].token@)
}

/// The balance that `entries` record for `account` in `token`.
pub open spec fn lookup(entries: Seq<BalanceEntry>, account: Seq<char>, token: Seq<char>) -> nat {
    if exists|i: int| holds(entries, i, account, token) {
        entries[choose|i: int| holds(entries, i, account, token)].amount as nat
    } else {
        0
    }
}

proof fn lemma_lookup_at(entries: Seq<BalanceEntry>, i: int, account: Seq<char>, token: Seq<char>)
    requires
        distinct_keys(entries),
        holds(entries, i, account, token),
    ensures
        lookup(entries, account, token) == entries[i].amount,
{
    let j = choose|j: int| holds(entries, j, account, token);
    if i < j {
        assert(!(entries[i].account@ == entries[j].account@ && entries[i].token@
            == entries[j].token@));
    } else if j < i {
        assert(!(entries[j].account@ == entries[i].account@ && entries[j].token@
            == entries[i].token@));
    }
}

impl AccountsInfo {
    /// The ledger's invariant: one entry at most for each account and asset.
    pub closed spec fn wf(&self) -> bool {
        distinct_keys(self.entries@)
    }

    /// The balance of `account` in `token`; zero where none is recorded.
    pub closed spec fn balance_of(&self, account: Seq<char>, token: Seq<char>) -> nat {
        lookup(self.entries@, account, token)
    }

    /// The recorded balances: one entry for each account and asset that was
    /// ever paid into.
    pub closed spec fn view(&self) -> Seq<BalanceEntry> {
        self.entries@
    }

    /// Every balance of `self` is that of `pre`, but for the balance of
    /// `account` in `token`, which is larger by `delta`.
    pub open spec fn differs_by(
        &self,
        pre: &AccountsInfo,
        account: Seq<char>,
        token: Seq<char>,
        delta: int,
    ) -> bool {
        forall|a: Seq<char>, t: Seq<char>|
            #[trigger] self.balance_of(a, t) == if a == account && t == token {
                pre.balance_of(a, t) + delta
            } else {
                pre.balance_of(a, t) as int
            }
    }

    /// Every balance of `self` is that of `pre`, but that the balance of
    /// `account` in `token_a` is larger by `delta_a` and that in `token_b`
    /// by `delta_b`; where the two assets are one, by both.
    pub open spec fn moved(
        &self,
        pre: &AccountsInfo,
        account: Seq<char>,
        token_a: Seq<char>,
        delta_a: int,
        token_b: Seq<char>,
        delta_b: int,
    ) -> bool {
        forall|a: Seq<char>, t: Seq<char>|
            #[trigger] self.balance_of(a, t) == pre.balance_of(a, t) + (if a == account && t
                == token_a {
                delta_a
            } else {
                0
            }) + (if a == account && t == token_b {
                delta_b
            } else {
                0
            })
    }

    /// The ledger in which every balance is zero.
    pub fn new() -> (r: AccountsInfo)
        ensures
            r.wf(),
            forall|a: Seq<char>, t: Seq<char>| r.balance_of(a, t) == 0,
    {
        AccountsInfo { entries: Vec::new() }
    }

    /// The recorded balances, for storing them elsewhere.
    pub fn entries(&self) -> (r: &Vec<BalanceEntry>)
        ensures
            r@ == self@,
            distinct_keys(r@) == self.wf(),
            forall|a: Seq<char>, t: Seq<char>| #[trigger] self.balance_of(a, t) == lookup(r@, a, t),
    {
        &self.entries
    }

    fn find(&self, account: &String, token: &String) -> (r: Option<usize>)
        ensures
            match r {
                Some(i) => holds(self.entries@, i as int, account@, token@),
                None => forall|i: int| !holds(self.entries@, i, account@, token@),
            },
    {
        let mut i: usize = 0;
        while i < self.entries.len()
            invariant
                i <= self.entries.len(),
                forall|k: int| 0 <= k < i ==> !holds(self.entries@, k, account@, token@),
            decreases self.entries.len() - i,
        {
            if self.entries[i].account == *account && self.entries[i].token == *token {
                return Some(i);
            }
            i += 1;
        }
        None
    }

    /// The balance of `account` in `token`: zero for an account or an asset
    /// that the ledger has never seen.
    pub fn get_balance(&self, account: &String, token: &String) -> (r: u128)
        requires
            self.wf(),
        ensures
            r == self.balance_of(account@, token@),
    {
        match self.find(account, token) {
            Some(i) => {
                proof {
                    lemma_lookup_at(self.entries@, i as int, account@, token@);
                }
                self.entries[i].amount
            },
            None => 0,
        }
    }

    /// Adds `amount` to the balance of `account` in `token`, recording the
    /// balance where there was none.
    pub fn increase_balance(&mut self, account: &String, token: &String, amount: u128)
        requires
            old(self).wf(),
            old(self).balance_of(account@, token@) + amount <= u128::MAX,
        ensures
            final(self).wf(),
            final(self).differs_by(old(self), account@, token@, amount as int),
    {
        let ghost pre = self.entries@;
        match self.find(account, token) {
            Some(i) => {
                proof {
                    lemma_lookup_at(pre, i as int, account@, token@);
                }
                let sum: u128 = self.entries[i].amount + amount;
                self.entries[i].amount = sum;
                proof {
                    let post = self.entries@;
                    lemma_same_keys(pre, post, i as int, account@, token@);
                    assert forall|a: Seq<char>, t: Seq<char>|
                        lookup(post, a, t) == if a == account@ && t == token@ {
                            lookup(pre, a, t) + amount
                        } else {
                            lookup(pre, a, t) as int
                        } by {
                        lemma_same_keys(pre, post, i as int, a, t);
                    }
                }
            },
            None => {
                self.entries.push(
                    BalanceEntry { account: account.clone(), token: token.clone(), amount },
                );
                proof {
                    let post = self.entries@;
                    assert(post.drop_last() =~= pre);
                    lemma_pushed(pre, post, account@, token@);
                    assert forall|a: Seq<char>, t: Seq<char>|
                        lookup(post, a, t) == if a == account@ && t == token@ {
                            lookup(pre, a, t) + amount
                        } else {
                            lookup(pre, a, t) as int
                        } by {
                        lemma_pushed(pre, post, a, t);
                    }
                }
            },
        }
    }

    /// Takes `amount` from the balance of `account` in `token`, or fails and
    /// changes nothing where the balance is smaller than `amount`.
    pub fn decrease_balance(&mut self, account: &String, token: &String, amount: u128) -> (r:
        Result<(), Error>)
        requires
            old(self).wf(),
        ensures
            final(self).wf(),
            r is Err <==> amount > old(self).balance_of(account@, token@),
            r is Err ==> r == Err::<(), Error>(Error::InsufficientBalance) && *final(self) == *old(
                self,
            ),
            r is Ok ==> final(self).differs_by(old(self), account@, token@, -(amount as int)),
    {
        let ghost pre = self.entries@;
        match self.find(account, token) {
            Some(i) => {
                proof {
                    lemma_lookup_at(pre, i as int, account@, token@);
                }
                if amount > self.entries[i].amount {
                    return Err(Error::InsufficientBalance);
                }
                let rest: u128 = self.entries[i].amount - amount;
                self.entries[i].amount = rest;
                proof {
                    let post = self.entries@;
                    lemma_same_keys(pre, post, i as int, account@, token@);
                    assert forall|a: Seq<char>, t: Seq<char>|
                        lookup(post, a, t) == if a == account@ && t == token@ {
                            lookup(pre, a, t) - amount
                        } else {
                            lookup(pre, a, t) as int
                        } by {
                        lemma_same_keys(pre, post, i as int, a, t);
                    }
                }
                Ok(())
            },
            None => {
                if amount > 0 {
                    Err(Error::InsufficientBalance)
                } else {
                    Ok(())
                }
            },
        }
    }

    /// Takes `amount` from the balance of `account` in `token` and hands
    /// back the payout to request. The balance is reduced before anything
    /// is sent; where the payout later fails, `refund` restores it.
    pub fn withdraw(&mut self, account: &String, token: &String, amount: u128) -> (r: Result<
        PayoutRequest,
        Error,
    >)
        requires
            old(self).wf(),
        ensures
            final(self).wf(),
            r is Err <==> amount > old(self).balance_of(account@, token@),
            r is Err ==> r.unwrap_err() == Error::InsufficientBalance && *final(self) == *old(
                self,
            ),
            r is Ok ==> final(self).differs_by(old(self), account@, token@, -(amount as int))
                && r.unwrap().recipient@ == account@ && r.unwrap().token@ == token@
                && r.unwrap().amount == amount,
    {
        match self.decrease_balance(account, token, amount) {
            Err(e) => Err(e),
            Ok(()) => Ok(
                PayoutRequest { recipient: account.clone(), token: token.clone(), amount },
            ),
        }
    }

    /// Gives back what a failed payout had taken, as far as the balance can
    /// hold it. Returns whether the balance was restored.
    pub fn refund(&mut self, payout: &PayoutRequest) -> (r: bool)
        requires
            old(self).wf(),
        ensures
            final(self).wf(),
            r <==> old(self).balance_of(payout.recipient@, payout.token@) + payout.amount
                <= u128::MAX,
            r ==> final(self).differs_by(
                old(self),
                payout.recipient@,
                payout.token@,
                payout.amount as int,
            ),
            !r ==> *final(self) == *old(self),
    {
        let held: u128 = self.get_balance(&payout.recipient, &payout.token);
        if payout.amount > u128::MAX - held {
            false
        } else {
            self.increase_balance(&payout.recipient, &payout.token, payout.amount);
            true
        }
    }

    /// The balances of `account` that are not zero, each asset once with
    /// its amount.
    pub fn get_balance_all_tokens(&self, account: &String) -> (r: Vec<(String, u128)>)
        requires
            self.wf(),
        ensures
            forall|k: int|
                0 <= k < r@.len() ==> (#[trigger] r@[k]).1 > 0 && r@[k].1 == self.balance_of(
                    account@,
                    r@[k].0@,
                ),
            forall|t: Seq<char>|
                self.balance_of(account@, t) > 0 ==> exists|k: int|
                    0 <= k < r@.len() && (#[trigger] r@[k]).0@ == t,
            forall|k: int, m: int|
                0 <= k < m < r@.len() ==> (#[trigger] r@[k]).0@ != (#[trigger] r@[m]).0@,
    {
        let mut r: Vec<(String, u128)> = Vec::new();
        let ghost mut idx: Seq<int> = Seq::empty();
        let n: usize = self.entries.len();
        let mut i: usize = 0;
        while i < n
            invariant
                i <= n,
                n == self.entries@.len(),
                idx.len() == r@.len(),
                forall|k: int|
                    0 <= k < r@.len() ==> 0 <= #[trigger] idx[k] < i && self.entries@[idx[k]].account@
                        == account@ && self.entries@[idx[k]].token@ == r@[k].0@
                        && self.entries@[idx[k]].amount == r@[k].1 && r@[k].1 > 0,
                forall|k: int, m: int| 0 <= k < m < idx.len() ==> #[trigger] idx[k] < #[trigger] idx[m],
                forall|j: int|
                    0 <= j < i && (#[trigger] self.entries@[j]).account@ == account@
                        && self.entries@[j].amount > 0 ==> exists|k: int|
                        0 <= k < idx.len() && #[trigger] idx[k] == j,
            decreases n - i,
        {
            if self.entries[i].account == *account && self.entries[i].amount > 0 {
                let ghost before = idx;
                let ghost listed = r@;
                r.push((self.entries[i].token.clone(), self.entries[i].amount));
                proof {
                    idx = idx.push(i as int);
                    assert(idx[before.len() as int] == i);
                    assert forall|j: int|
                        0 <= j < i + 1 && (#[trigger] self.entries@[j]).account@ == account@
                            && self.entries@[j].amount > 0 implies exists|k: int|
                        0 <= k < idx.len() && #[trigger] idx[k] == j by {
                        if j < i {
                            let k = choose|k: int| 0 <= k < before.len() && #[trigger] before[k] == j;
                            assert(idx[k] == j);
                        }
                    }
                    assert forall|k: int| 0 <= k < r@.len() implies 0 <= #[trigger] idx[k] < i + 1
                        && self.entries@[idx[k]].account@ == account@
                        && self.entries@[idx[k]].token@ == r@[k].0@
                        && self.entries@[idx[k]].amount == r@[k].1 && r@[k].1 > 0 by {
                        if k < before.len() {
                            assert(idx[k] == before[k]);
                            assert(r@[k] == listed[k]);
                        }
                    }
                    assert forall|k: int, m: int| 0 <= k < m < idx.len() implies #[trigger] idx[k]
                        < #[trigger] idx[m] by {
                        assert(idx[k] == before[k]);
                        if m < before.len() {
                            assert(idx[m] == before[m]);
                        }
                    }
                }
            }
            i += 1;
        }
        proof {
            let entries = self.entries@;
            assert forall|k: int| 0 <= k < r@.len() implies (#[trigger] r@[k]).1 > 0 && r@[k].1
                == self.balance_of(account@, r@[k].0@) by {
                assert(0 <= idx[k] < n);
                lemma_lookup_at(entries, idx[k], account@, r@[k].0@);
            }
            assert forall|t: Seq<char>| self.balance_of(account@, t) > 0 implies exists|k: int|
                0 <= k < r@.len() && (#[trigger] r@[k]).0@ == t by {
                let j = choose|j: int| holds(entries, j, account@, t);
                lemma_lookup_at(entries, j, account@, t);
                assert(entries[j].account@ == account@);
                let k = choose|k: int| 0 <= k < idx.len() && #[trigger] idx[k] == j;
                assert(r@[k].0@ == t);
            }
            assert forall|k: int, m: int| 0 <= k < m < r@.len() implies (#[trigger] r@[k]).0@ != (
            #[trigger] r@[m]).0@ by {
                assert(idx[k] < idx[m]);
                assert(!(entries[idx[k]].account@ == entries[idx[m]].account@
                    && entries[idx[k]].token@ == entries[idx[m]].token@));
            }
        }
        r
    }
}

proof fn lemma_same_keys(
    pre: Seq<BalanceEntry>,
    post: Seq<BalanceEntry>,
    i: int,
    a: Seq<char>,
    t: Seq<char>,
)
    requires
        distinct_keys(pre),
        0 <= i < pre.len(),
        post.len() == pre.len(),
        forall|k: int| 0 <= k < pre.len() ==> (#[trigger] post[k]).account == pre[k].account,
        forall|k: int| 0 <= k < pre.len() ==> (#[trigger] post[k]).token == pre[k].token,
        forall|k: int| 0 <= k < pre.len() && k != i ==> (#[trigger] post[k]).amount == pre[k].amount,
    ensures
        distinct_keys(post),
        lookup(post, a, t) == if holds(pre, i, a, t) {
            post[i].amount as nat
        } else {
            lookup(pre, a, t)
        },
{
    assert forall|x: int, y: int| 0 <= x < y < post.len() implies !(#[trigger] post[x].account@
        == post[y].account@ && post[x].token@ == #[trigger] post[y].token@) by {
        assert(!(pre[x].account@ == pre[y].account@ && pre[x].token@ == pre[y].token@));
    }
    assert forall|k: int| holds(post, k, a, t) == holds(pre, k, a, t) by {
        if 0 <= k < pre.len() {
            assert(post[k].account == pre[k].account);
            assert(post[k].token == pre[k].token);
        }
    }
    if exists|k: int| holds(pre, k, a, t) {
        let k = choose|k: int| holds(pre, k, a, t);
        assert(holds(post, k, a, t));
        lemma_lookup_at(pre, k, a, t);
        lemma_lookup_at(post, k, a, t);
        if holds(pre, i, a, t) {
            lemma_lookup_at(pre, i, a, t);
            lemma_lookup_at(post, i, a, t);
        } else {
            assert(k != i);
        }
    } else {
        assert(!holds(pre, i, a, t));
        assert forall|k: int| !holds(post, k, a, t) by {
            assert(holds(post, k, a, t) == holds(pre, k, a, t));
        }
    }
}

proof fn lemma_pushed(pre: Seq<BalanceEntry>, post: Seq<BalanceEntry>, a: Seq<char>, t: Seq<char>)
    requires
        distinct_keys(pre),
        post.len() == pre.len() + 1,
        post.drop_last() == pre,
        forall|k: int| !holds(pre, k, post.last().account@, post.last().token@),
    ensures
        distinct_keys(post),
        lookup(post, a, t) == if a == post.last().account@ && t == post.last().token@ {
            post.last().amount as nat
        } else {
            lookup(pre, a, t)
        },
{
    let n = pre.len() as int;
    assert forall|k: int| 0 <= k < n implies post[k] == pre[k] by {
        assert(post.drop_last()[k] == post[k]);
    }
    assert forall|x: int, y: int| 0 <= x < y < post.len() implies !(#[trigger] post[x].account@
        == post[y].account@ && post[x].token@ == #[trigger] post[y].token@) by {
        if y < n {
            assert(!(pre[x].account@ == pre[y].account@ && pre[x].token@ == pre[y].token@));
        } else {
            assert(!holds(pre, x, post.last().account@, post.last().token@));
        }
    }
    if a == post.last().account@ && t == post.last().token@ {
        assert(holds(post, n, a, t));
        lemma_lookup_at(post, n, a, t);
    } else if exists|k: int| holds(pre, k, a, t) {
        let k = choose|k: int| holds(pre, k, a, t);
        assert(holds(post, k, a, t));
        lemma_lookup_at(pre, k, a, t);
        lemma_lookup_at(post, k, a, t);
    } else {
        assert forall|k: int| !holds(post, k, a, t) by {
            if 0 <= k < n {
                assert(!holds(pre, k, a, t));
            }
        }
    }
}

} // verus!
