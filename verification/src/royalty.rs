use vstd::prelude::*;

verus! {

/// One share of a payout: the account that is paid and the amount.
#[derive(Clone, Debug)]
pub struct PayoutShare {
    pub account: String,
    pub amount: u128,
}

/// How a sale price of a non-fungible token is split among accounts.
#[derive(Clone, Debug)]
pub struct Payout {
    pub payout: Vec<PayoutShare>,
}

/// What a registry of non-fungible tokens offers to a marketplace. The
/// exchange only names the interface; the registry that implements it
/// decides how a price is split.
pub trait NonFungibleTokenCore {
    /// The split of `balance` among the parties of `token_id`, with at
    /// most `max_len_payout` shares.
    fn nft_payout(&self, token_id: String, balance: u128, max_len_payout: u32) -> Payout;

    /// Transfers `token_id` to `receiver_id` and returns the split of
    /// `balance` among the parties it had before.
    fn nft_transfer_payout(
        &mut self,
        receiver_id: String,
        token_id: String,
        approval_id: u64,
        memo: Option<String>,
        balance: u128,
        max_len_payout: u32,
    ) -> Payout;
}

} // verus!
