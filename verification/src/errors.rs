use vstd::prelude::*;

verus! {

/// Why an operation of the exchange failed.
#[derive(Clone, Copy, Debug, PartialEq, Eq, Structural)]
pub enum Error {
    /// The pool index is not below the number of pools.
    BadPoolId,
    /// A debit is larger than the balance it is taken from.
    InsufficientBalance,
    /// The pool holds no active reserve on one of its two sides, or the
    /// requested output is not below the active reserve.
    NoActiveLiquidity,
    /// The instruction payload could not be read as a batch of actions.
    MalformedPayload,
    /// The second call of a two-phase opening disagrees with the pending
    /// request in owner, pool or bounds.
    ProtocolMismatch,
    /// The first call of a two-phase opening supplied neither or both sides.
    DuplicateOrMissingSide,
    /// The second call of a two-phase opening supplied the side that the
    /// pending request already holds, or not exactly one side.
    DuplicateRequest,
    /// The request identifier is spent: its position was opened before.
    RequestNotFound,
    /// A privileged operation was called by someone other than the owner.
    PermissionDenied,
    /// The asset is not one of the pool's pair, or not the asset that was
    /// deposited with the batch.
    AssetMismatch,
    /// A value cannot be held in 128 bits: the liquidity constant that the
    /// sides give, the most that a range can hold of an asset, an active
    /// reserve, the reserve that an input would leave, or a balance.
    AmountOutOfRange,
    /// The price bounds do not form a range: the square-root price of the
    /// lower one is zero, or not below that of the upper one.
    BadPriceRange,
    /// The operation exists in name only.
    Unsupported,
}

} // verus!
