//! Error taxonomy of the protocol: validation, invariant, authorization and
//! reconciliation failures, all returned synchronously by the operation that
//! detected them.

use vstd::prelude::*;

verus! {

#[derive(Debug, Clone, PartialEq, Eq)]
pub enum ContractError {
    /// A stake or unstake amount did not exceed the configured minimum.
    MinimumLiquidStakeAmount { minimum_stake_amount: u128, sent_amount: u128 },
    /// A non-zero deposit rounded down to zero minted shares.
    MintError,
    /// The caller is not allowed to perform the operation.
    Unauthorized,
    /// No ownership transfer is pending for this caller.
    NoPendingOwner,
    /// The validator is already registered.
    DuplicateValidator { validator: String },
    /// The validator is not registered.
    ValidatorNotFound { validator: String },
    /// A batch submission named an id other than the open batch's id.
    InvalidBatchId { pending_id: u64, submitted_id: u64 },
    /// No archived batch carries this id.
    BatchNotFound { id: u64 },
    /// The batch is not in the status the operation needs.
    UnexpectedBatchStatus { id: u64 },
    /// The user has no unstake request in this batch.
    NoRequestInBatch { id: u64 },
    /// The user's claim in this batch was already redeemed.
    AlreadyRedeemed { id: u64 },
    /// A reply arrived for an identifier no dispatched message is waiting on.
    UnknownReply { sequence: u64 },
}

pub type ContractResult<T> = Result<T, ContractError>;

} // verus!
