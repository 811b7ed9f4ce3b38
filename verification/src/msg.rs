//! Instructions the protocol emits alongside its state changes, and the
//! read-projection response shapes.

use vstd::prelude::*;
use crate::state::{InFlightTransfer, PendingReply, ReplyKind};

verus! {

/// An instruction emitted by an operation for the host to carry out:
/// token custody (mint, burn, withdraw), the self-triggered batch
/// submission, and the cross-chain transfer of an unbonded amount.
#[derive(Debug, Clone, PartialEq, Eq)]
pub enum ProtocolMsg {
    Mint { amount: u128, recipient: String },
    Burn { amount: u128 },
    TriggerSubmitBatch { batch_id: u64 },
    SendUnbondTransfer { sequence: u64, batch_id: u64, amount: u128, receiver: String },
    Withdraw { amount: u128, recipient: String },
}

/// The outcome a reply delivers for a dispatched message. A failure is
/// itself a successful delivery, handled as data.
#[derive(Debug, Clone, Copy, PartialEq, Eq, Structural)]
pub enum ReplyOutcome {
    Success,
    Failure,
    Timeout,
}

/// How a reply was reconciled against the tracker.
#[derive(Debug, Clone, Copy, PartialEq, Eq, Structural)]
pub enum ReplyDisposition {
    /// The unbonding transfer completed; the batch was settled.
    TransferReceived { batch_id: u64, amount: u128 },
    /// The transfer failed or timed out; the entry is kept, marked, for
    /// operator reconciliation.
    TransferUnresolved { batch_id: u64, amount: u128 },
    /// A mint or burn instruction completed.
    MessageConfirmed { kind: ReplyKind },
    /// A mint or burn instruction failed or timed out; surfaced for
    /// operator reconciliation.
    MessageUnresolved { kind: ReplyKind },
}

/// The report `on_reply` returns for a correlated reply.
#[derive(Debug, Clone, Copy, PartialEq, Eq, Structural)]
pub struct ReplyReport {
    pub sequence: u64,
    pub disposition: ReplyDisposition,
}

#[derive(Debug, Clone, PartialEq, Eq)]
pub struct ConfigResponse {
    pub native_token_denom: String,
    pub liquid_stake_token_denom: String,
    pub treasury_address: String,
    pub operators: Vec<String>,
    pub validators: Vec<String>,
    pub batch_period: u64,
    pub unbonding_period: u64,
    pub minimum_liquid_stake_amount: u128,
    pub staker_address: String,
    pub reward_collector_address: String,
}

#[derive(Debug, Clone, PartialEq, Eq)]
pub struct StateResponse {
    pub total_native_token: u128,
    pub total_liquid_stake_token: u128,
    /// Derivative per native token as a fixed-point number with eighteen
    /// fractional decimal digits; zero for an empty pool.
    pub rate: u128,
    pub pending_owner: String,
    pub total_reward_amount: u128,
}

#[derive(Debug, Clone, PartialEq, Eq)]
pub struct LiquidUnstakeRequestResponse {
    pub user: String,
    pub amount: u128,
    pub redeemed: bool,
}

#[derive(Debug, Clone, PartialEq, Eq)]
pub struct BatchResponse {
    pub id: u64,
    pub batch_total_liquid_stake: u128,
    pub expected_native_unstaked: u128,
    pub received_native_unstaked: u128,
    pub next_batch_action_time: u64,
    pub status: String,
    pub requests: Vec<LiquidUnstakeRequestResponse>,
}

#[derive(Debug, Clone, PartialEq, Eq)]
pub struct BatchesResponse {
    pub batches: Vec<BatchResponse>,
}

#[derive(Debug, Clone, PartialEq, Eq)]
pub struct IBCQueueResponse {
    pub ibc_queue: Vec<InFlightTransfer>,
}

#[derive(Debug, Clone, PartialEq, Eq)]
pub struct IBCReplyQueueResponse {
    pub ibc_queue: Vec<PendingReply>,
}

} // verus!
