//! Persistent protocol state: configuration, the pool totals, the single
//! open batch plus the archive of closed batches, and the cross-chain
//! transfer tracker's two collections.

use vstd::prelude::*;
use crate::staking::{sum_shares, Batch};

verus! {

#[derive(Debug, Clone, PartialEq, Eq)]
pub struct ProtocolFeeConfig {
    pub dao_treasury_fee: u128,
}

#[derive(Debug, Clone, PartialEq, Eq)]
pub struct MultisigAddressConfig {
    pub controller_address: String,
    pub staker_address: String,
    pub reward_collector_address: String,
}

/// Protocol configuration, fixed at instantiation and mutated only by the
/// administrative operations.
#[derive(Debug, Clone, PartialEq, Eq)]
pub struct Config {
    pub native_token_denom: String,
    pub liquid_stake_token_denom: String,
    pub treasury_address: String,
    pub node_operators: Vec<String>,
    pub validators: Vec<String>,
    pub batch_period: u64,
    pub unbonding_period: u64,
    pub protocol_fee_config: ProtocolFeeConfig,
    pub multisig_address_config: MultisigAddressConfig,
    pub minimum_liquid_stake_amount: u128,
    pub minimum_rewards_to_collect: u128,
}

/// The pool's running totals: native token held and derivative token in
/// circulation, plus the rewards collected so far and the ownership
/// handover slot.
#[derive(Debug, Clone, PartialEq, Eq)]
pub struct State {
    pub total_native_token: u128,
    pub total_liquid_stake_token: u128,
    pub total_reward_amount: u128,
    pub native_token_to_stake: u128,
    pub pending_owner: Option<String>,
}

/// Where a dispatched cross-chain transfer stands: still awaited, or kept
/// for operator reconciliation after a failure or timeout report.
#[derive(Debug, Clone, Copy, PartialEq, Eq, Structural)]
pub enum TransferStatus {
    Sent,
    Failed,
    TimedOut,
}

/// A cross-chain transfer dispatched at batch submission and not yet
/// settled, correlated with its eventual reply purely by `sequence`.
#[derive(Debug, Clone, Copy, PartialEq, Eq, Structural)]
pub struct InFlightTransfer {
    pub sequence: u64,
    pub batch_id: u64,
    pub amount: u128,
    pub dispatched_at: u64,
    pub status: TransferStatus,
}

/// The kind of locally-originated instruction a pending reply waits on.
#[derive(Debug, Clone, Copy, PartialEq, Eq, Structural)]
pub enum ReplyKind {
    Mint,
    Burn,
}

/// A protocol message (mint or burn instruction) awaiting its asynchronous
/// completion callback.
#[derive(Debug, Clone, Copy, PartialEq, Eq, Structural)]
pub struct PendingReply {
    pub sequence: u64,
    pub kind: ReplyKind,
    pub dispatched_at: u64,
}

/// Ambient call context: the chain time and the protocol's own address,
/// used to authorize self-triggered operations.
#[derive(Debug, Clone, PartialEq, Eq)]
pub struct EnvInfo {
    pub block_time_seconds: u64,
    pub contract_address: String,
}

/// The protocol singleton: every operation takes it by exclusive reference,
/// mirroring the host's single-threaded, run-to-completion execution.
#[derive(Debug, Clone, PartialEq, Eq)]
pub struct Protocol {
    pub config: Config,
    pub state: State,
    pub admin: Option<String>,
    pub pending_batch: Batch,
    pub batches: Vec<Batch>,
    pub inflight_packets: Vec<InFlightTransfer>,
    pub reply_queue: Vec<PendingReply>,
    pub next_sequence: u64,
}

impl Protocol {
    /// The protocol invariant, established at instantiation and preserved
    /// by every operation:
    /// - the single open batch is `Pending` and well-formed, and its id is
    ///   one past the archive, so ids are `1, 2, ...` with no gap or reuse
    ///   and exactly one batch is ever `Pending`;
    /// - every archived batch is well-formed and no longer `Pending`;
    /// - tracker entries carry identifiers below the dispatch counter,
    ///   strictly increasing within each collection and disjoint across
    ///   them, and each transfer references an archived batch.
    pub open spec fn inv(self) -> bool {
        &&& self.pending_batch.wf()
        &&& self.pending_batch.status is Pending
        &&& self.pending_batch.id == self.batches@.len() + 1
        &&& forall|i: int|
            0 <= i < self.batches@.len() ==> (#[trigger] self.batches@[i]).id == i + 1
                && self.batches@[i].wf() && !(self.batches@[i].status is Pending)
        &&& forall|i: int|
            0 <= i < self.inflight_packets@.len()
                ==> (#[trigger] self.inflight_packets@[i]).sequence < self.next_sequence
                && 1 <= self.inflight_packets@[i].batch_id < self.pending_batch.id
        &&& forall|i: int, j: int|
            0 <= i < j < self.inflight_packets@.len()
                ==> self.inflight_packets@[i].sequence < self.inflight_packets@[j].sequence
        &&& forall|i: int|
            0 <= i < self.reply_queue@.len()
                ==> (#[trigger] self.reply_queue@[i]).sequence < self.next_sequence
        &&& forall|i: int, j: int|
            0 <= i < j < self.reply_queue@.len()
                ==> self.reply_queue@[i].sequence < self.reply_queue@[j].sequence
        &&& forall|i: int, j: int|
            0 <= i < self.inflight_packets@.len() && 0 <= j < self.reply_queue@.len()
                ==> self.inflight_packets@[i].sequence != self.reply_queue@[j].sequence
    }

    /// Instantiate the protocol: an empty pool and a first open batch with
    /// id 1, scheduled one batch period ahead.
    pub fn new(config: Config, admin: Option<String>, now_seconds: u64) -> (r: Protocol)
        requires
            now_seconds + config.batch_period <= u64::MAX,
        ensures
            r.inv(),
            r.config == config,
            r.admin == admin,
            r.state.total_native_token == 0,
            r.state.total_liquid_stake_token == 0,
            r.state.total_reward_amount == 0,
            r.state.native_token_to_stake == 0,
            r.state.pending_owner is None,
            r.pending_batch.id == 1,
            r.pending_batch.batch_total_liquid_stake == 0,
            r.pending_batch.next_batch_action_time == Some(
                (now_seconds + config.batch_period) as u64,
            ),
            r.batches@.len() == 0,
            r.inflight_packets@.len() == 0,
            r.reply_queue@.len() == 0,
            r.next_sequence == 0,
    {
        let next_action = now_seconds + config.batch_period;
        Protocol {
            config,
            state: State {
                total_native_token: 0,
                total_liquid_stake_token: 0,
                total_reward_amount: 0,
                native_token_to_stake: 0,
                pending_owner: None,
            },
            admin,
            pending_batch: Batch::new(1, 0, next_action),
            batches: Vec::new(),
            inflight_packets: Vec::new(),
            reply_queue: Vec::new(),
            next_sequence: 0,
        }
    }
}


/// Law: in every state the invariant admits, each batch's running total
/// equals the sum of the shares recorded in its ledger — for the open
/// batch and for every archived one.
pub proof fn lemma_batch_total_is_sum_of_requests(p: Protocol)
    requires
        p.inv(),
    ensures
        sum_shares(p.pending_batch.liquid_unstake_requests@)
            == p.pending_batch.batch_total_liquid_stake as int,
        forall|i: int|
            0 <= i < p.batches@.len() ==> sum_shares(
                (#[trigger] p.batches@[i]).liquid_unstake_requests@,
            ) == p.batches@[i].batch_total_liquid_stake as int,
{
}

/// Law: exactly one batch is `Pending` at any time — the open one — and
/// batch ids are strictly increasing with no gaps or reuse: the archive
/// holds ids one through its length, and the open batch follows them.
pub proof fn lemma_single_pending_batch(p: Protocol)
    requires
        p.inv(),
    ensures
        p.pending_batch.status is Pending,
        forall|i: int|
            0 <= i < p.batches@.len() ==> !((#[trigger] p.batches@[i]).status is Pending),
        forall|i: int| 0 <= i < p.batches@.len() ==> (#[trigger] p.batches@[i]).id == i + 1,
        p.pending_batch.id == p.batches@.len() + 1,
{
}

} // verus!
