//! The protocol's state-changing operations: staking, unstaking into the
//! open batch, batch submission, claim settlement and administration.

use vstd::prelude::*;
use crate::error::{ContractError, ContractResult};
use crate::helpers::{
    compute_mint_amount, compute_unbond_amount, lemma_pro_rata_le,
    lemma_stake_ratio_non_increasing, mint_amount_spec, multiply_ratio, unbond_amount_spec,
};
use crate::msg::ProtocolMsg;
use crate::staking::{
    lemma_share_le_sum, lemma_sum_shares_update, Batch, BatchStatus, LiquidUnstakeRequest,
};
use crate::state::{
    Config, EnvInfo, InFlightTransfer, PendingReply, Protocol, ReplyKind, State, TransferStatus,
};

verus! {

/// The machine-width bounds a stake must stay inside: the pool totals and
/// the dispatch counter may not wrap.
pub open spec fn stake_fits(p: Protocol, amount: u128) -> bool {
    &&& p.state.total_native_token + amount <= u128::MAX
    &&& p.state.total_liquid_stake_token != 0 ==> p.state.total_native_token > 0
        && p.state.total_liquid_stake_token + amount * p.state.total_liquid_stake_token / (
        p.state.total_native_token as int) <= u128::MAX
    &&& p.next_sequence + 1 <= u64::MAX
}

/// Stake `amount` native tokens for `sender`: mint derivative shares at the
/// current exchange rate, grow both pool totals, and track the emitted mint
/// instruction until its completion callback.
pub fn execute_liquid_stake(
    p: &mut Protocol,
    env: &EnvInfo,
    sender: String,
    amount: u128,
) -> (r: ContractResult<Vec<ProtocolMsg>>)
    requires
        old(p).inv(),
        stake_fits(*old(p), amount),
    ensures
        final(p).inv(),
        amount <= old(p).config.minimum_liquid_stake_amount ==> r == Err::<
            Vec<ProtocolMsg>,
            _,
        >(ContractError::MinimumLiquidStakeAmount {
            minimum_stake_amount: old(p).config.minimum_liquid_stake_amount,
            sent_amount: amount,
        }) && *final(p) == *old(p),
        amount > old(p).config.minimum_liquid_stake_amount && mint_amount_spec(
            old(p).state.total_native_token as int,
            old(p).state.total_liquid_stake_token as int,
            amount as int,
        ) == 0 ==> r == Err::<Vec<ProtocolMsg>, _>(ContractError::MintError) && *final(p) == *old(p),
        amount > old(p).config.minimum_liquid_stake_amount && mint_amount_spec(
            old(p).state.total_native_token as int,
            old(p).state.total_liquid_stake_token as int,
            amount as int,
        ) != 0 ==> {
            let minted = mint_amount_spec(
                old(p).state.total_native_token as int,
                old(p).state.total_liquid_stake_token as int,
                amount as int,
            );
            &&& final(p).state.total_native_token == old(p).state.total_native_token + amount
            &&& final(p).state.total_liquid_stake_token == old(p).state.total_liquid_stake_token + minted
            &&& final(p).state.total_reward_amount == old(p).state.total_reward_amount
            &&& final(p).state.native_token_to_stake == old(p).state.native_token_to_stake
            &&& final(p).state.pending_owner == old(p).state.pending_owner
            &&& final(p).config == old(p).config
            &&& final(p).admin == old(p).admin
            &&& final(p).pending_batch == old(p).pending_batch
            &&& final(p).batches == old(p).batches
            &&& final(p).inflight_packets == old(p).inflight_packets
            &&& final(p).reply_queue@ =~= old(p).reply_queue@.push(
                (PendingReply {
                    sequence: old(p).next_sequence,
                    kind: ReplyKind::Mint,
                    dispatched_at: env.block_time_seconds,
                }),
            )
            &&& final(p).next_sequence == old(p).next_sequence + 1
            &&& (r matches Ok(msgs) && msgs@ =~= seq![
                (ProtocolMsg::Mint { amount: minted as u128, recipient: sender }),
            ])
            &&& (old(p).state.total_liquid_stake_token > 0 ==> final(p).state.total_liquid_stake_token * old(p).state.total_native_token <= old(p).state.total_liquid_stake_token * final(p).state.total_native_token)
        },
{
    if amount <= p.config.minimum_liquid_stake_amount {
        return Err(ContractError::MinimumLiquidStakeAmount {
            minimum_stake_amount: p.config.minimum_liquid_stake_amount,
            sent_amount: amount,
        });
    }
    let mint_amount = compute_mint_amount(
        p.state.total_native_token,
        p.state.total_liquid_stake_token,
        amount,
    );
    if mint_amount == 0 {
        return Err(ContractError::MintError);
    }
    proof {
        if p.state.total_liquid_stake_token > 0 {
            lemma_stake_ratio_non_increasing(
                p.state.total_native_token as int,
                p.state.total_liquid_stake_token as int,
                amount as int,
            );
        }
    }
    p.state.total_native_token = p.state.total_native_token + amount;
    p.state.total_liquid_stake_token = p.state.total_liquid_stake_token + mint_amount;
    p.reply_queue.push(
        PendingReply {
            sequence: p.next_sequence,
            kind: ReplyKind::Mint,
            dispatched_at: env.block_time_seconds,
        },
    );
    p.next_sequence = p.next_sequence + 1;
    let mut msgs: Vec<ProtocolMsg> = Vec::new();
    msgs.push(ProtocolMsg::Mint { amount: mint_amount, recipient: sender });
    Ok(msgs)
}

/// Record an unstake of `amount` derivative shares for `sender` in the open
/// batch, and trigger the batch's submission when its action time has been
/// reached. The pool totals stay untouched until settlement.
pub fn execute_liquid_unstake(
    p: &mut Protocol,
    env: &EnvInfo,
    sender: String,
    amount: u128,
) -> (r: ContractResult<Vec<ProtocolMsg>>)
    requires
        old(p).inv(),
        old(p).pending_batch.batch_total_liquid_stake + amount <= u128::MAX,
    ensures
        final(p).inv(),
        amount <= old(p).config.minimum_liquid_stake_amount ==> r == Err::<
            Vec<ProtocolMsg>,
            _,
        >(ContractError::MinimumLiquidStakeAmount {
            minimum_stake_amount: old(p).config.minimum_liquid_stake_amount,
            sent_amount: amount,
        }) && *final(p) == *old(p),
        amount > old(p).config.minimum_liquid_stake_amount ==> {
            &&& final(p).pending_batch.batch_total_liquid_stake == old(p).pending_batch.batch_total_liquid_stake + amount
            &&& final(p).pending_batch.has_request(sender@)
            &&& final(p).pending_batch.request_shares(sender@) == old(p).pending_batch.request_shares(sender@) + amount
            &&& forall|u: Seq<char>|
                u != sender@ ==> final(p).pending_batch.request_shares(u) == old(p).pending_batch.request_shares(u) && (final(p).pending_batch.has_request(u)
                    <==> old(p).pending_batch.has_request(u))
            &&& final(p).pending_batch.liquid_unstake_requests@.len() == old(p).pending_batch.liquid_unstake_requests@.len() + if old(p).pending_batch.has_request(
                sender@,
            ) {
                0int
            } else {
                1int
            }
            &&& final(p).pending_batch.id == old(p).pending_batch.id
            &&& final(p).pending_batch.status == old(p).pending_batch.status
            &&& final(p).pending_batch.next_batch_action_time == old(p).pending_batch.next_batch_action_time
            &&& final(p).state == old(p).state
            &&& final(p).config == old(p).config
            &&& final(p).admin == old(p).admin
            &&& final(p).batches == old(p).batches
            &&& final(p).inflight_packets == old(p).inflight_packets
            &&& final(p).reply_queue == old(p).reply_queue
            &&& final(p).next_sequence == old(p).next_sequence
            &&& (if old(p).pending_batch.next_batch_action_time matches Some(t)
                && env.block_time_seconds >= t {
                r matches Ok(msgs) && msgs@ =~= seq![
                    (ProtocolMsg::TriggerSubmitBatch { batch_id: old(p).pending_batch.id }),
                ]
            } else {
                r matches Ok(msgs) && msgs@ =~= Seq::<ProtocolMsg>::empty()
            })
        },
{
    if amount <= p.config.minimum_liquid_stake_amount {
        return Err(ContractError::MinimumLiquidStakeAmount {
            minimum_stake_amount: p.config.minimum_liquid_stake_amount,
            sent_amount: amount,
        });
    }
    p.pending_batch.record_unstake(sender, amount);
    let mut msgs: Vec<ProtocolMsg> = Vec::new();
    let mut triggered: bool = false;
    match p.pending_batch.next_batch_action_time {
        Some(t) => {
            if env.block_time_seconds >= t {
                triggered = true;
            }
        },
        None => {},
    }
    if triggered {
        msgs.push(ProtocolMsg::TriggerSubmitBatch { batch_id: p.pending_batch.id });
    }
    Ok(msgs)
}

/// The machine-width bounds a batch submission must stay inside: the
/// schedule times, the dispatch counter and the batch id may not wrap, and
/// the unbond amount must fit the amount type.
pub open spec fn submit_fits(p: Protocol, now: u64) -> bool {
    &&& now + p.config.unbonding_period <= u64::MAX
    &&& now + p.config.batch_period <= u64::MAX
    &&& p.next_sequence + 2 <= u64::MAX
    &&& p.pending_batch.id < u64::MAX
    &&& p.state.total_liquid_stake_token != 0 ==> p.pending_batch.batch_total_liquid_stake
        * p.state.total_native_token / (p.state.total_liquid_stake_token as int) <= u128::MAX
}

/// Submit the open batch: only the protocol itself may trigger this, and
/// only for the currently open id, so a replay of an already submitted id
/// fails without touching the pool again. The batch closes as `Submitted`,
/// a fresh open batch follows it, the pool totals shrink by the unbonded
/// amount and the burned shares (clamping at zero instead of underflowing),
/// and the unbonding transfer joins the in-flight tracker.
pub fn execute_submit_batch(
    p: &mut Protocol,
    env: &EnvInfo,
    sender: String,
    id: u64,
) -> (r: ContractResult<Vec<ProtocolMsg>>)
    requires
        old(p).inv(),
        submit_fits(*old(p), env.block_time_seconds),
    ensures
        final(p).inv(),
        sender@ != env.contract_address@ ==> r == Err::<Vec<ProtocolMsg>, _>(
            ContractError::Unauthorized,
        ) && *final(p) == *old(p),
        sender@ == env.contract_address@ && id != old(p).pending_batch.id ==> r == Err::<
            Vec<ProtocolMsg>,
            _,
        >(ContractError::InvalidBatchId {
            pending_id: old(p).pending_batch.id,
            submitted_id: id,
        }) && *final(p) == *old(p),
        sender@ == env.contract_address@ && id == old(p).pending_batch.id ==> {
            let total = old(p).pending_batch.batch_total_liquid_stake;
            let native = old(p).state.total_native_token;
            let liquid = old(p).state.total_liquid_stake_token;
            let unbond = unbond_amount_spec(native as int, liquid as int, total as int);
            let now = env.block_time_seconds;
            &&& final(p).batches@ =~= old(p).batches@.push(
                (Batch {
                    status: BatchStatus::Submitted,
                    next_batch_action_time: Some((now + old(p).config.unbonding_period) as u64),
                    expected_native_unstaked: Some(unbond as u128),
                    ..old(p).pending_batch
                }),
            )
            &&& final(p).pending_batch.id == id + 1
            &&& final(p).pending_batch.batch_total_liquid_stake == 0
            &&& final(p).pending_batch.status is Pending
            &&& final(p).pending_batch.liquid_unstake_requests@ =~= Seq::<
                LiquidUnstakeRequest,
            >::empty()
            &&& final(p).pending_batch.next_batch_action_time == Some(
                (now + old(p).config.batch_period) as u64,
            )
            &&& final(p).pending_batch.expected_native_unstaked is None
            &&& final(p).pending_batch.received_native_unstaked is None
            &&& final(p).state.total_native_token == if native >= unbond {
                native - unbond
            } else {
                0
            }
            &&& final(p).state.total_liquid_stake_token == if liquid >= total {
                liquid - total
            } else {
                0
            }
            &&& final(p).state.total_reward_amount == old(p).state.total_reward_amount
            &&& final(p).state.native_token_to_stake == old(p).state.native_token_to_stake
            &&& final(p).state.pending_owner == old(p).state.pending_owner
            &&& final(p).config == old(p).config
            &&& final(p).admin == old(p).admin
            &&& final(p).inflight_packets@ =~= old(p).inflight_packets@.push(
                (InFlightTransfer {
                    sequence: old(p).next_sequence,
                    batch_id: id,
                    amount: unbond as u128,
                    dispatched_at: now,
                    status: TransferStatus::Sent,
                }),
            )
            &&& final(p).reply_queue@ =~= old(p).reply_queue@.push(
                (PendingReply {
                    sequence: (old(p).next_sequence + 1) as u64,
                    kind: ReplyKind::Burn,
                    dispatched_at: now,
                }),
            )
            &&& final(p).next_sequence == old(p).next_sequence + 2
            &&& (r matches Ok(msgs) && msgs@ =~= seq![
                (ProtocolMsg::Burn { amount: total }),
                (ProtocolMsg::SendUnbondTransfer {
                    sequence: old(p).next_sequence,
                    batch_id: id,
                    amount: unbond as u128,
                    receiver: old(p).config.multisig_address_config.staker_address,
                }),
            ])
        },
{
    if !(sender == env.contract_address) {
        return Err(ContractError::Unauthorized);
    }
    if id != p.pending_batch.id {
        return Err(ContractError::InvalidBatchId {
            pending_id: p.pending_batch.id,
            submitted_id: id,
        });
    }
    let now = env.block_time_seconds;
    let batch_total = p.pending_batch.batch_total_liquid_stake;
    let unbond_amount = compute_unbond_amount(
        p.state.total_native_token,
        p.state.total_liquid_stake_token,
        batch_total,
    );

    // Close the open batch and replace it with the next window.
    let mut closed = Batch::new(id + 1, 0, now + p.config.batch_period);
    core::mem::swap(&mut p.pending_batch, &mut closed);
    closed.update_status(
        BatchStatus::Submitted,
        Some(now + p.config.unbonding_period),
    );
    closed.expected_native_unstaked = Some(unbond_amount);
    p.batches.push(closed);

    // Settle the pool totals, clamping at zero: an underflow here would
    // mean an accounting error upstream and must not halt settlement.
    p.state.total_native_token = if p.state.total_native_token >= unbond_amount {
        p.state.total_native_token - unbond_amount
    } else {
        0
    };
    p.state.total_liquid_stake_token = if p.state.total_liquid_stake_token >= batch_total {
        p.state.total_liquid_stake_token - batch_total
    } else {
        0
    };

    // Track the dispatched transfer and the burn instruction's callback.
    let sequence = p.next_sequence;
    p.inflight_packets.push(
        InFlightTransfer {
            sequence,
            batch_id: id,
            amount: unbond_amount,
            dispatched_at: now,
            status: TransferStatus::Sent,
        },
    );
    p.reply_queue.push(
        PendingReply { sequence: sequence + 1, kind: ReplyKind::Burn, dispatched_at: now },
    );
    p.next_sequence = sequence + 2;

    let mut msgs: Vec<ProtocolMsg> = Vec::new();
    msgs.push(ProtocolMsg::Burn { amount: batch_total });
    msgs.push(ProtocolMsg::SendUnbondTransfer {
        sequence,
        batch_id: id,
        amount: unbond_amount,
        receiver: p.config.multisig_address_config.staker_address.clone(),
    });
    Ok(msgs)
}


/// Whether `sender` is the current admin.
pub open spec fn is_admin(p: Protocol, sender: Seq<char>) -> bool {
    p.admin matches Some(a) && a@ == sender
}

/// Whether the configuration lists `v` as a validator.
pub open spec fn has_validator(c: Config, v: Seq<char>) -> bool {
    exists|i: int| 0 <= i < c.validators@.len() && c.validators@[i]@ == v
}

fn check_admin(p: &Protocol, sender: &String) -> (r: bool)
    ensures
        r == is_admin(*p, sender@),
{
    match &p.admin {
        Some(a) => *a == *sender,
        None => false,
    }
}

/// Index of `user`'s entry in a request ledger, if any.
pub(crate) fn find_request_idx(requests: &Vec<LiquidUnstakeRequest>, user: &String) -> (r: Option<usize>)
    ensures
        r matches Some(i) ==> i < requests@.len() && requests@[i as int].user@ == user@,
        r is None ==> forall|k: int| 0 <= k < requests@.len() ==> requests@[k].user@ != user@,
{
    let n = requests.len();
    let mut idx: usize = 0;
    while idx < n
        invariant
            n == requests@.len(),
            0 <= idx <= n,
            forall|k: int| 0 <= k < idx ==> requests@[k].user@ != user@,
        decreases n - idx,
    {
        if requests[idx].user == *user {
            return Some(idx);
        }
        idx += 1;
    }
    None
}

/// The native amount a requester's claim settles to: the requester's
/// pro-rata slice of what the batch actually received.
pub open spec fn claim_amount_spec(b: Batch, user: Seq<char>) -> int {
    b.request_shares(user) * (b.received_native_unstaked->Some_0 as int) / (
    b.batch_total_liquid_stake as int)
}

/// Settle `sender`'s claim in a received batch: the `redeemed` flag flips
/// once, and the pro-rata slice of the received unbonded amount is paid
/// out. Fails on a batch that has not settled, on a missing request, and on
/// a repeated claim.
pub fn execute_claim(p: &mut Protocol, sender: String, batch_id: u64) -> (r: ContractResult<
    Vec<ProtocolMsg>,
>)
    requires
        old(p).inv(),
    ensures
        final(p).inv(),
        !(1 <= batch_id <= old(p).batches@.len()) ==> r == Err::<Vec<ProtocolMsg>, _>(
            ContractError::BatchNotFound { id: batch_id },
        ) && *final(p) == *old(p),
        1 <= batch_id <= old(p).batches@.len() ==> {
            let b = old(p).batches@[batch_id - 1];
            &&& !(b.status is Received) ==> r == Err::<Vec<ProtocolMsg>, _>(
                ContractError::UnexpectedBatchStatus { id: batch_id },
            ) && *final(p) == *old(p)
            &&& b.status is Received && !b.has_request(sender@) ==> r == Err::<
                Vec<ProtocolMsg>,
                _,
            >(ContractError::NoRequestInBatch { id: batch_id }) && *final(p) == *old(p)
            &&& b.status is Received && b.has_request(sender@)
                && b.liquid_unstake_requests@[b.request_index_of(sender@)].redeemed ==> r
                == Err::<Vec<ProtocolMsg>, _>(ContractError::AlreadyRedeemed { id: batch_id })
                && *final(p) == *old(p)
            &&& b.status is Received && b.has_request(sender@)
                && !b.liquid_unstake_requests@[b.request_index_of(sender@)].redeemed ==> {
                let i = b.request_index_of(sender@);
                &&& final(p).batches@.len() == old(p).batches@.len()
                &&& forall|k: int|
                    0 <= k < old(p).batches@.len() && k != batch_id - 1 ==> final(p).batches@[k] == old(p).batches@[k]
                &&& final(p).batches@[batch_id - 1].liquid_unstake_requests@ =~= b.liquid_unstake_requests@.update(
                    i,
                    (LiquidUnstakeRequest {
                        user: b.liquid_unstake_requests@[i].user,
                        shares: b.liquid_unstake_requests@[i].shares,
                        redeemed: true,
                    }),
                )
                &&& final(p).batches@[batch_id - 1].id == b.id
                &&& final(p).batches@[batch_id - 1].batch_total_liquid_stake
                    == b.batch_total_liquid_stake
                &&& final(p).batches@[batch_id - 1].status == b.status
                &&& final(p).batches@[batch_id - 1].expected_native_unstaked
                    == b.expected_native_unstaked
                &&& final(p).batches@[batch_id - 1].received_native_unstaked
                    == b.received_native_unstaked
                &&& final(p).batches@[batch_id - 1].next_batch_action_time
                    == b.next_batch_action_time
                &&& (r matches Ok(msgs) && msgs@ =~= seq![
                    (ProtocolMsg::Withdraw {
                        amount: claim_amount_spec(b, sender@) as u128,
                        recipient: sender,
                    }),
                ])
                &&& 0 <= claim_amount_spec(b, sender@)
                    <= b.received_native_unstaked->Some_0
                &&& final(p).state == old(p).state
                &&& final(p).config == old(p).config
                &&& final(p).admin == old(p).admin
                &&& final(p).pending_batch == old(p).pending_batch
                &&& final(p).inflight_packets == old(p).inflight_packets
                &&& final(p).reply_queue == old(p).reply_queue
                &&& final(p).next_sequence == old(p).next_sequence
            }
        },
{
    if batch_id < 1 || batch_id > (p.batches.len() as u64) {
        return Err(ContractError::BatchNotFound { id: batch_id });
    }
    let idx: usize = (batch_id - 1) as usize;
    match p.batches[idx].status {
        BatchStatus::Received => {},
        _ => {
            return Err(ContractError::UnexpectedBatchStatus { id: batch_id });
        },
    }
    let found = find_request_idx(&p.batches[idx].liquid_unstake_requests, &sender);
    let i: usize = match found {
        Some(i) => i,
        None => {
            return Err(ContractError::NoRequestInBatch { id: batch_id });
        },
    };
    let ghost b = p.batches@[batch_id - 1];
    proof {
        assert(b.has_request(sender@));
        assert(b.request_index_of(sender@) == i as int) by {
            let j = b.request_index_of(sender@);
            assert(0 <= j < b.liquid_unstake_requests@.len()
                && b.liquid_unstake_requests@[j].user@ == sender@);
        }
    }
    if p.batches[idx].liquid_unstake_requests[i].redeemed {
        return Err(ContractError::AlreadyRedeemed { id: batch_id });
    }
    let received: u128 = match p.batches[idx].received_native_unstaked {
        Some(v) => v,
        None => 0,
    };
    let shares = p.batches[idx].liquid_unstake_requests[i].shares;
    let total = p.batches[idx].batch_total_liquid_stake;
    proof {
        lemma_share_le_sum(b.liquid_unstake_requests@, i as int);
        lemma_pro_rata_le(shares as int, total as int, received as int);
    }
    let claim_amount = multiply_ratio(shares, received, total);
    let entry = &mut p.batches[idx].liquid_unstake_requests[i];
    entry.redeemed = true;
    proof {
        lemma_sum_shares_update(
            b.liquid_unstake_requests@,
            i as int,
            p.batches@[idx as int].liquid_unstake_requests@[i as int],
        );
        assert(p.batches@[idx as int].liquid_unstake_requests@ =~= b.liquid_unstake_requests@.update(
            i as int,
            p.batches@[idx as int].liquid_unstake_requests@[i as int],
        ));
    }
    let mut msgs: Vec<ProtocolMsg> = Vec::new();
    msgs.push(ProtocolMsg::Withdraw { amount: claim_amount, recipient: sender });
    Ok(msgs)
}

/// Propose a new owner; only the current admin may. The handover completes
/// only when the proposed owner accepts.
pub fn execute_transfer_ownership(p: &mut Protocol, sender: String, new_owner: String) -> (r:
    ContractResult<()>)
    requires
        old(p).inv(),
    ensures
        final(p).inv(),
        !is_admin(*old(p), sender@) ==> r == Err::<(), _>(ContractError::Unauthorized)
            && *final(p) == *old(p),
        is_admin(*old(p), sender@) ==> r == Ok::<_, ContractError>(()) && final(p).state
            == (State { pending_owner: Some(new_owner), ..old(p).state }) && final(p).config
            == old(p).config && final(p).admin == old(p).admin && final(p).pending_batch == old(p).pending_batch && final(p).batches == old(p).batches && final(p).inflight_packets
            == old(p).inflight_packets && final(p).reply_queue == old(p).reply_queue && final(p).next_sequence == old(p).next_sequence,
{
    if !check_admin(p, &sender) {
        return Err(ContractError::Unauthorized);
    }
    p.state.pending_owner = Some(new_owner);
    Ok(())
}

/// Withdraw a pending ownership proposal; only the current admin may.
pub fn execute_revoke_ownership_transfer(p: &mut Protocol, sender: String) -> (r: ContractResult<
    (),
>)
    requires
        old(p).inv(),
    ensures
        final(p).inv(),
        !is_admin(*old(p), sender@) ==> r == Err::<(), _>(ContractError::Unauthorized)
            && *final(p) == *old(p),
        is_admin(*old(p), sender@) ==> r == Ok::<_, ContractError>(()) && final(p).state
            == (State { pending_owner: None, ..old(p).state }) && final(p).config == old(p).config && final(p).admin == old(p).admin && final(p).pending_batch == old(p).pending_batch && final(p).batches == old(p).batches && final(p).inflight_packets
            == old(p).inflight_packets && final(p).reply_queue == old(p).reply_queue && final(p).next_sequence == old(p).next_sequence,
{
    if !check_admin(p, &sender) {
        return Err(ContractError::Unauthorized);
    }
    p.state.pending_owner = None;
    Ok(())
}

/// Complete an ownership handover: only the proposed owner may accept, and
/// doing so clears the proposal and installs the new admin.
pub fn execute_accept_ownership(p: &mut Protocol, sender: String) -> (r: ContractResult<()>)
    requires
        old(p).inv(),
    ensures
        final(p).inv(),
        !(old(p).state.pending_owner matches Some(o) && o@ == sender@) ==> r == Err::<
            (),
            _,
        >(ContractError::NoPendingOwner) && *final(p) == *old(p),
        (old(p).state.pending_owner matches Some(o) && o@ == sender@) ==> r == Ok::<
            _,
            ContractError,
        >(()) && final(p).admin == old(p).state.pending_owner && final(p).state == (State {
            pending_owner: None,
            ..old(p).state
        }) && final(p).config == old(p).config && final(p).pending_batch == old(p).pending_batch && final(p).batches == old(p).batches && final(p).inflight_packets
            == old(p).inflight_packets && final(p).reply_queue == old(p).reply_queue && final(p).next_sequence == old(p).next_sequence,
{
    let accepted: bool = match &p.state.pending_owner {
        Some(o) => *o == sender,
        None => false,
    };
    if accepted {
        let mut owner: Option<String> = None;
        core::mem::swap(&mut p.state.pending_owner, &mut owner);
        p.admin = owner;
        Ok(())
    } else {
        Err(ContractError::NoPendingOwner)
    }
}

/// Register a validator; only the admin may, and a validator already listed
/// is refused.
pub fn execute_add_validator(p: &mut Protocol, sender: String, new_validator: String) -> (r:
    ContractResult<()>)
    requires
        old(p).inv(),
    ensures
        final(p).inv(),
        !is_admin(*old(p), sender@) ==> r == Err::<(), _>(ContractError::Unauthorized)
            && *final(p) == *old(p),
        is_admin(*old(p), sender@) && has_validator(old(p).config, new_validator@) ==> r
            == Err::<(), _>(ContractError::DuplicateValidator { validator: new_validator })
            && *final(p) == *old(p),
        is_admin(*old(p), sender@) && !has_validator(old(p).config, new_validator@) ==> r
            == Ok::<_, ContractError>(()) && final(p).config.validators@ =~= old(p).config.validators@.push(new_validator) && final(p).config.native_token_denom == old(p).config.native_token_denom && final(p).config.liquid_stake_token_denom == old(p).config.liquid_stake_token_denom && final(p).config.treasury_address == old(p).config.treasury_address && final(p).config.node_operators == old(p).config.node_operators && final(p).config.batch_period == old(p).config.batch_period
            && final(p).config.unbonding_period == old(p).config.unbonding_period && final(p).config.protocol_fee_config == old(p).config.protocol_fee_config && final(p).config.multisig_address_config == old(p).config.multisig_address_config && final(p).config.minimum_liquid_stake_amount == old(p).config.minimum_liquid_stake_amount
            && final(p).config.minimum_rewards_to_collect == old(p).config.minimum_rewards_to_collect && final(p).state == old(p).state && final(p).admin
            == old(p).admin && final(p).pending_batch == old(p).pending_batch && final(p).batches == old(p).batches && final(p).inflight_packets == old(p).inflight_packets
            && final(p).reply_queue == old(p).reply_queue && final(p).next_sequence == old(p).next_sequence,
{
    if !check_admin(p, &sender) {
        return Err(ContractError::Unauthorized);
    }
    let n = p.config.validators.len();
    let mut idx: usize = 0;
    while idx < n
        invariant
            *p == *old(p),
            old(p).inv(),
            is_admin(*old(p), sender@),
            n == p.config.validators@.len(),
            0 <= idx <= n,
            forall|k: int| 0 <= k < idx ==> p.config.validators@[k]@ != new_validator@,
        decreases n - idx,
    {
        if p.config.validators[idx] == new_validator {
            return Err(ContractError::DuplicateValidator { validator: new_validator });
        }
        idx += 1;
    }
    p.config.validators.push(new_validator);
    Ok(())
}

/// Unregister a validator; only the admin may. The first listed occurrence
/// is removed; an unknown validator is refused.
pub fn execute_remove_validator(p: &mut Protocol, sender: String, validator_to_remove: String)
    -> (r: ContractResult<()>)
    requires
        old(p).inv(),
    ensures
        final(p).inv(),
        !is_admin(*old(p), sender@) ==> r == Err::<(), _>(ContractError::Unauthorized)
            && *final(p) == *old(p),
        is_admin(*old(p), sender@) && !has_validator(old(p).config, validator_to_remove@) ==> r
            == Err::<(), _>(ContractError::ValidatorNotFound {
            validator: validator_to_remove,
        }) && *final(p) == *old(p),
        is_admin(*old(p), sender@) && has_validator(old(p).config, validator_to_remove@)
            ==> r == Ok::<_, ContractError>(()) && (exists|j: int|
            0 <= j < old(p).config.validators@.len() && old(p).config.validators@[j]@
                == validator_to_remove@ && (forall|k: int|
                0 <= k < j ==> old(p).config.validators@[k]@ != validator_to_remove@) && final(p).config.validators@ =~= old(p).config.validators@.remove(j)) && final(p).state
            == old(p).state && final(p).admin == old(p).admin && final(p).pending_batch == old(p).pending_batch && final(p).batches == old(p).batches && final(p).inflight_packets
            == old(p).inflight_packets && final(p).reply_queue == old(p).reply_queue && final(p).next_sequence == old(p).next_sequence,
{
    if !check_admin(p, &sender) {
        return Err(ContractError::Unauthorized);
    }
    let n = p.config.validators.len();
    let mut idx: usize = 0;
    while idx < n
        invariant
            *p == *old(p),
            old(p).inv(),
            is_admin(*old(p), sender@),
            n == p.config.validators@.len(),
            0 <= idx <= n,
            forall|k: int| 0 <= k < idx ==> p.config.validators@[k]@ != validator_to_remove@,
        decreases n - idx,
    {
        if p.config.validators[idx] == validator_to_remove {
            p.config.validators.remove(idx);
            return Ok(());
        }
        idx += 1;
    }
    Err(ContractError::ValidatorNotFound { validator: validator_to_remove })
}

} // verus!
