//! Read projections over the protocol state: snapshots of the
//! configuration and the pool, batches by id or in paginated windows, the
//! tracker queues, and the batches a user can claim from.

use vstd::prelude::*;
use crate::error::{ContractError, ContractResult};
use crate::helpers::multiply_ratio;
use crate::msg::{
    BatchResponse, BatchesResponse, ConfigResponse, IBCQueueResponse, IBCReplyQueueResponse,
    LiquidUnstakeRequestResponse, StateResponse,
};
use crate::staking::{Batch, BatchStatus, LiquidUnstakeRequest};
use crate::state::{InFlightTransfer, PendingReply, Protocol, State};

verus! {

broadcast use vstd::string::to_string_from_display_ensures_for_str;

/// Fixed-point scale of the reported exchange rate: eighteen fractional
/// decimal digits.
pub const DECIMAL_FRACTIONAL: u128 = 1_000_000_000_000_000_000;

/// The reported exchange rate: derivative token per native token, scaled by
/// `DECIMAL_FRACTIONAL` and floored; zero for an empty pool.
pub open spec fn rate_spec(s: State) -> int {
    if s.total_native_token == 0 {
        0
    } else {
        s.total_liquid_stake_token * (DECIMAL_FRACTIONAL as int) / (s.total_native_token as int)
    }
}

pub open spec fn amount_or_zero(o: Option<u128>) -> u128 {
    match o {
        Some(v) => v,
        None => 0,
    }
}

pub open spec fn time_or_zero(o: Option<u64>) -> u64 {
    match o {
        Some(v) => v,
        None => 0,
    }
}

/// The wire name of a batch status.
pub open spec fn status_string(s: BatchStatus) -> Seq<char> {
    match s {
        BatchStatus::Pending => "pending"@,
        BatchStatus::Submitted => "submitted"@,
        BatchStatus::Received => "received"@,
    }
}

/// How a `BatchResponse` reflects a batch: every field carried over, unset
/// options reported as zero, the status by its wire name, and the ledger
/// entry by entry.
pub open spec fn batch_response_matches(r: BatchResponse, b: Batch) -> bool {
    &&& r.id == b.id
    &&& r.batch_total_liquid_stake == b.batch_total_liquid_stake
    &&& r.expected_native_unstaked == amount_or_zero(b.expected_native_unstaked)
    &&& r.received_native_unstaked == amount_or_zero(b.received_native_unstaked)
    &&& r.next_batch_action_time == time_or_zero(b.next_batch_action_time)
    &&& r.status@ == status_string(b.status)
    &&& r.requests@.len() == b.liquid_unstake_requests@.len()
    &&& forall|i: int|
        0 <= i < r.requests@.len() ==> (#[trigger] r.requests@[i]).user@
            == b.liquid_unstake_requests@[i].user@ && r.requests@[i].amount
            == b.liquid_unstake_requests@[i].shares && r.requests@[i].redeemed
            == b.liquid_unstake_requests@[i].redeemed
}

fn clone_string_vec(v: &Vec<String>) -> (r: Vec<String>)
    ensures
        r@ =~= v@,
{
    let mut r: Vec<String> = Vec::new();
    let n = v.len();
    let mut i: usize = 0;
    while i < n
        invariant
            n == v@.len(),
            0 <= i <= n,
            r@ =~= v@.subrange(0, i as int),
        decreases n - i,
    {
        r.push(v[i].clone());
        i += 1;
        proof {
            assert(r@ =~= v@.subrange(0, i as int));
        }
    }
    proof {
        assert(v@.subrange(0, n as int) =~= v@);
    }
    r
}

/// Snapshot of the configuration.
pub fn query_config(p: &Protocol) -> (r: ConfigResponse)
    ensures
        r.native_token_denom == p.config.native_token_denom,
        r.liquid_stake_token_denom == p.config.liquid_stake_token_denom,
        r.treasury_address == p.config.treasury_address,
        r.operators@ =~= p.config.node_operators@,
        r.validators@ =~= p.config.validators@,
        r.batch_period == p.config.batch_period,
        r.unbonding_period == p.config.unbonding_period,
        r.minimum_liquid_stake_amount == p.config.minimum_liquid_stake_amount,
        r.staker_address == p.config.multisig_address_config.staker_address,
        r.reward_collector_address == p.config.multisig_address_config.reward_collector_address,
{
    ConfigResponse {
        native_token_denom: p.config.native_token_denom.clone(),
        liquid_stake_token_denom: p.config.liquid_stake_token_denom.clone(),
        treasury_address: p.config.treasury_address.clone(),
        operators: clone_string_vec(&p.config.node_operators),
        validators: clone_string_vec(&p.config.validators),
        batch_period: p.config.batch_period,
        unbonding_period: p.config.unbonding_period,
        minimum_liquid_stake_amount: p.config.minimum_liquid_stake_amount,
        staker_address: p.config.multisig_address_config.staker_address.clone(),
        reward_collector_address: p.config.multisig_address_config.reward_collector_address.clone(),
    }
}

/// Snapshot of the pool totals and the current exchange rate.
pub fn query_state(p: &Protocol) -> (r: StateResponse)
    requires
        p.state.total_native_token != 0 ==> p.state.total_liquid_stake_token * (
        DECIMAL_FRACTIONAL as int) / (p.state.total_native_token as int) <= u128::MAX,
    ensures
        r.total_native_token == p.state.total_native_token,
        r.total_liquid_stake_token == p.state.total_liquid_stake_token,
        r.rate == rate_spec(p.state),
        p.state.pending_owner matches Some(o) ==> r.pending_owner == o,
        p.state.pending_owner is None ==> r.pending_owner@ == Seq::<char>::empty(),
        r.total_reward_amount == p.state.total_reward_amount,
{
    let rate: u128 = if p.state.total_native_token == 0 {
        0
    } else {
        multiply_ratio(
            p.state.total_liquid_stake_token,
            DECIMAL_FRACTIONAL,
            p.state.total_native_token,
        )
    };
    let pending_owner: String = match &p.state.pending_owner {
        Some(o) => o.clone(),
        None => String::new(),
    };
    StateResponse {
        total_native_token: p.state.total_native_token,
        total_liquid_stake_token: p.state.total_liquid_stake_token,
        rate,
        pending_owner,
        total_reward_amount: p.state.total_reward_amount,
    }
}

fn status_to_string(s: BatchStatus) -> (r: String)
    ensures
        r@ == status_string(s),
{
    match s {
        BatchStatus::Pending => "pending".to_string(),
        BatchStatus::Submitted => "submitted".to_string(),
        BatchStatus::Received => "received".to_string(),
    }
}

/// Project a batch into its response shape.
pub fn batch_to_response(batch: &Batch) -> (r: BatchResponse)
    ensures
        batch_response_matches(r, *batch),
{
    let mut requests: Vec<LiquidUnstakeRequestResponse> = Vec::new();
    let n = batch.liquid_unstake_requests.len();
    let mut i: usize = 0;
    while i < n
        invariant
            n == batch.liquid_unstake_requests@.len(),
            0 <= i <= n,
            requests@.len() == i,
            forall|k: int|
                0 <= k < i ==> (#[trigger] requests@[k]).user@
                    == batch.liquid_unstake_requests@[k].user@ && requests@[k].amount
                    == batch.liquid_unstake_requests@[k].shares && requests@[k].redeemed
                    == batch.liquid_unstake_requests@[k].redeemed,
        decreases n - i,
    {
        let entry = &batch.liquid_unstake_requests[i];
        requests.push(
            LiquidUnstakeRequestResponse {
                user: entry.user.clone(),
                amount: entry.shares,
                redeemed: entry.redeemed,
            },
        );
        i += 1;
    }
    let expected: u128 = match batch.expected_native_unstaked {
        Some(v) => v,
        None => 0,
    };
    let received: u128 = match batch.received_native_unstaked {
        Some(v) => v,
        None => 0,
    };
    let next_time: u64 = match batch.next_batch_action_time {
        Some(v) => v,
        None => 0,
    };
    BatchResponse {
        id: batch.id,
        batch_total_liquid_stake: batch.batch_total_liquid_stake,
        expected_native_unstaked: expected,
        received_native_unstaked: received,
        next_batch_action_time: next_time,
        status: status_to_string(batch.status),
        requests,
    }
}

/// An archived batch by id.
pub fn query_batch(p: &Protocol, id: u64) -> (r: ContractResult<BatchResponse>)
    ensures
        !(1 <= id <= p.batches@.len()) ==> r == Err::<BatchResponse, _>(
            ContractError::BatchNotFound { id },
        ),
        1 <= id <= p.batches@.len() ==> (r matches Ok(resp) && batch_response_matches(
            resp,
            p.batches@[id - 1],
        )),
{
    if id < 1 || id > (p.batches.len() as u64) {
        return Err(ContractError::BatchNotFound { id });
    }
    let idx: usize = (id - 1) as usize;
    Ok(batch_to_response(&p.batches[idx]))
}

/// The currently open batch.
pub fn query_pending_batch(p: &Protocol) -> (r: BatchResponse)
    ensures
        batch_response_matches(r, p.pending_batch),
{
    batch_to_response(&p.pending_batch)
}

/// Index of the first archived batch with id above `start_after`; batch ids
/// are the archive index plus one.
pub open spec fn batches_start_index(len: int, start_after: Option<u64>) -> int {
    match start_after {
        Some(v) => if v <= len {
            v as int
        } else {
            len
        },
        None => 0,
    }
}

/// The page size a limit allows over `avail` items.
pub open spec fn page_len(avail: int, limit: Option<u32>) -> int {
    match limit {
        Some(l) => if l <= avail {
            l as int
        } else {
            avail
        },
        None => avail,
    }
}

/// Archived batches with ids above `start_after`, at most `limit` of them,
/// in ascending id order.
pub fn query_batches(p: &Protocol, start_after: Option<u64>, limit: Option<u32>) -> (r:
    BatchesResponse)
    ensures
        ({
            let s = batches_start_index(p.batches@.len() as int, start_after);
            let count = page_len(p.batches@.len() - s, limit);
            &&& r.batches@.len() == count
            &&& forall|k: int|
                0 <= k < count ==> batch_response_matches(
                    #[trigger] r.batches@[k],
                    p.batches@[s + k],
                )
        }),
{
    let n = p.batches.len();
    let start: usize = match start_after {
        Some(v) => if v <= (n as u64) {
            v as usize
        } else {
            n
        },
        None => 0,
    };
    let avail = n - start;
    let count: usize = match limit {
        Some(l) => if (l as usize) <= avail {
            l as usize
        } else {
            avail
        },
        None => avail,
    };
    let mut batches: Vec<BatchResponse> = Vec::new();
    let mut i: usize = 0;
    while i < count
        invariant
            start + count <= n,
            n == p.batches@.len(),
            0 <= i <= count,
            batches@.len() == i,
            forall|k: int|
                0 <= k < i ==> batch_response_matches(
                    #[trigger] batches@[k],
                    p.batches@[start + k],
                ),
        decreases count - i,
    {
        batches.push(batch_to_response(&p.batches[start + i]));
        i += 1;
    }
    BatchesResponse { batches }
}


/// Whether an identifier lies past the pagination cursor.
pub open spec fn above_cursor(sequence: u64, start_after: Option<u64>) -> bool {
    match start_after {
        Some(v) => sequence > v,
        None => true,
    }
}

/// The in-flight transfers with identifiers above `start_after`, at most
/// `limit` of them, in dispatch order. The result is the contiguous window
/// of the queue that starts at the first entry past the cursor.
pub fn query_ibc_queue(p: &Protocol, start_after: Option<u64>, limit: Option<u32>) -> (r:
    IBCQueueResponse)
    requires
        p.inv(),
    ensures
        exists|s: int|
            {
                &&& 0 <= s <= p.inflight_packets@.len()
                &&& (forall|k: int|
                    0 <= k < s ==> !above_cursor(
                        (#[trigger] p.inflight_packets@[k]).sequence,
                        start_after,
                    ))
                &&& (forall|k: int|
                    s <= k < p.inflight_packets@.len() ==> above_cursor(
                        (#[trigger] p.inflight_packets@[k]).sequence,
                        start_after,
                    ))
                &&& r.ibc_queue@ =~= #[trigger] p.inflight_packets@.subrange(
                    s,
                    s + page_len(p.inflight_packets@.len() - s, limit),
                )
            },
{
    let v = &p.inflight_packets;
    let n = v.len();
    let mut s: usize = 0;
    loop
        invariant
            n == v@.len(),
            0 <= s <= n,
            p.inv(),
            v == p.inflight_packets,
            forall|k: int|
                0 <= k < s ==> !above_cursor((#[trigger] v@[k]).sequence, start_after),
        ensures
            0 <= s <= n,
            forall|k: int|
                0 <= k < s ==> !above_cursor((#[trigger] v@[k]).sequence, start_after),
            forall|k: int|
                s <= k < n ==> above_cursor((#[trigger] v@[k]).sequence, start_after),
        decreases n - s,
    {
        if s >= n {
            break ;
        }
        let past: bool = match start_after {
            Some(cursor) => v[s].sequence > cursor,
            None => true,
        };
        if past {
            proof {
                assert forall|k: int|
                    s <= k < n implies above_cursor(
                    (#[trigger] v@[k]).sequence,
                    start_after,
                ) by {
                    if k > s {
                        assert(v@[s as int].sequence < v@[k].sequence);
                    }
                }
            }
            break ;
        }
        s += 1;
    }
    let avail = n - s;
    let count: usize = match limit {
        Some(l) => if (l as usize) <= avail {
            l as usize
        } else {
            avail
        },
        None => avail,
    };
    let mut out: Vec<InFlightTransfer> = Vec::new();
    let mut j: usize = s;
    while j < s + count
        invariant
            s + count <= n,
            n == v@.len(),
            v == p.inflight_packets,
            s <= j <= s + count,
            out@ =~= v@.subrange(s as int, j as int),
        decreases s + count - j,
    {
        out.push(v[j]);
        j += 1;
        proof {
            assert(out@ =~= v@.subrange(s as int, j as int));
        }
    }
    proof {
        let si = s as int;
        assert(out@ =~= p.inflight_packets@.subrange(
            si,
            si + page_len(p.inflight_packets@.len() - si, limit),
        ));
    }
    IBCQueueResponse { ibc_queue: out }
}

/// The pending protocol messages with identifiers above `start_after`, at
/// most `limit` of them, in dispatch order.
pub fn query_reply_queue(p: &Protocol, start_after: Option<u64>, limit: Option<u32>) -> (r:
    IBCReplyQueueResponse)
    requires
        p.inv(),
    ensures
        exists|s: int|
            {
                &&& 0 <= s <= p.reply_queue@.len()
                &&& (forall|k: int|
                    0 <= k < s ==> !above_cursor(
                        (#[trigger] p.reply_queue@[k]).sequence,
                        start_after,
                    ))
                &&& (forall|k: int|
                    s <= k < p.reply_queue@.len() ==> above_cursor(
                        (#[trigger] p.reply_queue@[k]).sequence,
                        start_after,
                    ))
                &&& r.ibc_queue@ =~= #[trigger] p.reply_queue@.subrange(
                    s,
                    s + page_len(p.reply_queue@.len() - s, limit),
                )
            },
{
    let v = &p.reply_queue;
    let n = v.len();
    let mut s: usize = 0;
    loop
        invariant
            n == v@.len(),
            0 <= s <= n,
            p.inv(),
            v == p.reply_queue,
            forall|k: int|
                0 <= k < s ==> !above_cursor((#[trigger] v@[k]).sequence, start_after),
        ensures
            0 <= s <= n,
            forall|k: int|
                0 <= k < s ==> !above_cursor((#[trigger] v@[k]).sequence, start_after),
            forall|k: int|
                s <= k < n ==> above_cursor((#[trigger] v@[k]).sequence, start_after),
        decreases n - s,
    {
        if s >= n {
            break ;
        }
        let past: bool = match start_after {
            Some(cursor) => v[s].sequence > cursor,
            None => true,
        };
        if past {
            proof {
                assert forall|k: int|
                    s <= k < n implies above_cursor(
                    (#[trigger] v@[k]).sequence,
                    start_after,
                ) by {
                    if k > s {
                        assert(v@[s as int].sequence < v@[k].sequence);
                    }
                }
            }
            break ;
        }
        s += 1;
    }
    let avail = n - s;
    let count: usize = match limit {
        Some(l) => if (l as usize) <= avail {
            l as usize
        } else {
            avail
        },
        None => avail,
    };
    let mut out: Vec<PendingReply> = Vec::new();
    let mut j: usize = s;
    while j < s + count
        invariant
            s + count <= n,
            n == v@.len(),
            v == p.reply_queue,
            s <= j <= s + count,
            out@ =~= v@.subrange(s as int, j as int),
        decreases s + count - j,
    {
        out.push(v[j]);
        j += 1;
        proof {
            assert(out@ =~= v@.subrange(s as int, j as int));
        }
    }
    proof {
        let si = s as int;
        assert(out@ =~= p.reply_queue@.subrange(
            si,
            si + page_len(p.reply_queue@.len() - si, limit),
        ));
    }
    IBCReplyQueueResponse { ibc_queue: out }
}

/// Whether `user` can still claim from `b`: the batch has settled and the
/// user's request is not yet redeemed.
pub open spec fn claimable_for(b: Batch, user: Seq<char>) -> bool {
    &&& b.status is Received
    &&& b.has_request(user)
    &&& !b.liquid_unstake_requests@[b.request_index_of(user)].redeemed
}

/// The settled batches `user` can still claim from, among those with ids
/// above `start_after`, at most `limit` of them, in ascending id order.
pub fn query_claimable(
    p: &Protocol,
    user: &String,
    start_after: Option<u64>,
    limit: Option<u32>,
) -> (r: BatchesResponse)
    requires
        p.inv(),
    ensures
        ({
            let s = batches_start_index(p.batches@.len() as int, start_after);
            let avail = p.batches@.subrange(s, p.batches@.len() as int).filter(
                |b: Batch| claimable_for(b, user@),
            );
            &&& r.batches@.len() == page_len(avail.len() as int, limit)
            &&& forall|k: int|
                0 <= k < r.batches@.len() ==> batch_response_matches(
                    #[trigger] r.batches@[k],
                    avail[k],
                )
        }),
{
    let ghost pred = |b: Batch| claimable_for(b, user@);
    let n = p.batches.len();
    let start: usize = match start_after {
        Some(v) => if v <= (n as u64) {
            v as usize
        } else {
            n
        },
        None => 0,
    };
    let lim: usize = match limit {
        Some(l) => if (l as usize) <= n {
            l as usize
        } else {
            n
        },
        None => n,
    };
    let mut out: Vec<BatchResponse> = Vec::new();
    let ghost mut acc: Seq<Batch> = Seq::empty();
    let mut i: usize = start;
    proof {
        assert(p.batches@.subrange(start as int, start as int) =~= Seq::<Batch>::empty());
        assert(acc =~= p.batches@.subrange(start as int, start as int).filter(pred));
    }
    while i < n && out.len() < lim
        invariant
            n == p.batches@.len(),
            start <= i <= n,
            p.inv(),
            lim <= n || (limit matches Some(l) && lim == l),
            (limit matches Some(l) ==> lim == if (l as int) <= n {
                l as int
            } else {
                n as int
            }),
            (limit is None ==> lim == n),
            pred == (|b: Batch| claimable_for(b, user@)),
            acc == p.batches@.subrange(start as int, i as int).filter(pred),
            out@.len() == acc.len(),
            out@.len() <= lim,
            forall|k: int|
                0 <= k < acc.len() ==> batch_response_matches(#[trigger] out@[k], acc[k]),
        decreases n - i,
    {
        let b = &p.batches[i];
        let is_received: bool = match b.status {
            BatchStatus::Received => true,
            _ => false,
        };
        let mut claimable: bool = false;
        if is_received {
            let found = crate::execute::find_request_idx(&b.liquid_unstake_requests, user);
            match found {
                Some(ri) => {
                    proof {
                        assert(b.has_request(user@));
                        assert(b.request_index_of(user@) == ri as int) by {
                            let j = b.request_index_of(user@);
                            assert(0 <= j < b.liquid_unstake_requests@.len()
                                && b.liquid_unstake_requests@[j].user@ == user@);
                        }
                    }
                    if !b.liquid_unstake_requests[ri].redeemed {
                        claimable = true;
                    }
                },
                None => {},
            }
        }
        proof {
            assert(claimable == claimable_for(p.batches@[i as int], user@));
            let sub = p.batches@.subrange(start as int, i as int);
            let sub1 = p.batches@.subrange(start as int, i as int + 1);
            assert(sub1.drop_last() =~= sub);
            assert(sub1.last() == p.batches@[i as int]);
            assert(sub1.filter(pred) == if pred(p.batches@[i as int]) {
                sub.filter(pred).push(p.batches@[i as int])
            } else {
                sub.filter(pred)
            }) by {
                reveal_with_fuel(Seq::filter, 2);
            }
        }
        if claimable {
            out.push(batch_to_response(b));
            proof {
                acc = acc.push(p.batches@[i as int]);
            }
        }
        i += 1;
    }
    proof {
        let s = start as int;
        let pre = p.batches@.subrange(s, i as int);
        let post = p.batches@.subrange(i as int, n as int);
        let whole = p.batches@.subrange(s, n as int);
        assert(whole =~= pre + post);
        Seq::<Batch>::filter_distributes_over_add(pre, post, pred);
        let avail = whole.filter(pred);
        assert(avail == pre.filter(pred) + post.filter(pred));
        if i < n {
            // stopped because the page is full
            assert(out@.len() == lim);
            assert(avail.len() >= acc.len());
            assert forall|k: int| 0 <= k < acc.len() implies avail[k] == acc[k] by {
                assert(avail[k] == (pre.filter(pred) + post.filter(pred))[k]);
            }
        } else {
            post.lemma_filter_len(pred);
            assert(post =~= Seq::<Batch>::empty());
            assert(avail =~= acc + post.filter(pred));
            assert(post.filter(pred).len() == 0);
            assert(avail.len() == acc.len());
            assert forall|k: int| 0 <= k < acc.len() implies avail[k] == acc[k] by {
                assert(avail[k] == (pre.filter(pred) + post.filter(pred))[k]);
            }
        }
    }
    BatchesResponse { batches: out }
}

} // verus!
