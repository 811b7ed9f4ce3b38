//! Cross-chain settlement reconciliation: a dispatched transfer or
//! instruction completes (or fails, or times out) through a later,
//! independently delivered reply, correlated purely by identifier.

use vstd::prelude::*;
use crate::error::{ContractError, ContractResult};
use crate::msg::{ReplyDisposition, ReplyOutcome, ReplyReport};
use crate::staking::{Batch, BatchStatus};
use crate::state::{InFlightTransfer, Protocol, TransferStatus};

verus! {

/// Whether `sequence` names an in-flight transfer still awaiting its reply.
pub open spec fn has_inflight(p: Protocol, sequence: u64) -> bool {
    exists|i: int|
        0 <= i < p.inflight_packets@.len() && p.inflight_packets@[i].sequence == sequence
            && p.inflight_packets@[i].status is Sent
}

/// Index of that in-flight transfer; meaningful only under `has_inflight`.
pub open spec fn inflight_index_of(p: Protocol, sequence: u64) -> int {
    choose|i: int|
        0 <= i < p.inflight_packets@.len() && p.inflight_packets@[i].sequence == sequence
            && p.inflight_packets@[i].status is Sent
}

/// Whether `sequence` names a protocol message awaiting its callback.
pub open spec fn has_pending_reply(p: Protocol, sequence: u64) -> bool {
    exists|i: int| 0 <= i < p.reply_queue@.len() && p.reply_queue@[i].sequence == sequence
}

/// Index of that pending reply; meaningful only under `has_pending_reply`.
pub open spec fn pending_reply_index_of(p: Protocol, sequence: u64) -> int {
    choose|i: int| 0 <= i < p.reply_queue@.len() && p.reply_queue@[i].sequence == sequence
}

fn find_inflight_idx(v: &Vec<InFlightTransfer>, sequence: u64) -> (r: Option<usize>)
    ensures
        r matches Some(i) ==> i < v@.len() && v@[i as int].sequence == sequence
            && v@[i as int].status is Sent,
        r is None ==> forall|k: int|
            0 <= k < v@.len() ==> !(v@[k].sequence == sequence && v@[k].status is Sent),
{
    let n = v.len();
    let mut idx: usize = 0;
    while idx < n
        invariant
            n == v@.len(),
            0 <= idx <= n,
            forall|k: int|
                0 <= k < idx ==> !(v@[k].sequence == sequence && v@[k].status is Sent),
        decreases n - idx,
    {
        let is_sent = match v[idx].status {
            TransferStatus::Sent => true,
            _ => false,
        };
        if v[idx].sequence == sequence && is_sent {
            return Some(idx);
        }
        idx += 1;
    }
    None
}

/// Settle a submitted batch with the amount the remote unbonding actually
/// delivered: status moves to `Received` and every unredeemed request in the
/// batch becomes claimable. Fails when `batch_id` does not name an archived,
/// still `Submitted` batch.
pub fn mark_received(p: &mut Protocol, batch_id: u64, received_amount: u128) -> (r:
    ContractResult<()>)
    requires
        old(p).inv(),
    ensures
        final(p).inv(),
        !(1 <= batch_id <= old(p).batches@.len()) ==> r == Err::<(), _>(
            ContractError::BatchNotFound { id: batch_id },
        ) && *final(p) == *old(p),
        1 <= batch_id <= old(p).batches@.len() && !(old(p).batches@[batch_id - 1].status
            is Submitted) ==> r == Err::<(), _>(ContractError::UnexpectedBatchStatus {
            id: batch_id,
        }) && *final(p) == *old(p),
        1 <= batch_id <= old(p).batches@.len() && old(p).batches@[batch_id - 1].status
            is Submitted ==> r == Ok::<_, ContractError>(()) && final(p).batches@ =~= old(p).batches@.update(
            batch_id - 1,
            (Batch {
                status: BatchStatus::Received,
                received_native_unstaked: Some(received_amount),
                ..old(p).batches@[batch_id - 1]
            }),
        ) && final(p).state == old(p).state && final(p).config == old(p).config && final(p).admin == old(p).admin && final(p).pending_batch == old(p).pending_batch && final(p).inflight_packets == old(p).inflight_packets && final(p).reply_queue == old(p).reply_queue && final(p).next_sequence == old(p).next_sequence,
{
    if batch_id < 1 || batch_id > (p.batches.len() as u64) {
        return Err(ContractError::BatchNotFound { id: batch_id });
    }
    let idx: usize = (batch_id - 1) as usize;
    match p.batches[idx].status {
        BatchStatus::Submitted => {},
        _ => {
            return Err(ContractError::UnexpectedBatchStatus { id: batch_id });
        },
    }
    let batch = &mut p.batches[idx];
    batch.status = BatchStatus::Received;
    batch.received_native_unstaked = Some(received_amount);
    proof {
        assert(p.batches@ =~= old(p).batches@.update(
            batch_id - 1,
            (Batch {
                status: BatchStatus::Received,
                received_native_unstaked: Some(received_amount),
                ..old(p).batches@[batch_id - 1]
            }),
        ));
    }
    Ok(())
}

/// Reconcile an asynchronous reply against the tracker, correlating purely
/// by identifier, in any arrival order. A successful transfer reply settles
/// its batch and retires the entry; a failure or timeout keeps the entry,
/// marked, for operator reconciliation and never retries the transfer. A
/// reply for a tracked protocol message retires its entry. A reply for an
/// unknown identifier changes nothing and is surfaced as an error.
pub fn on_reply(p: &mut Protocol, sequence: u64, outcome: ReplyOutcome) -> (r: ContractResult<
    ReplyReport,
>)
    requires
        old(p).inv(),
    ensures
        final(p).inv(),
        !has_inflight(*old(p), sequence) && !has_pending_reply(*old(p), sequence) ==> r
            == Err::<ReplyReport, _>(ContractError::UnknownReply { sequence }) && *final(p)
            == *old(p),
        has_inflight(*old(p), sequence) ==> {
            let i = inflight_index_of(*old(p), sequence);
            let e = old(p).inflight_packets@[i];
            &&& (outcome is Success && old(p).batches@[e.batch_id - 1].status is Submitted
                ==> {
                &&& r == Ok::<_, ContractError>((ReplyReport {
                    sequence,
                    disposition: ReplyDisposition::TransferReceived {
                        batch_id: e.batch_id,
                        amount: e.amount,
                    },
                }))
                &&& final(p).inflight_packets@ =~= old(p).inflight_packets@.remove(i)
                &&& final(p).batches@ =~= old(p).batches@.update(
                    e.batch_id - 1,
                    (Batch {
                        status: BatchStatus::Received,
                        received_native_unstaked: Some(e.amount),
                        ..old(p).batches@[e.batch_id - 1]
                    }),
                )
                &&& final(p).state == old(p).state
                &&& final(p).reply_queue == old(p).reply_queue
            })
            &&& (outcome is Success && !(old(p).batches@[e.batch_id - 1].status
                is Submitted) ==> r == Err::<ReplyReport, _>(
                ContractError::UnexpectedBatchStatus { id: e.batch_id },
            ) && *final(p) == *old(p))
            &&& (!(outcome is Success) ==> {
                &&& r == Ok::<_, ContractError>((ReplyReport {
                    sequence,
                    disposition: ReplyDisposition::TransferUnresolved {
                        batch_id: e.batch_id,
                        amount: e.amount,
                    },
                }))
                &&& final(p).inflight_packets@ =~= old(p).inflight_packets@.update(
                    i,
                    (InFlightTransfer {
                        status: if outcome is Failure {
                            TransferStatus::Failed
                        } else {
                            TransferStatus::TimedOut
                        },
                        ..e
                    }),
                )
                &&& final(p).batches == old(p).batches
                &&& final(p).state == old(p).state
                &&& final(p).reply_queue == old(p).reply_queue
            })
            &&& final(p).config == old(p).config
            &&& final(p).admin == old(p).admin
            &&& final(p).pending_batch == old(p).pending_batch
            &&& final(p).next_sequence == old(p).next_sequence
        },
        !has_inflight(*old(p), sequence) && has_pending_reply(*old(p), sequence) ==> {
            let j = pending_reply_index_of(*old(p), sequence);
            let e = old(p).reply_queue@[j];
            &&& r == Ok::<_, ContractError>((ReplyReport {
                sequence,
                disposition: if outcome is Success {
                    ReplyDisposition::MessageConfirmed { kind: e.kind }
                } else {
                    ReplyDisposition::MessageUnresolved { kind: e.kind }
                },
            }))
            &&& final(p).reply_queue@ =~= old(p).reply_queue@.remove(j)
            &&& final(p).inflight_packets == old(p).inflight_packets
            &&& final(p).batches == old(p).batches
            &&& final(p).state == old(p).state
            &&& final(p).config == old(p).config
            &&& final(p).admin == old(p).admin
            &&& final(p).pending_batch == old(p).pending_batch
            &&& final(p).next_sequence == old(p).next_sequence
        },
{
    let found = find_inflight_idx(&p.inflight_packets, sequence);
    match found {
        Some(i) => {
            proof {
                assert(has_inflight(*old(p), sequence));
                assert(inflight_index_of(*old(p), sequence) == i as int) by {
                    let j = inflight_index_of(*old(p), sequence);
                    assert(0 <= j < old(p).inflight_packets@.len() && old(p).inflight_packets@[j].sequence == sequence && old(p).inflight_packets@[j].status is Sent);
                    if j < i as int {
                        assert(old(p).inflight_packets@[j].sequence < old(p).inflight_packets@[i as int].sequence);
                    }
                    if (i as int) < j {
                        assert(old(p).inflight_packets@[i as int].sequence < old(p).inflight_packets@[j].sequence);
                    }
                }
            }
            let entry = p.inflight_packets[i];
            match outcome {
                ReplyOutcome::Success => {
                    match mark_received(p, entry.batch_id, entry.amount) {
                        Ok(_) => {},
                        Err(e) => {
                            return Err(e);
                        },
                    }
                    p.inflight_packets.remove(i);
                    Ok(ReplyReport {
                        sequence,
                        disposition: ReplyDisposition::TransferReceived {
                            batch_id: entry.batch_id,
                            amount: entry.amount,
                        },
                    })
                },
                ReplyOutcome::Failure => {
                    let slot = &mut p.inflight_packets[i];
                    slot.status = TransferStatus::Failed;
                    proof {
                        assert(p.inflight_packets@ =~= old(p).inflight_packets@.update(
                            i as int,
                            p.inflight_packets@[i as int],
                        ));
                    }
                    Ok(ReplyReport {
                        sequence,
                        disposition: ReplyDisposition::TransferUnresolved {
                            batch_id: entry.batch_id,
                            amount: entry.amount,
                        },
                    })
                },
                ReplyOutcome::Timeout => {
                    let slot = &mut p.inflight_packets[i];
                    slot.status = TransferStatus::TimedOut;
                    proof {
                        assert(p.inflight_packets@ =~= old(p).inflight_packets@.update(
                            i as int,
                            p.inflight_packets@[i as int],
                        ));
                    }
                    Ok(ReplyReport {
                        sequence,
                        disposition: ReplyDisposition::TransferUnresolved {
                            batch_id: entry.batch_id,
                            amount: entry.amount,
                        },
                    })
                },
            }
        },
        None => {
            let n = p.reply_queue.len();
            let mut idx: usize = 0;
            while idx < n
                invariant
                    *p == *old(p),
                    old(p).inv(),
                    n == p.reply_queue@.len(),
                    0 <= idx <= n,
                    forall|k: int| 0 <= k < idx ==> p.reply_queue@[k].sequence != sequence,
                    !has_inflight(*old(p), sequence),
                decreases n - idx,
            {
                if p.reply_queue[idx].sequence == sequence {
                    proof {
                        assert(has_pending_reply(*old(p), sequence));
                        assert(pending_reply_index_of(*old(p), sequence) == idx as int) by {
                            let j = pending_reply_index_of(*old(p), sequence);
                            assert(0 <= j < old(p).reply_queue@.len() && old(p).reply_queue@[j].sequence == sequence);
                            if j < idx as int {
                                assert(old(p).reply_queue@[j].sequence < old(p).reply_queue@[idx as int].sequence);
                            }
                            if (idx as int) < j {
                                assert(old(p).reply_queue@[idx as int].sequence < old(p).reply_queue@[j].sequence);
                            }
                        }
                    }
                    let kind = p.reply_queue[idx].kind;
                    p.reply_queue.remove(idx);
                    let disposition = match outcome {
                        ReplyOutcome::Success => ReplyDisposition::MessageConfirmed { kind },
                        _ => ReplyDisposition::MessageUnresolved { kind },
                    };
                    return Ok(ReplyReport { sequence, disposition });
                }
                idx += 1;
            }
            Err(ContractError::UnknownReply { sequence })
        },
    }
}

} // verus!
