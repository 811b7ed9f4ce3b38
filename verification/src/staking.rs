//! The unstake ledger: per-batch requests aggregated into a running total,
//! and the batch lifecycle states.

use vstd::prelude::*;

verus! {

/// Lifecycle of a batch: open for requests, submitted for remote unbonding,
/// or settled after the unbonded funds arrived.
#[derive(Debug, Clone, Copy, PartialEq, Eq, Structural)]
pub enum BatchStatus {
    Pending,
    Submitted,
    Received,
}

/// One requester's accumulated claim inside a batch.
#[derive(Debug, Clone, PartialEq, Eq)]
pub struct LiquidUnstakeRequest {
    pub user: String,
    pub shares: u128,
    pub redeemed: bool,
}

/// An aggregation window of unstake requests settled jointly.
#[derive(Debug, Clone, PartialEq, Eq)]
pub struct Batch {
    pub id: u64,
    pub batch_total_liquid_stake: u128,
    pub expected_native_unstaked: Option<u128>,
    pub received_native_unstaked: Option<u128>,
    pub next_batch_action_time: Option<u64>,
    pub status: BatchStatus,
    pub liquid_unstake_requests: Vec<LiquidUnstakeRequest>,
}

/// Total shares over a request ledger.
pub open spec fn sum_shares(s: Seq<LiquidUnstakeRequest>) -> int
    decreases s.len(),
{
    if s.len() == 0 {
        0
    } else {
        sum_shares(s.drop_last()) + s.last().shares
    }
}

pub proof fn lemma_sum_shares_push(s: Seq<LiquidUnstakeRequest>, r: LiquidUnstakeRequest)
    ensures
        sum_shares(s.push(r)) == sum_shares(s) + r.shares,
{
    assert(s.push(r).drop_last() =~= s);
}

pub proof fn lemma_sum_shares_update(s: Seq<LiquidUnstakeRequest>, i: int, r: LiquidUnstakeRequest)
    requires
        0 <= i < s.len(),
    ensures
        sum_shares(s.update(i, r)) == sum_shares(s) - s[i].shares + r.shares,
    decreases s.len(),
{
    if i == s.len() - 1 {
        assert(s.update(i, r).drop_last() =~= s.drop_last());
        assert(s.update(i, r).last() == r);
    } else {
        assert(s.update(i, r).drop_last() =~= s.drop_last().update(i, r));
        lemma_sum_shares_update(s.drop_last(), i, r);
        assert(s.update(i, r).last() == s.last());
    }
}

/// Every entry's shares are bounded by the ledger total.
pub proof fn lemma_share_le_sum(s: Seq<LiquidUnstakeRequest>, i: int)
    requires
        0 <= i < s.len(),
    ensures
        s[i].shares <= sum_shares(s),
        sum_shares(s) >= 0,
    decreases s.len(),
{
    lemma_sum_shares_nonneg(s.drop_last());
    if i == s.len() - 1 {
        assert(s[i] == s.last());
    } else {
        lemma_share_le_sum(s.drop_last(), i);
        assert(s.drop_last()[i] == s[i]);
    }
}

pub proof fn lemma_sum_shares_nonneg(s: Seq<LiquidUnstakeRequest>)
    ensures
        sum_shares(s) >= 0,
    decreases s.len(),
{
    if s.len() > 0 {
        lemma_sum_shares_nonneg(s.drop_last());
    }
}

impl Batch {
    /// Well-formedness of a batch: the running total equals the sum of the
    /// ledger entries, requesters are distinct, every entry holds shares,
    /// and a settled batch carries the amount it received.
    pub open spec fn wf(self) -> bool {
        &&& sum_shares(self.liquid_unstake_requests@) == self.batch_total_liquid_stake as int
        &&& forall|i: int, j: int|
            0 <= i < j < self.liquid_unstake_requests@.len()
                ==> self.liquid_unstake_requests@[i].user@
                != self.liquid_unstake_requests@[j].user@
        &&& forall|i: int|
            0 <= i < self.liquid_unstake_requests@.len()
                ==> self.liquid_unstake_requests@[i].shares > 0
        &&& self.status is Received ==> self.received_native_unstaked is Some
    }

    /// Whether some ledger entry belongs to `user`.
    pub open spec fn has_request(self, user: Seq<char>) -> bool {
        exists|i: int|
            0 <= i < self.liquid_unstake_requests@.len()
                && self.liquid_unstake_requests@[i].user@ == user
    }

    /// Index of `user`'s ledger entry; meaningful only when `has_request`.
    pub open spec fn request_index_of(self, user: Seq<char>) -> int {
        choose|i: int|
            0 <= i < self.liquid_unstake_requests@.len()
                && self.liquid_unstake_requests@[i].user@ == user
    }

    /// Shares `user` has accumulated in this batch, zero without an entry.
    pub open spec fn request_shares(self, user: Seq<char>) -> int {
        if self.has_request(user) {
            self.liquid_unstake_requests@[self.request_index_of(user)].shares as int
        } else {
            0
        }
    }

    /// A fresh open batch: no requests, the given running total, and the
    /// next lifecycle action scheduled at `next_batch_action_time`.
    pub fn new(id: u64, batch_total_liquid_stake: u128, next_batch_action_time: u64) -> (r: Batch)
        ensures
            r.id == id,
            r.batch_total_liquid_stake == batch_total_liquid_stake,
            r.expected_native_unstaked is None,
            r.received_native_unstaked is None,
            r.next_batch_action_time == Some(next_batch_action_time),
            r.status is Pending,
            r.liquid_unstake_requests@ =~= Seq::<LiquidUnstakeRequest>::empty(),
            batch_total_liquid_stake == 0 ==> r.wf(),
    {
        Batch {
            id,
            batch_total_liquid_stake,
            expected_native_unstaked: None,
            received_native_unstaked: None,
            next_batch_action_time: Some(next_batch_action_time),
            status: BatchStatus::Pending,
            liquid_unstake_requests: Vec::new(),
        }
    }

    /// Move the batch to a new lifecycle status and reschedule (or clear)
    /// its next action time.
    pub fn update_status(&mut self, status: BatchStatus, next_batch_action_time: Option<u64>)
        ensures
            *final(self) == (Batch {
                status,
                next_batch_action_time,
                ..*old(self)
            }),
    {
        self.status = status;
        self.next_batch_action_time = next_batch_action_time;
    }

    /// Record `amount` shares for `user` in this open batch: accumulate into
    /// the user's existing entry or open a new one, and grow the running
    /// total by the same amount.
    pub fn record_unstake(&mut self, user: String, amount: u128)
        requires
            old(self).wf(),
            amount > 0,
            old(self).batch_total_liquid_stake + amount <= u128::MAX,
        ensures
            final(self).wf(),
            final(self).batch_total_liquid_stake
                == old(self).batch_total_liquid_stake + amount,
            final(self).has_request(user@),
            final(self).request_shares(user@) == old(self).request_shares(user@) + amount,
            forall|u: Seq<char>|
                u != user@ ==> final(self).request_shares(u) == old(self).request_shares(u)
                    && (final(self).has_request(u) <==> old(self).has_request(u)),
            final(self).liquid_unstake_requests@.len()
                == old(self).liquid_unstake_requests@.len()
                + if old(self).has_request(user@) { 0int } else { 1int },
            old(self).has_request(user@)
                ==> final(self).liquid_unstake_requests@
                =~= old(self).liquid_unstake_requests@.update(
                old(self).request_index_of(user@),
                (LiquidUnstakeRequest {
                    user: old(self).liquid_unstake_requests@[old(self).request_index_of(
                        user@,
                    )].user,
                    shares: (old(self).liquid_unstake_requests@[old(self).request_index_of(
                        user@,
                    )].shares + amount) as u128,
                    redeemed: old(self).liquid_unstake_requests@[old(self).request_index_of(
                        user@,
                    )].redeemed,
                }),
            ),
            !old(self).has_request(user@)
                ==> final(self).liquid_unstake_requests@
                =~= old(self).liquid_unstake_requests@.push(
                (LiquidUnstakeRequest { user, shares: amount, redeemed: false }),
            ),
            final(self).id == old(self).id,
            final(self).status == old(self).status,
            final(self).expected_native_unstaked == old(self).expected_native_unstaked,
            final(self).received_native_unstaked == old(self).received_native_unstaked,
            final(self).next_batch_action_time == old(self).next_batch_action_time,
    {
        let ghost pre = *self;
        let n = self.liquid_unstake_requests.len();
        let mut idx: usize = 0;
        let mut found: bool = false;
        while idx < n && !found
            invariant
                *self == pre,
                n == pre.liquid_unstake_requests@.len(),
                0 <= idx <= n,
                forall|k: int|
                    0 <= k < idx ==> pre.liquid_unstake_requests@[k].user@ != user@,
                found ==> (idx < n && pre.liquid_unstake_requests@[idx as int].user@ == user@),
            decreases n - idx + if found { 0int } else { 1int },
        {
            if self.liquid_unstake_requests[idx].user == user {
                found = true;
            } else {
                idx += 1;
            }
        }
        proof {
            lemma_sum_shares_nonneg(pre.liquid_unstake_requests@);
        }
        if found {
            proof {
                lemma_share_le_sum(pre.liquid_unstake_requests@, idx as int);
            }
            let entry = &mut self.liquid_unstake_requests[idx];
            entry.shares = entry.shares + amount;
            proof {
                assert(pre.has_request(user@));
                assert(pre.request_index_of(user@) == idx as int) by {
                    let j = pre.request_index_of(user@);
                    assert(0 <= j < pre.liquid_unstake_requests@.len()
                        && pre.liquid_unstake_requests@[j].user@ == user@);
                }
                lemma_sum_shares_update(
                    pre.liquid_unstake_requests@,
                    idx as int,
                    self.liquid_unstake_requests@[idx as int],
                );
                assert(self.liquid_unstake_requests@ =~= pre.liquid_unstake_requests@.update(
                    idx as int,
                    self.liquid_unstake_requests@[idx as int],
                ));
            }
        } else {
            self.liquid_unstake_requests.push(
                LiquidUnstakeRequest { user, shares: amount, redeemed: false },
            );
            proof {
                lemma_sum_shares_push(
                    pre.liquid_unstake_requests@,
                    self.liquid_unstake_requests@.last(),
                );
                assert(!pre.has_request(self.liquid_unstake_requests@.last().user@));
            }
        }
        self.batch_total_liquid_stake = self.batch_total_liquid_stake + amount;
        proof {
            lemma_record_unstake_post(pre, *self, user@, amount);
        }
    }
}

/// The two shapes `record_unstake` leaves the ledger in (an entry grown in
/// place, or a fresh entry appended) both preserve well-formedness and move
/// only the one user's accumulated shares.
proof fn lemma_record_unstake_post(pre: Batch, post: Batch, user: Seq<char>, amount: u128)
    requires
        pre.wf(),
        amount > 0,
        pre.batch_total_liquid_stake + amount <= u128::MAX,
        post.batch_total_liquid_stake == pre.batch_total_liquid_stake + amount,
        pre.status == post.status,
        pre.received_native_unstaked == post.received_native_unstaked,
        pre.has_request(user) ==> post.liquid_unstake_requests@
            =~= pre.liquid_unstake_requests@.update(
            pre.request_index_of(user),
            (LiquidUnstakeRequest {
                user: pre.liquid_unstake_requests@[pre.request_index_of(user)].user,
                shares: (pre.liquid_unstake_requests@[pre.request_index_of(user)].shares
                    + amount) as u128,
                redeemed: pre.liquid_unstake_requests@[pre.request_index_of(user)].redeemed,
            }),
        ),
        !pre.has_request(user) ==> post.liquid_unstake_requests@
            =~= pre.liquid_unstake_requests@.push(
            (LiquidUnstakeRequest { user: post.liquid_unstake_requests@.last().user, shares: amount, redeemed: false }),
        ),
        !pre.has_request(user) ==> post.liquid_unstake_requests@.last().user@ == user,
    ensures
        post.wf(),
        post.has_request(user),
        post.request_shares(user) == pre.request_shares(user) + amount,
        forall|u: Seq<char>|
            u != user ==> post.request_shares(u) == pre.request_shares(u) && (post.has_request(u)
                <==> pre.has_request(u)),
{
    let s = pre.liquid_unstake_requests@;
    let t = post.liquid_unstake_requests@;
    if pre.has_request(user) {
        let i = pre.request_index_of(user);
        assert(0 <= i < s.len() && s[i].user@ == user);
        lemma_sum_shares_update(s, i, t[i]);
        lemma_share_le_sum(s, i);
        assert(t[i].user@ == user);
        assert(post.has_request(user));
        assert(post.request_index_of(user) == i) by {
            let j = post.request_index_of(user);
            assert(0 <= j < t.len() && t[j].user@ == user);
            if j != i {
                assert(s[j].user@ == user);
                assert(false);
            }
        }
        assert forall|u: Seq<char>| u != user implies post.request_shares(u)
            == pre.request_shares(u) && (post.has_request(u) <==> pre.has_request(u)) by {
            assert(forall|k: int| 0 <= k < s.len() && k != i ==> t[k] == s[k]);
            if pre.has_request(u) {
                let j = pre.request_index_of(u);
                assert(0 <= j < s.len() && s[j].user@ == u);
                assert(j != i);
                assert(t[j].user@ == u);
                assert(post.has_request(u));
                assert(post.request_index_of(u) == j) by {
                    let k = post.request_index_of(u);
                    assert(0 <= k < t.len() && t[k].user@ == u);
                    if k != j {
                        if k == i {
                            assert(t[i].user@ == user);
                            assert(false);
                        }
                        assert(s[k].user@ == u);
                        assert(false);
                    }
                }
            } else {
                if post.has_request(u) {
                    let k = post.request_index_of(u);
                    assert(0 <= k < t.len() && t[k].user@ == u);
                    assert(k != i);
                    assert(s[k].user@ == u);
                    assert(false);
                }
            }
        }
    } else {
        let i = s.len() as int;
        lemma_sum_shares_push(s, t[i]);
        lemma_sum_shares_nonneg(s);
        assert(t[i].user@ == user);
        assert(post.has_request(user));
        assert(post.request_index_of(user) == i) by {
            let j = post.request_index_of(user);
            assert(0 <= j < t.len() && t[j].user@ == user);
            if j != i {
                assert(s[j].user@ == user);
                assert(false);
            }
        }
        assert forall|u: Seq<char>| u != user implies post.request_shares(u)
            == pre.request_shares(u) && (post.has_request(u) <==> pre.has_request(u)) by {
            assert(forall|k: int| 0 <= k < s.len() ==> t[k] == s[k]);
            if pre.has_request(u) {
                let j = pre.request_index_of(u);
                assert(0 <= j < s.len() && s[j].user@ == u);
                assert(t[j].user@ == u);
                assert(post.has_request(u));
                assert(post.request_index_of(u) == j) by {
                    let k = post.request_index_of(u);
                    assert(0 <= k < t.len() && t[k].user@ == u);
                    if k != j {
                        if k == i {
                            assert(t[i].user@ == user);
                            assert(false);
                        }
                        assert(s[k].user@ == u);
                        assert(false);
                    }
                }
            } else {
                if post.has_request(u) {
                    let k = post.request_index_of(u);
                    assert(0 <= k < t.len() && t[k].user@ == u);
                    if k == i {
                        assert(t[i].user@ == user);
                        assert(false);
                    }
                    assert(s[k].user@ == u);
                    assert(false);
                }
            }
        }
    }
}

} // verus!
