use liquid_staking::error::ContractError;
use liquid_staking::execute::{
    execute_accept_ownership, execute_add_validator, execute_claim, execute_liquid_stake,
    execute_liquid_unstake, execute_remove_validator, execute_revoke_ownership_transfer,
    execute_submit_batch, execute_transfer_ownership,
};
use liquid_staking::helpers::{compute_mint_amount, compute_unbond_amount};
use liquid_staking::msg::{ProtocolMsg, ReplyDisposition, ReplyOutcome};
use liquid_staking::reply::{mark_received, on_reply};
use liquid_staking::staking::BatchStatus;
use liquid_staking::state::{
    Config, EnvInfo, MultisigAddressConfig, Protocol, ProtocolFeeConfig, TransferStatus,
};

fn test_config() -> Config {
    Config {
        native_token_denom: "utia".to_string(),
        liquid_stake_token_denom: "stutia".to_string(),
        treasury_address: "treasury".to_string(),
        node_operators: vec!["operator1".to_string()],
        validators: vec!["validator1".to_string(), "validator2".to_string()],
        batch_period: 100,
        unbonding_period: 1000,
        protocol_fee_config: ProtocolFeeConfig { dao_treasury_fee: 10 },
        multisig_address_config: MultisigAddressConfig {
            controller_address: "controller".to_string(),
            staker_address: "staker".to_string(),
            reward_collector_address: "collector".to_string(),
        },
        minimum_liquid_stake_amount: 10,
        minimum_rewards_to_collect: 10,
    }
}

fn test_env(now: u64) -> EnvInfo {
    EnvInfo { block_time_seconds: now, contract_address: "protocol".to_string() }
}

fn fresh_protocol() -> Protocol {
    Protocol::new(test_config(), Some("admin".to_string()), 0)
}

#[test]
fn bootstrap_stake_mints_one_to_one() {
    let mut p = fresh_protocol();
    let msgs =
        execute_liquid_stake(&mut p, &test_env(5), "alice".to_string(), 1000).unwrap();
    assert_eq!(p.state.total_native_token, 1000);
    assert_eq!(p.state.total_liquid_stake_token, 1000);
    assert_eq!(
        msgs,
        vec![ProtocolMsg::Mint { amount: 1000, recipient: "alice".to_string() }]
    );
    // the emitted mint instruction is tracked until its callback arrives
    assert_eq!(p.reply_queue.len(), 1);
    assert_eq!(p.reply_queue[0].sequence, 0);
}

#[test]
fn stake_at_par_rate() {
    let mut p = fresh_protocol();
    execute_liquid_stake(&mut p, &test_env(5), "alice".to_string(), 1000).unwrap();
    let msgs = execute_liquid_stake(&mut p, &test_env(6), "bob".to_string(), 500).unwrap();
    assert_eq!(p.state.total_native_token, 1500);
    assert_eq!(p.state.total_liquid_stake_token, 1500);
    assert_eq!(
        msgs,
        vec![ProtocolMsg::Mint { amount: 500, recipient: "bob".to_string() }]
    );
}

#[test]
fn stake_below_minimum_is_rejected() {
    let mut p = fresh_protocol();
    let err = execute_liquid_stake(&mut p, &test_env(5), "alice".to_string(), 10).unwrap_err();
    assert_eq!(
        err,
        ContractError::MinimumLiquidStakeAmount { minimum_stake_amount: 10, sent_amount: 10 }
    );
    assert_eq!(p.state.total_native_token, 0);
    assert_eq!(p.state.total_liquid_stake_token, 0);
}

#[test]
fn stake_rounding_to_zero_is_rejected() {
    let mut p = fresh_protocol();
    execute_liquid_stake(&mut p, &test_env(5), "alice".to_string(), 1000).unwrap();
    // rewards arrive without new shares: the rate drops below one share per
    // native token, so a tiny deposit would mint nothing
    p.state.total_native_token = 40_000;
    let snapshot = p.clone();
    let err = execute_liquid_stake(&mut p, &test_env(6), "bob".to_string(), 11).unwrap_err();
    assert_eq!(err, ContractError::MintError);
    assert_eq!(p, snapshot);
}

#[test]
fn stake_ratio_never_rises() {
    let mut p = fresh_protocol();
    execute_liquid_stake(&mut p, &test_env(5), "alice".to_string(), 1000).unwrap();
    // simulated rewards
    p.state.total_native_token = 1500;
    let (l0, n0) = (p.state.total_liquid_stake_token, p.state.total_native_token);
    execute_liquid_stake(&mut p, &test_env(6), "bob".to_string(), 100).unwrap();
    let (l1, n1) = (p.state.total_liquid_stake_token, p.state.total_native_token);
    assert_eq!(l1, 1066); // floor(100 * 1000 / 1500) minted
    assert_eq!(n1, 1600);
    assert!(l1 * n0 <= l0 * n1);
}

#[test]
fn two_unstakes_share_one_batch() {
    let mut p = fresh_protocol();
    execute_liquid_stake(&mut p, &test_env(5), "alice".to_string(), 1000).unwrap();
    execute_liquid_stake(&mut p, &test_env(5), "bob".to_string(), 500).unwrap();
    let msgs =
        execute_liquid_unstake(&mut p, &test_env(6), "alice".to_string(), 100).unwrap();
    assert!(msgs.is_empty());
    execute_liquid_unstake(&mut p, &test_env(7), "bob".to_string(), 50).unwrap();
    assert_eq!(p.pending_batch.batch_total_liquid_stake, 150);
    assert_eq!(p.pending_batch.liquid_unstake_requests.len(), 2);
    assert_eq!(p.pending_batch.liquid_unstake_requests[0].user, "alice");
    assert_eq!(p.pending_batch.liquid_unstake_requests[0].shares, 100);
    assert_eq!(p.pending_batch.liquid_unstake_requests[1].user, "bob");
    assert_eq!(p.pending_batch.liquid_unstake_requests[1].shares, 50);
    // the pool stays untouched until settlement
    assert_eq!(p.state.total_native_token, 1500);
    assert_eq!(p.state.total_liquid_stake_token, 1500);
}

#[test]
fn repeated_unstake_accumulates_into_one_entry() {
    let mut p = fresh_protocol();
    execute_liquid_stake(&mut p, &test_env(5), "alice".to_string(), 1000).unwrap();
    execute_liquid_unstake(&mut p, &test_env(6), "alice".to_string(), 100).unwrap();
    execute_liquid_unstake(&mut p, &test_env(7), "alice".to_string(), 40).unwrap();
    assert_eq!(p.pending_batch.liquid_unstake_requests.len(), 1);
    assert_eq!(p.pending_batch.liquid_unstake_requests[0].shares, 140);
    assert_eq!(p.pending_batch.batch_total_liquid_stake, 140);
}

#[test]
fn unstake_below_minimum_is_rejected() {
    let mut p = fresh_protocol();
    execute_liquid_stake(&mut p, &test_env(5), "alice".to_string(), 1000).unwrap();
    let err =
        execute_liquid_unstake(&mut p, &test_env(6), "alice".to_string(), 9).unwrap_err();
    assert_eq!(
        err,
        ContractError::MinimumLiquidStakeAmount { minimum_stake_amount: 10, sent_amount: 9 }
    );
    assert_eq!(p.pending_batch.batch_total_liquid_stake, 0);
}

#[test]
fn unstake_past_action_time_triggers_submission() {
    let mut p = fresh_protocol();
    execute_liquid_stake(&mut p, &test_env(5), "alice".to_string(), 1000).unwrap();
    // the open batch was scheduled at instantiation time plus the batch period
    assert_eq!(p.pending_batch.next_batch_action_time, Some(100));
    let msgs =
        execute_liquid_unstake(&mut p, &test_env(150), "alice".to_string(), 100).unwrap();
    assert_eq!(msgs, vec![ProtocolMsg::TriggerSubmitBatch { batch_id: 1 }]);
}

/// Drive a protocol to the state of the settlement scenario: pool
/// (1500, 1500) and an open batch holding 100 and 50 unstaked shares.
fn settled_setup() -> Protocol {
    let mut p = fresh_protocol();
    execute_liquid_stake(&mut p, &test_env(5), "alice".to_string(), 1000).unwrap();
    execute_liquid_stake(&mut p, &test_env(5), "bob".to_string(), 500).unwrap();
    execute_liquid_unstake(&mut p, &test_env(6), "alice".to_string(), 100).unwrap();
    execute_liquid_unstake(&mut p, &test_env(7), "bob".to_string(), 50).unwrap();
    p
}

#[test]
fn submit_batch_settles_pool_and_opens_next() {
    let mut p = settled_setup();
    let msgs =
        execute_submit_batch(&mut p, &test_env(200), "protocol".to_string(), 1).unwrap();
    // unbond_amount = floor(150 * 1500 / 1500)
    assert_eq!(p.state.total_native_token, 1350);
    assert_eq!(p.state.total_liquid_stake_token, 1350);
    assert_eq!(p.batches.len(), 1);
    assert_eq!(p.batches[0].id, 1);
    assert_eq!(p.batches[0].status, BatchStatus::Submitted);
    assert_eq!(p.batches[0].expected_native_unstaked, Some(150));
    assert_eq!(p.batches[0].next_batch_action_time, Some(1200));
    assert_eq!(p.pending_batch.id, 2);
    assert_eq!(p.pending_batch.status, BatchStatus::Pending);
    assert_eq!(p.pending_batch.batch_total_liquid_stake, 0);
    assert!(p.pending_batch.liquid_unstake_requests.is_empty());
    // burn sized to the batch total, transfer sized to the unbond amount
    assert_eq!(msgs.len(), 2);
    assert_eq!(msgs[0], ProtocolMsg::Burn { amount: 150 });
    assert_eq!(
        msgs[1],
        ProtocolMsg::SendUnbondTransfer {
            sequence: 2,
            batch_id: 1,
            amount: 150,
            receiver: "staker".to_string(),
        }
    );
    assert_eq!(p.inflight_packets.len(), 1);
    assert_eq!(p.inflight_packets[0].sequence, 2);
    assert_eq!(p.inflight_packets[0].status, TransferStatus::Sent);
}

#[test]
fn submit_by_stranger_is_unauthorized() {
    let mut p = settled_setup();
    let snapshot = p.clone();
    let err =
        execute_submit_batch(&mut p, &test_env(200), "alice".to_string(), 1).unwrap_err();
    assert_eq!(err, ContractError::Unauthorized);
    assert_eq!(p, snapshot);
}

#[test]
fn submit_replay_fails_without_double_settlement() {
    let mut p = settled_setup();
    execute_submit_batch(&mut p, &test_env(200), "protocol".to_string(), 1).unwrap();
    let snapshot = p.clone();
    let err =
        execute_submit_batch(&mut p, &test_env(201), "protocol".to_string(), 1).unwrap_err();
    assert_eq!(err, ContractError::InvalidBatchId { pending_id: 2, submitted_id: 1 });
    assert_eq!(p, snapshot);
    assert_eq!(p.state.total_native_token, 1350);
    assert_eq!(p.state.total_liquid_stake_token, 1350);
}

#[test]
fn success_reply_settles_batch_and_unlocks_claims() {
    let mut p = settled_setup();
    execute_submit_batch(&mut p, &test_env(200), "protocol".to_string(), 1).unwrap();
    let report = on_reply(&mut p, 2, ReplyOutcome::Success).unwrap();
    assert_eq!(
        report.disposition,
        ReplyDisposition::TransferReceived { batch_id: 1, amount: 150 }
    );
    assert_eq!(p.batches[0].status, BatchStatus::Received);
    assert_eq!(p.batches[0].received_native_unstaked, Some(150));
    assert!(p.inflight_packets.is_empty());
    // both requests are claimable, still unredeemed until claimed
    assert!(!p.batches[0].liquid_unstake_requests[0].redeemed);
    assert!(!p.batches[0].liquid_unstake_requests[1].redeemed);
}

#[test]
fn unknown_reply_is_surfaced_and_changes_nothing() {
    let mut p = settled_setup();
    execute_submit_batch(&mut p, &test_env(200), "protocol".to_string(), 1).unwrap();
    let snapshot = p.clone();
    let err = on_reply(&mut p, 99, ReplyOutcome::Success).unwrap_err();
    assert_eq!(err, ContractError::UnknownReply { sequence: 99 });
    assert_eq!(p, snapshot);
}

#[test]
fn failed_transfer_is_kept_for_reconciliation() {
    let mut p = settled_setup();
    execute_submit_batch(&mut p, &test_env(200), "protocol".to_string(), 1).unwrap();
    let report = on_reply(&mut p, 2, ReplyOutcome::Failure).unwrap();
    assert_eq!(
        report.disposition,
        ReplyDisposition::TransferUnresolved { batch_id: 1, amount: 150 }
    );
    // the entry stays visible, marked, and the batch is not settled
    assert_eq!(p.inflight_packets.len(), 1);
    assert_eq!(p.inflight_packets[0].status, TransferStatus::Failed);
    assert_eq!(p.batches[0].status, BatchStatus::Submitted);
    // the identifier no longer awaits a reply
    let err = on_reply(&mut p, 2, ReplyOutcome::Success).unwrap_err();
    assert_eq!(err, ContractError::UnknownReply { sequence: 2 });
}

#[test]
fn timed_out_transfer_is_kept_for_reconciliation() {
    let mut p = settled_setup();
    execute_submit_batch(&mut p, &test_env(200), "protocol".to_string(), 1).unwrap();
    on_reply(&mut p, 2, ReplyOutcome::Timeout).unwrap();
    assert_eq!(p.inflight_packets[0].status, TransferStatus::TimedOut);
    assert_eq!(p.batches[0].status, BatchStatus::Submitted);
}

#[test]
fn mint_callback_retires_pending_reply() {
    let mut p = fresh_protocol();
    execute_liquid_stake(&mut p, &test_env(5), "alice".to_string(), 1000).unwrap();
    assert_eq!(p.reply_queue.len(), 1);
    let report = on_reply(&mut p, 0, ReplyOutcome::Success).unwrap();
    assert_eq!(
        report.disposition,
        ReplyDisposition::MessageConfirmed { kind: liquid_staking::state::ReplyKind::Mint }
    );
    assert!(p.reply_queue.is_empty());
}

#[test]
fn mark_received_needs_submitted_batch() {
    let mut p = settled_setup();
    let err = mark_received(&mut p, 1, 150).unwrap_err();
    assert_eq!(err, ContractError::BatchNotFound { id: 1 });
    execute_submit_batch(&mut p, &test_env(200), "protocol".to_string(), 1).unwrap();
    mark_received(&mut p, 1, 150).unwrap();
    assert_eq!(p.batches[0].status, BatchStatus::Received);
    let err = mark_received(&mut p, 1, 150).unwrap_err();
    assert_eq!(err, ContractError::UnexpectedBatchStatus { id: 1 });
}

#[test]
fn claims_pay_pro_rata_and_flip_once() {
    let mut p = settled_setup();
    execute_submit_batch(&mut p, &test_env(200), "protocol".to_string(), 1).unwrap();
    on_reply(&mut p, 2, ReplyOutcome::Success).unwrap();
    let msgs = execute_claim(&mut p, "alice".to_string(), 1).unwrap();
    assert_eq!(
        msgs,
        vec![ProtocolMsg::Withdraw { amount: 100, recipient: "alice".to_string() }]
    );
    assert!(p.batches[0].liquid_unstake_requests[0].redeemed);
    let err = execute_claim(&mut p, "alice".to_string(), 1).unwrap_err();
    assert_eq!(err, ContractError::AlreadyRedeemed { id: 1 });
    let err = execute_claim(&mut p, "carol".to_string(), 1).unwrap_err();
    assert_eq!(err, ContractError::NoRequestInBatch { id: 1 });
    let err = execute_claim(&mut p, "bob".to_string(), 2).unwrap_err();
    assert_eq!(err, ContractError::BatchNotFound { id: 2 });
    let msgs = execute_claim(&mut p, "bob".to_string(), 1).unwrap();
    assert_eq!(
        msgs,
        vec![ProtocolMsg::Withdraw { amount: 50, recipient: "bob".to_string() }]
    );
}

#[test]
fn claim_before_settlement_is_rejected() {
    let mut p = settled_setup();
    execute_submit_batch(&mut p, &test_env(200), "protocol".to_string(), 1).unwrap();
    let err = execute_claim(&mut p, "alice".to_string(), 1).unwrap_err();
    assert_eq!(err, ContractError::UnexpectedBatchStatus { id: 1 });
}

#[test]
fn ownership_handover_is_two_step() {
    let mut p = fresh_protocol();
    let err = execute_transfer_ownership(&mut p, "mallory".to_string(), "mallory".to_string())
        .unwrap_err();
    assert_eq!(err, ContractError::Unauthorized);
    execute_transfer_ownership(&mut p, "admin".to_string(), "new_admin".to_string()).unwrap();
    assert_eq!(p.state.pending_owner, Some("new_admin".to_string()));
    let err = execute_accept_ownership(&mut p, "mallory".to_string()).unwrap_err();
    assert_eq!(err, ContractError::NoPendingOwner);
    execute_accept_ownership(&mut p, "new_admin".to_string()).unwrap();
    assert_eq!(p.admin, Some("new_admin".to_string()));
    assert_eq!(p.state.pending_owner, None);
}

#[test]
fn revoked_transfer_cannot_be_accepted() {
    let mut p = fresh_protocol();
    execute_transfer_ownership(&mut p, "admin".to_string(), "new_admin".to_string()).unwrap();
    execute_revoke_ownership_transfer(&mut p, "admin".to_string()).unwrap();
    assert_eq!(p.state.pending_owner, None);
    let err = execute_accept_ownership(&mut p, "new_admin".to_string()).unwrap_err();
    assert_eq!(err, ContractError::NoPendingOwner);
}

#[test]
fn validator_registry_rejects_duplicates_and_unknowns() {
    let mut p = fresh_protocol();
    let err = execute_add_validator(&mut p, "mallory".to_string(), "validator3".to_string())
        .unwrap_err();
    assert_eq!(err, ContractError::Unauthorized);
    execute_add_validator(&mut p, "admin".to_string(), "validator3".to_string()).unwrap();
    assert_eq!(p.config.validators.len(), 3);
    let err = execute_add_validator(&mut p, "admin".to_string(), "validator3".to_string())
        .unwrap_err();
    assert_eq!(
        err,
        ContractError::DuplicateValidator { validator: "validator3".to_string() }
    );
    execute_remove_validator(&mut p, "admin".to_string(), "validator1".to_string()).unwrap();
    assert_eq!(
        p.config.validators,
        vec!["validator2".to_string(), "validator3".to_string()]
    );
    let err = execute_remove_validator(&mut p, "admin".to_string(), "validator1".to_string())
        .unwrap_err();
    assert_eq!(
        err,
        ContractError::ValidatorNotFound { validator: "validator1".to_string() }
    );
}

#[test]
fn exchange_rate_helpers_floor_towards_the_pool() {
    // a result that differs from every argument shows the ratio really is
    // computed, not echoed
    assert_eq!(compute_mint_amount(4, 10, 6), 15);
    assert_eq!(compute_mint_amount(0, 0, 777), 777);
    assert_eq!(compute_mint_amount(100, 99, 5), 4); // floor(5 * 99 / 100)
    assert_eq!(compute_unbond_amount(10, 4, 2), 5);
    assert_eq!(compute_unbond_amount(1500, 1500, 150), 150);
    assert_eq!(compute_unbond_amount(0, 0, 150), 0);
}

#[test]
fn replies_correlate_by_identifier_in_any_order() {
    let mut p = fresh_protocol();
    execute_liquid_stake(&mut p, &test_env(1), "alice".to_string(), 10_000).unwrap();
    execute_liquid_unstake(&mut p, &test_env(2), "alice".to_string(), 100).unwrap();
    execute_submit_batch(&mut p, &test_env(3), "protocol".to_string(), 1).unwrap();
    execute_liquid_unstake(&mut p, &test_env(4), "alice".to_string(), 200).unwrap();
    execute_submit_batch(&mut p, &test_env(5), "protocol".to_string(), 2).unwrap();
    let first = p.inflight_packets[0].sequence;
    let second = p.inflight_packets[1].sequence;
    // the later dispatch settles first; the earlier one is unaffected
    on_reply(&mut p, second, ReplyOutcome::Success).unwrap();
    assert_eq!(p.batches[1].status, BatchStatus::Received);
    assert_eq!(p.batches[0].status, BatchStatus::Submitted);
    on_reply(&mut p, first, ReplyOutcome::Success).unwrap();
    assert_eq!(p.batches[0].status, BatchStatus::Received);
    assert!(p.inflight_packets.is_empty());
}
