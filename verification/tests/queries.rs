use liquid_staking::execute::{
    execute_liquid_stake, execute_liquid_unstake, execute_submit_batch,
};
use liquid_staking::msg::ReplyOutcome;
use liquid_staking::query::{
    query_batch, query_batches, query_claimable, query_config, query_ibc_queue,
    query_pending_batch, query_reply_queue, query_state, DECIMAL_FRACTIONAL,
};
use liquid_staking::reply::on_reply;
use liquid_staking::state::{
    Config, EnvInfo, MultisigAddressConfig, Protocol, ProtocolFeeConfig,
};

fn test_config() -> Config {
    Config {
        native_token_denom: "utia".to_string(),
        liquid_stake_token_denom: "stutia".to_string(),
        treasury_address: "treasury".to_string(),
        node_operators: vec!["operator1".to_string()],
        validators: vec!["validator1".to_string(), "validator2".to_string()],
        batch_period: 100,
        unbonding_period: 1000,
        protocol_fee_config: ProtocolFeeConfig { dao_treasury_fee: 10 },
        multisig_address_config: MultisigAddressConfig {
            controller_address: "controller".to_string(),
            staker_address: "staker".to_string(),
            reward_collector_address: "collector".to_string(),
        },
        minimum_liquid_stake_amount: 10,
        minimum_rewards_to_collect: 10,
    }
}

fn test_env(now: u64) -> EnvInfo {
    EnvInfo { block_time_seconds: now, contract_address: "protocol".to_string() }
}

/// A protocol with three archived batches (ids 1 to 3, all submitted, the
/// first two settled) and alice holding claims in each.
fn archived_setup() -> Protocol {
    let mut p = Protocol::new(test_config(), Some("admin".to_string()), 0);
    execute_liquid_stake(&mut p, &test_env(1), "alice".to_string(), 10_000).unwrap();
    for round in 0..3u64 {
        execute_liquid_unstake(&mut p, &test_env(10 + round), "alice".to_string(), 100)
            .unwrap();
        execute_submit_batch(&mut p, &test_env(20 + round), "protocol".to_string(), round + 1)
            .unwrap();
    }
    // settle the first two transfers; sequences are assigned in dispatch
    // order: 0 for the mint, then a pair per submission starting at 1
    let first_transfer = p.inflight_packets[0].sequence;
    let second_transfer = p.inflight_packets[1].sequence;
    on_reply(&mut p, first_transfer, ReplyOutcome::Success).unwrap();
    on_reply(&mut p, second_transfer, ReplyOutcome::Success).unwrap();
    p
}

#[test]
fn config_snapshot_carries_every_field() {
    let p = Protocol::new(test_config(), Some("admin".to_string()), 0);
    let r = query_config(&p);
    assert_eq!(r.native_token_denom, "utia");
    assert_eq!(r.liquid_stake_token_denom, "stutia");
    assert_eq!(r.treasury_address, "treasury");
    assert_eq!(r.operators, vec!["operator1".to_string()]);
    assert_eq!(r.validators, vec!["validator1".to_string(), "validator2".to_string()]);
    assert_eq!(r.batch_period, 100);
    assert_eq!(r.unbonding_period, 1000);
    assert_eq!(r.minimum_liquid_stake_amount, 10);
    assert_eq!(r.staker_address, "staker");
    assert_eq!(r.reward_collector_address, "collector");
}

#[test]
fn state_snapshot_reports_the_rate() {
    let mut p = Protocol::new(test_config(), Some("admin".to_string()), 0);
    let r = query_state(&p);
    assert_eq!(r.rate, 0);
    assert_eq!(r.pending_owner, "");
    execute_liquid_stake(&mut p, &test_env(1), "alice".to_string(), 1000).unwrap();
    // simulated rewards: 1000 shares now back 2000 native tokens
    p.state.total_native_token = 2000;
    let r = query_state(&p);
    assert_eq!(r.total_native_token, 2000);
    assert_eq!(r.total_liquid_stake_token, 1000);
    assert_eq!(r.rate, DECIMAL_FRACTIONAL / 2);
}

#[test]
fn pending_batch_projection() {
    let p = Protocol::new(test_config(), Some("admin".to_string()), 0);
    let r = query_pending_batch(&p);
    assert_eq!(r.id, 1);
    assert_eq!(r.status, "pending");
    assert_eq!(r.batch_total_liquid_stake, 0);
    assert_eq!(r.next_batch_action_time, 100);
    assert!(r.requests.is_empty());
}

#[test]
fn batch_by_id_and_missing_id() {
    let p = archived_setup();
    let r = query_batch(&p, 1).unwrap();
    assert_eq!(r.id, 1);
    assert_eq!(r.status, "received");
    assert_eq!(r.batch_total_liquid_stake, 100);
    assert_eq!(r.received_native_unstaked, 100);
    assert_eq!(r.requests.len(), 1);
    assert_eq!(r.requests[0].user, "alice");
    assert_eq!(r.requests[0].amount, 100);
    assert!(query_batch(&p, 9).is_err());
    assert!(query_batch(&p, 0).is_err());
}

#[test]
fn batch_listing_paginates_by_id() {
    let p = archived_setup();
    let all = query_batches(&p, None, None);
    assert_eq!(all.batches.len(), 3);
    assert_eq!(all.batches[0].id, 1);
    assert_eq!(all.batches[2].id, 3);
    let after_one = query_batches(&p, Some(1), None);
    assert_eq!(after_one.batches.len(), 2);
    assert_eq!(after_one.batches[0].id, 2);
    let limited = query_batches(&p, Some(1), Some(1));
    assert_eq!(limited.batches.len(), 1);
    assert_eq!(limited.batches[0].id, 2);
    let past_end = query_batches(&p, Some(7), None);
    assert!(past_end.batches.is_empty());
}

#[test]
fn transfer_queue_lists_unsettled_entries() {
    let p = archived_setup();
    let q = query_ibc_queue(&p, None, None);
    // the third submission's transfer is still awaited
    assert_eq!(q.ibc_queue.len(), 1);
    assert_eq!(q.ibc_queue[0].batch_id, 3);
    let after = query_ibc_queue(&p, Some(q.ibc_queue[0].sequence), None);
    assert!(after.ibc_queue.is_empty());
}

#[test]
fn reply_queue_lists_awaited_callbacks() {
    let p = archived_setup();
    // one mint and three burns were dispatched and never confirmed
    let q = query_reply_queue(&p, None, None);
    assert_eq!(q.ibc_queue.len(), 4);
    let limited = query_reply_queue(&p, Some(q.ibc_queue[0].sequence), Some(2));
    assert_eq!(limited.ibc_queue.len(), 2);
}

#[test]
fn claimable_lists_settled_unredeemed_batches() {
    let mut p = archived_setup();
    let user = "alice".to_string();
    let r = query_claimable(&p, &user, None, None);
    assert_eq!(r.batches.len(), 2);
    assert_eq!(r.batches[0].id, 1);
    assert_eq!(r.batches[1].id, 2);
    let after_one = query_claimable(&p, &user, Some(1), None);
    assert_eq!(after_one.batches.len(), 1);
    assert_eq!(after_one.batches[0].id, 2);
    let stranger = "carol".to_string();
    assert!(query_claimable(&p, &stranger, None, None).batches.is_empty());
    // a redeemed claim drops out of the listing
    liquid_staking::execute::execute_claim(&mut p, "alice".to_string(), 1).unwrap();
    let r = query_claimable(&p, &user, None, None);
    assert_eq!(r.batches.len(), 1);
    assert_eq!(r.batches[0].id, 2);
}
