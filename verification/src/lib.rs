//! Accounting core of a batch-based liquid-staking protocol.
//!
//! Users stake a native token and receive a derivative token at the current
//! pool exchange rate; unstake requests are collected into batches which are
//! submitted for remote unbonding and settled asynchronously through a
//! cross-chain transfer whose completion arrives as a later reply.

pub mod error;
pub mod execute;
pub mod helpers;
pub mod msg;
pub mod query;
pub mod reply;
pub mod staking;
pub mod state;
