//! Share-based accounting and rules of a delegated staking pool.
//!
//! The library holds the decisions of the pool: how deposits mint shares,
//! how rewards and slashes reach delegators, when stake may leave, how fees
//! and ownership change, and how a post-quantum staking key is encoded.
//! Reading the chain environment, storage and promises are left to the caller,
//! which hands the values in and carries out the outcomes.

pub mod muldiv;

pub mod key;
pub mod types;
pub mod account;
pub mod pool;
pub mod staking;
pub mod rewards;
pub mod admin;
pub mod views;
pub mod migration;
pub mod laws;
