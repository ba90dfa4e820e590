//! Plain records of the pool: a delegator's position, fee settings, views
//! and the errors that refuse a call.

use vstd::prelude::*;

use crate::key::KeyError;

verus! {

/// One delegator's position in the pool.
#[derive(Clone, Copy, Debug, PartialEq, Eq, Structural)]
pub struct Delegator {
    /// Pool shares owned.
    pub stake_shares: u128,
    /// Amount the delegator counts as deposited; rewards are measured against it.
    pub principal: u128,
    /// Amount taken out of stake and waiting to be withdrawn.
    pub unstaked_balance: u128,
    /// First epoch at which the unstaked balance may be withdrawn.
    pub unstake_available_epoch: u64,
    /// Block time (ns) before which stake may not leave the pool.
    pub unlock_timestamp_ns: u64,
}

/// The record of an account that holds nothing.
pub open spec fn empty_delegator() -> Delegator {
    Delegator {
        stake_shares: 0,
        principal: 0,
        unstaked_balance: 0,
        unstake_available_epoch: 0,
        unlock_timestamp_ns: 0,
    }
}

impl Default for Delegator {
    fn default() -> (d: Self)
        ensures
            d == empty_delegator(),
    {
        Delegator {
            stake_shares: 0,
            principal: 0,
            unstaked_balance: 0,
            unstake_available_epoch: 0,
            unlock_timestamp_ns: 0,
        }
    }
}

/// The stored record of an account, or the empty record where there is none.
pub open spec fn record_or_empty(record: Option<Delegator>) -> Delegator {
    match record {
        Some(d) => d,
        None => empty_delegator(),
    }
}

/// The stored record of an account, or the empty record where there is none.
pub fn record_or_default(record: Option<Delegator>) -> (d: Delegator)
    ensures
        d == record_or_empty(record),
{
    match record {
        Some(d) => d,
        None => Delegator::default(),
    }
}

/// An account's position as shown to callers.
#[derive(Clone, Copy, Debug, PartialEq, Eq, Structural)]
pub struct AccountView {
    pub staked_balance: u128,
    pub unstaked_balance: u128,
    pub total_balance: u128,
    pub principal: u128,
    pub rewards_earned: u128,
    pub can_withdraw: bool,
    pub is_locked: bool,
    pub unlock_timestamp_ns: u64,
    pub unstake_available_epoch: u64,
}

/// The fees in force, in basis points.
#[derive(Clone, Copy, Debug, PartialEq, Eq, Structural)]
pub struct PoolFees {
    pub deposit_fee_bps: u16,
    pub claim_fee_bps: u16,
}

/// A fee increase waiting for its timelock.
#[derive(Clone, Copy, Debug, PartialEq, Eq, Structural)]
pub struct PendingFeeUpdate {
    pub deposit_fee_bps: u16,
    pub claim_fee_bps: u16,
    /// Block time (ns) from which the update may be executed.
    pub execution_time_ns: u64,
}

/// Why the pool refused a call.  A refused call leaves the pool unchanged.
#[derive(Clone, Copy, Debug, PartialEq, Eq, Structural)]
pub enum PoolError {
    /// The deposit fee is above its cap.
    DepositFeeTooHigh,
    /// The claim fee is above its cap.
    ClaimFeeTooHigh,
    /// The staking key could not be parsed.
    InvalidKey(KeyError),
    /// The attached deposit is below the minimum stake.
    DepositBelowMinimum,
    /// The deposit is too small to mint a single share.
    DepositMintsNoShares,
    /// The deposit would mint fewer shares than the caller asked for.
    SlippageExceeded,
    /// The caller has no record in the pool.
    NoStake,
    /// The caller has no record to withdraw from.
    NoWithdrawal,
    /// The caller's stake is still in its lockup period.
    StakeLocked,
    /// The unstake amount is zero or above the caller's staked balance.
    InvalidUnstakeAmount,
    /// The caller has no staked balance to unstake.
    NothingToUnstake,
    /// The caller has no unstaked balance.
    NoUnstakedBalance,
    /// The unstaked balance is still in its unbonding period.
    StillUnbonding,
    /// The caller has no rewards to claim.
    NoRewards,
    /// The caller has no rewards to compound.
    NoRewardsToCompound,
    /// Only the owner may make this call.
    NotOwner,
    /// There is no pending fee update.
    NoPendingFeeUpdate,
    /// The pending fee update's timelock has not expired.
    TimelockNotExpired,
    /// Upgrades are already locked.
    UpgradesAlreadyLocked,
    /// The deployer key could not be deleted, so upgrades stay unlocked.
    KeyDeletionFailed,
    /// The proposed owner is the current owner.
    SameOwner,
    /// No ownership transfer is pending.
    NoPendingOwner,
    /// Only the pending owner may accept ownership.
    NotPendingOwner,
    /// The pool has already been migrated.
    AlreadyMigrated,
    /// There is no stored state to migrate.
    StateNotFound,
    /// An amount, a share count or a time would leave its integer type.
    Overflow,
}

} // verus!
