//! Read-only views of the pool and of accounts.

use vstd::prelude::*;

use crate::key;
use crate::key::is_supported_key_length;
use crate::pool;
use crate::pool::StakingPool;
use crate::rewards;
use crate::types;
use crate::types::{AccountView, Delegator, PendingFeeUpdate, PoolError, PoolFees};

verus! {

/// The view of an account's record at epoch `epoch` and block time `now`,
/// or `None` where its total balance overflows.
pub open spec fn account_view_of(pool: StakingPool, record: Option<Delegator>, epoch: u64, now: u64) -> Option<AccountView> {
    let d = types::record_or_empty(record);
    let staked = pool.value_of(d.stake_shares as int);
    if staked + d.unstaked_balance > u128::MAX {
        None
    } else {
        Some(AccountView {
            staked_balance: staked as u128,
            unstaked_balance: d.unstaked_balance,
            total_balance: (staked + d.unstaked_balance) as u128,
            principal: d.principal,
            rewards_earned: rewards::rewards_of(pool, d) as u128,
            can_withdraw: d.unstaked_balance > 0 && epoch >= d.unstake_available_epoch,
            is_locked: now < d.unlock_timestamp_ns,
            unlock_timestamp_ns: d.unlock_timestamp_ns,
            unstake_available_epoch: d.unstake_available_epoch,
        })
    }
}

impl StakingPool {
    /// The view of an account's record: what its shares are worth, its
    /// unstaked and total balance, principal and rewards, whether it can
    /// withdraw at `epoch` and whether it is locked at `now`.  Refused with
    /// `Overflow` where the total balance overflows.
    pub fn get_account(&self, record: Option<Delegator>, epoch: u64, now: u64) -> (r: Result<AccountView, PoolError>)
        ensures
            match account_view_of(*self, record, epoch, now) {
                Some(v) => r == Ok::<AccountView, PoolError>(v),
                None => r == Err::<AccountView, PoolError>(PoolError::Overflow),
            },
    {
        let d = types::record_or_default(record);
        let staked = self.amount_for_shares(d.stake_shares);
        let rewards = staked.saturating_sub(d.principal);
        let total = match staked.checked_add(d.unstaked_balance) {
            Some(t) => t,
            None => return Err(PoolError::Overflow),
        };
        Ok(AccountView {
            staked_balance: staked,
            unstaked_balance: d.unstaked_balance,
            total_balance: total,
            principal: d.principal,
            rewards_earned: rewards,
            can_withdraw: d.unstaked_balance > 0 && epoch >= d.unstake_available_epoch,
            is_locked: now < d.unlock_timestamp_ns,
            unlock_timestamp_ns: d.unlock_timestamp_ns,
            unstake_available_epoch: d.unstake_available_epoch,
        })
    }

    pub fn get_total_staked_balance(&self) -> (r: u128)
        ensures
            r == self.total_staked_balance,
    {
        self.total_staked_balance
    }

    pub fn get_total_stake_shares(&self) -> (r: u128)
        ensures
            r == self.total_stake_shares,
    {
        self.total_stake_shares
    }

    pub fn get_owner_id(&self) -> (r: String)
        ensures
            r@ == self.owner_id@,
    {
        self.owner_id.clone()
    }

    pub fn is_upgrades_locked(&self) -> (r: bool)
        ensures
            r == self.upgrades_locked,
    {
        self.upgrades_locked
    }

    /// Whether a staking key of a supported length is set.  This looks at
    /// the length only, not at the key's encoding or cryptographic validity.
    pub fn is_restake_healthy(&self) -> (r: bool)
        ensures
            r == key::supported_key_len(self.staking_key_bytes@.len()),
    {
        let klen = self.staking_key_bytes.len();
        klen != 0 && is_supported_key_length(klen)
    }

    pub fn get_fees(&self) -> (r: PoolFees)
        ensures
            r == (PoolFees { deposit_fee_bps: self.deposit_fee_bps, claim_fee_bps: self.claim_fee_bps }),
    {
        PoolFees { deposit_fee_bps: self.deposit_fee_bps, claim_fee_bps: self.claim_fee_bps }
    }

    pub fn get_pending_fee_update(&self) -> (r: Option<PendingFeeUpdate>)
        ensures
            r == self.pending_fee_update,
    {
        self.pending_fee_update
    }

    /// What the shares of an account's record are worth (`0` without a record).
    pub fn get_account_staked_balance(&self, record: Option<Delegator>) -> (r: u128)
        ensures
            r == self.value_of(types::record_or_empty(record).stake_shares as int),
    {
        let d = types::record_or_default(record);
        self.amount_for_shares(d.stake_shares)
    }

    /// An account's unstaked balance (`0` without a record).
    pub fn get_account_unstaked_balance(&self, record: Option<Delegator>) -> (r: u128)
        ensures
            r == types::record_or_empty(record).unstaked_balance,
    {
        match record {
            Some(d) => d.unstaked_balance,
            None => 0,
        }
    }

    /// What an account's shares are worth plus its unstaked balance; refused
    /// with `Overflow` where that sum overflows.
    pub fn get_account_total_balance(&self, record: Option<Delegator>) -> (r: Result<u128, PoolError>)
        ensures
            ({
                let d = types::record_or_empty(record);
                let total = self.value_of(d.stake_shares as int) + d.unstaked_balance;
                if total > u128::MAX {
                    r == Err::<u128, PoolError>(PoolError::Overflow)
                } else {
                    r == Ok::<u128, PoolError>(total as u128)
                }
            }),
    {
        let d = types::record_or_default(record);
        match self.amount_for_shares(d.stake_shares).checked_add(d.unstaked_balance) {
            Some(t) => Ok(t),
            None => Err(PoolError::Overflow),
        }
    }
}

} // verus!
