//! Claiming, compounding and resyncing rewards.

use vstd::prelude::*;

use crate::muldiv::muldiv128;
use crate::pool;
use crate::pool::{
    credit_locked_change, owner_fee_shares, shares_for_value, value_for_shares, StakingPool, BPS_DENOMINATOR,
    LOCKUP_NS,
};
use crate::key;
use crate::staking::StakeChange;
use crate::types;
use crate::types::{Delegator, PoolError};

verus! {

/// What a claim changes: the pool after it, the claimant's record, the
/// owner's record where the owner is another account and earned a fee, and
/// the amount paid out to the claimant.
pub struct ClaimChange {
    pub pool: StakingPool,
    pub delegator: Delegator,
    pub owner_record: Option<Delegator>,
    pub payout: u128,
}

/// What a claim hands back to the caller.
#[derive(Clone, Copy, Debug, PartialEq, Eq, Structural)]
pub struct ClaimOutcome {
    /// The claimant's record to store.
    pub delegator: Delegator,
    /// The owner's record to store, where the owner is another account and
    /// received fee shares.
    pub owner_record: Option<Delegator>,
    /// The rewards less the claim fee, to transfer to the claimant.
    pub payout: u128,
    /// The stake to request from the runtime, if any.
    pub restake: Option<u128>,
}

/// The rewards of a record in a pool: what its shares are worth above its
/// principal, or `0`.
pub open spec fn rewards_of(pool: StakingPool, d: Delegator) -> int {
    pool::sat_sub(pool.value_of(d.stake_shares as int), d.principal as int)
}

/// The outcome of `claim_rewards`.
///
/// The pool first looks at the locked balance.  The caller must have a
/// record whose lockup has ended and whose rewards are above `0`.  The
/// shares the rewards are worth are burned, the rewards less the claim fee
/// are paid out to the caller, and its lockup restarts; its unstaked balance
/// is left as it was.  The fee stays in the pool as new shares of the owner,
/// priced after the claimant's part has left, and the owner's principal
/// grows by what those shares are worth.
pub open spec fn claim_result(
    pool: StakingPool,
    caller_is_owner: bool,
    record: Option<Delegator>,
    owner_record: Option<Delegator>,
    locked: u128,
    now: u64,
) -> Result<ClaimChange, PoolError> {
    if pool.ping_overflows(locked) {
        Err(PoolError::Overflow)
    } else {
        let p = pool.pinged(locked);
        match record {
            None => Err(PoolError::NoStake),
            Some(d) => {
                let rewards = rewards_of(p, d);
                let fee = pool::fee_on(rewards, pool.claim_fee_bps as int);
                let net_reward = rewards - fee;
                let burn = p.shares_worth(rewards);
                let unlock = now + LOCKUP_NS;
                if now < d.unlock_timestamp_ns {
                    Err(PoolError::StakeLocked)
                } else if rewards <= 0 {
                    Err(PoolError::NoRewards)
                } else if fee > rewards || unlock > u64::MAX {
                    Err(PoolError::Overflow)
                } else {
                    let d2 = Delegator {
                        stake_shares: pool::sat_sub(d.stake_shares as int, burn) as u128,
                        unlock_timestamp_ns: unlock as u64,
                        ..d
                    };
                    if fee > 0 {
                        let fs = pool::fee_shares_value(
                            p.total_staked_balance as int,
                            p.total_stake_shares as int,
                            fee,
                            net_reward,
                            burn,
                        );
                        let new_shares_total = pool::sat_add(pool::sat_sub(p.total_stake_shares as int, burn), fs);
                        let new_total = pool::sat_sub(p.total_staked_balance as int, net_reward);
                        let od = if caller_is_owner { d2 } else { types::record_or_empty(owner_record) };
                        let od_shares = od.stake_shares + fs;
                        let od_principal = od.principal + pool::value_of_shares(new_total, new_shares_total, fs);
                        if od_shares > u128::MAX || od_principal > u128::MAX {
                            Err(PoolError::Overflow)
                        } else {
                            let od2 = Delegator {
                                stake_shares: od_shares as u128,
                                principal: od_principal as u128,
                                ..od
                            };
                            Ok(ClaimChange {
                                pool: p.with_totals(new_total, new_shares_total),
                                delegator: if caller_is_owner { od2 } else { d2 },
                                owner_record: if caller_is_owner { None } else { Some(od2) },
                                payout: net_reward as u128,
                            })
                        }
                    } else {
                        Ok(ClaimChange {
                            pool: p.with_totals(
                                pool::sat_sub(p.total_staked_balance as int, rewards),
                                pool::sat_sub(p.total_stake_shares as int, burn),
                            ),
                            delegator: d2,
                            owner_record: None,
                            payout: net_reward as u128,
                        })
                    }
                }
            },
        }
    }
}

/// The outcome of `compound`: after the pool looks at the locked balance,
/// the caller must have a record with rewards above `0`; its principal
/// becomes what its shares are worth (its rewards count as principal from
/// now on) and its lockup restarts.
pub open spec fn compound_result(
    pool: StakingPool,
    record: Option<Delegator>,
    locked: u128,
    now: u64,
) -> Result<StakeChange, PoolError> {
    if pool.ping_overflows(locked) {
        Err(PoolError::Overflow)
    } else {
        let p = pool.pinged(locked);
        match record {
            None => Err(PoolError::NoStake),
            Some(d) => if rewards_of(p, d) <= 0 {
                Err(PoolError::NoRewardsToCompound)
            } else if now + LOCKUP_NS > u64::MAX {
                Err(PoolError::Overflow)
            } else {
                Ok(StakeChange {
                    pool: p,
                    delegator: Delegator {
                        principal: p.value_of(d.stake_shares as int) as u128,
                        unlock_timestamp_ns: (now + LOCKUP_NS) as u64,
                        ..d
                    },
                })
            },
        }
    }
}

/// The outcome of `sync_principal`: the caller must have a record; where
/// its shares are worth less than its principal (after a slash) the
/// principal is lowered to that worth, else nothing is stored.
pub open spec fn sync_principal_result(pool: StakingPool, record: Option<Delegator>) -> Result<Option<Delegator>, PoolError> {
    match record {
        None => Err(PoolError::NoStake),
        Some(d) => {
            let staked = pool.value_of(d.stake_shares as int);
            if staked < d.principal {
                Ok(Some(Delegator { principal: staked as u128, ..d }))
            } else {
                Ok(None)
            }
        },
    }
}

/// The outcome of `on_claim_payout_complete`: nothing to store where the
/// payout's transfer succeeded; otherwise the payout joins the claimant's
/// unstaked balance, whose withdrawal epoch is left as it was, so that
/// nothing claimed is lost.
pub open spec fn claim_payout_callback_result(
    record: Option<Delegator>,
    payout: u128,
    transfer_succeeded: bool,
) -> Result<Option<Delegator>, PoolError> {
    if transfer_succeeded {
        Ok(None)
    } else {
        let d = types::record_or_empty(record);
        if d.unstaked_balance + payout > u128::MAX {
            Err(PoolError::Overflow)
        } else {
            Ok(Some(Delegator { unstaked_balance: (d.unstaked_balance + payout) as u128, ..d }))
        }
    }
}

impl StakingPool {
    /// Settles a claim's payout transfer.  See `claim_payout_callback_result`.
    pub fn on_claim_payout_complete(
        &self,
        record: Option<Delegator>,
        payout: u128,
        transfer_succeeded: bool,
    ) -> (r: Result<Option<Delegator>, PoolError>)
        ensures
            r == claim_payout_callback_result(record, payout, transfer_succeeded),
    {
        if transfer_succeeded {
            return Ok(None);
        }
        let d = types::record_or_default(record);
        match d.unstaked_balance.checked_add(payout) {
            None => Err(PoolError::Overflow),
            Some(u) => Ok(Some(Delegator { unstaked_balance: u, ..d })),
        }
    }

    /// Burns the shares of the caller's rewards and returns the rewards less
    /// the claim fee as the payout to transfer to the caller.  `caller` names
    /// the caller, so that a claim by the owner credits the fee shares to the
    /// same record.  See `claim_result`.
    pub fn claim_rewards(
        &mut self,
        caller: &str,
        record: Option<Delegator>,
        owner_record: Option<Delegator>,
        locked: u128,
        now: u64,
    ) -> (r: Result<ClaimOutcome, PoolError>)
        ensures
            match claim_result(*old(self), caller@ == old(self).owner_id@, record, owner_record, locked, now) {
                Ok(c) => {
                    &&& *final(self) == c.pool
                    &&& r == Ok::<ClaimOutcome, PoolError>(ClaimOutcome {
                        delegator: c.delegator,
                        owner_record: c.owner_record,
                        payout: c.payout,
                        restake: c.pool.restake_target(),
                    })
                },
                Err(e) => r == Err::<ClaimOutcome, PoolError>(e) && *final(self) == *old(self),
            },
            old(self).wf() ==> final(self).wf(),
            old(self).upgrades_locked ==> final(self).upgrades_locked,
    {
        let caller_is_owner = key::str_equal(caller, self.owner_id.as_str());
        let pinged = match credit_locked_change(self.total_staked_balance, self.last_locked_balance, locked) {
            Some(t) => t,
            None => return Err(PoolError::Overflow),
        };
        let shares_total = self.total_stake_shares;
        let d = match record {
            None => return Err(PoolError::NoStake),
            Some(d) => d,
        };
        if now < d.unlock_timestamp_ns {
            return Err(PoolError::StakeLocked);
        }
        let staked = value_for_shares(pinged, shares_total, d.stake_shares);
        let rewards = staked.saturating_sub(d.principal);
        if rewards == 0 {
            return Err(PoolError::NoRewards);
        }
        let fee = muldiv128(rewards, self.claim_fee_bps as u128, BPS_DENOMINATOR);
        if fee > rewards {
            return Err(PoolError::Overflow);
        }
        let net_reward = rewards - fee;
        let burn = shares_for_value(pinged, shares_total, rewards);
        let unlock = match now.checked_add(LOCKUP_NS) {
            Some(l) => l,
            None => return Err(PoolError::Overflow),
        };
        let d2 = Delegator {
            stake_shares: d.stake_shares.saturating_sub(burn),
            unlock_timestamp_ns: unlock,
            ..d
        };
        if fee > 0 {
            let fee_shares = owner_fee_shares(pinged, shares_total, fee, net_reward, burn);
            let new_shares_total = shares_total.saturating_sub(burn).saturating_add(fee_shares);
            let new_total = pinged.saturating_sub(net_reward);
            let od = if caller_is_owner { d2 } else { types::record_or_default(owner_record) };
            let credited = value_for_shares(new_total, new_shares_total, fee_shares);
            let (od_shares, od_principal) = match (
                od.stake_shares.checked_add(fee_shares),
                od.principal.checked_add(credited),
            ) {
                (Some(a), Some(b)) => (a, b),
                _ => return Err(PoolError::Overflow),
            };
            let od2 = Delegator { stake_shares: od_shares, principal: od_principal, ..od };
            self.last_locked_balance = locked;
            self.total_staked_balance = new_total;
            self.total_stake_shares = new_shares_total;
            let restake = self.internal_restake();
            if caller_is_owner {
                Ok(ClaimOutcome { delegator: od2, owner_record: None, payout: net_reward, restake })
            } else {
                Ok(ClaimOutcome { delegator: d2, owner_record: Some(od2), payout: net_reward, restake })
            }
        } else {
            self.last_locked_balance = locked;
            self.total_staked_balance = pinged.saturating_sub(rewards);
            self.total_stake_shares = shares_total.saturating_sub(burn);
            let restake = self.internal_restake();
            Ok(ClaimOutcome { delegator: d2, owner_record: None, payout: net_reward, restake })
        }
    }

    /// Counts the caller's rewards as principal and restarts its lockup.
    /// See `compound_result`.
    pub fn compound(&mut self, record: Option<Delegator>, locked: u128, now: u64) -> (r: Result<Delegator, PoolError>)
        ensures
            match compound_result(*old(self), record, locked, now) {
                Ok(c) => *final(self) == c.pool && r == Ok::<Delegator, PoolError>(c.delegator),
                Err(e) => r == Err::<Delegator, PoolError>(e) && *final(self) == *old(self),
            },
            old(self).wf() ==> final(self).wf(),
            old(self).upgrades_locked ==> final(self).upgrades_locked,
    {
        let pinged = match credit_locked_change(self.total_staked_balance, self.last_locked_balance, locked) {
            Some(t) => t,
            None => return Err(PoolError::Overflow),
        };
        let d = match record {
            None => return Err(PoolError::NoStake),
            Some(d) => d,
        };
        let staked = value_for_shares(pinged, self.total_stake_shares, d.stake_shares);
        let rewards = staked.saturating_sub(d.principal);
        if rewards == 0 {
            return Err(PoolError::NoRewardsToCompound);
        }
        let unlock = match now.checked_add(LOCKUP_NS) {
            Some(u) => u,
            None => return Err(PoolError::Overflow),
        };
        self.last_locked_balance = locked;
        self.total_staked_balance = pinged;
        Ok(Delegator { principal: staked, unlock_timestamp_ns: unlock, ..d })
    }

    /// Lowers the caller's principal to what its shares are worth where
    /// they are worth less.  See `sync_principal_result`.
    pub fn sync_principal(&self, record: Option<Delegator>) -> (r: Result<Option<Delegator>, PoolError>)
        ensures
            r == sync_principal_result(*self, record),
    {
        let d = match record {
            None => return Err(PoolError::NoStake),
            Some(d) => d,
        };
        let staked = self.amount_for_shares(d.stake_shares);
        if staked < d.principal {
            Ok(Some(Delegator { principal: staked, ..d }))
        } else {
            Ok(None)
        }
    }
}

} // verus!
