//! Deposits, unstaking and withdrawals.

use vstd::prelude::*;

use crate::muldiv;
use crate::muldiv::muldiv128;
use crate::pool;
use crate::pool::{
    credit_locked_change, mint_shares, shares_for_value, value_for_shares, StakingPool, BPS_DENOMINATOR,
    LOCKUP_NS, MIN_STAKE, NUM_EPOCHS_TO_UNLOCK,
};
use crate::types;
use crate::types::{Delegator, PoolError};

verus! {

/// What a deposit changes: the pool after it, the depositor's record, the
/// fee sent to the owner and the shares minted.
pub struct DepositChange {
    pub pool: StakingPool,
    pub delegator: Delegator,
    pub fee: u128,
    pub shares: u128,
}

/// What a deposit hands back to the caller.
#[derive(Clone, Copy, Debug, PartialEq, Eq, Structural)]
pub struct DepositOutcome {
    /// The depositor's record to store.
    pub delegator: Delegator,
    /// The deposit fee to transfer to the owner; nothing is sent where it is `0`.
    pub owner_fee: u128,
    /// Shares minted for the deposit.
    pub shares: u128,
    /// The stake to request from the runtime, if any.
    pub restake: Option<u128>,
}

/// Whether a minted share count misses the caller's minimum; a minimum of
/// `0` asks for nothing.
pub open spec fn misses_minimum(shares: int, min_shares_out: Option<u128>) -> bool {
    match min_shares_out {
        Some(m) => m > 0 && shares < m,
        None => false,
    }
}

/// The pool a deposit starts from: on the first deposit into a pool without
/// shares the last locked balance is set to the current one.
pub open spec fn deposit_base(pool: StakingPool, locked: u128) -> StakingPool {
    if pool.total_stake_shares == 0 {
        StakingPool { last_locked_balance: locked, ..pool }
    } else {
        pool
    }
}

/// The pool in which a deposit mints its shares: the starting pool after
/// it looked at the locked balance.
pub open spec fn minting_pool(pool: StakingPool, locked: u128) -> StakingPool {
    deposit_base(pool, locked).pinged(locked)
}

/// The outcome of `deposit_and_stake`.
///
/// On the first deposit into a pool without shares the last locked balance
/// is first set to the current one, so the validator's own stake is not
/// taken for a reward.  The pool then looks at the locked balance; the
/// deposit must be at least `MIN_STAKE`; the deposit fee is taken off; the
/// rest mints shares (at least one, and at least `min_shares_out` where that
/// is above `0`); and the depositor's principal grows by what the minted
/// shares are worth after the deposit.  The lockup restarts.
pub open spec fn deposit_result(
    pool: StakingPool,
    record: Option<Delegator>,
    amount: u128,
    locked: u128,
    now: u64,
    min_shares_out: Option<u128>,
) -> Result<DepositChange, PoolError> {
    let base = deposit_base(pool, locked);
    if base.ping_overflows(locked) {
        Err(PoolError::Overflow)
    } else if amount < MIN_STAKE {
        Err(PoolError::DepositBelowMinimum)
    } else {
        let p = base.pinged(locked);
        let fee = pool::fee_on(amount as int, pool.deposit_fee_bps as int);
        let net = amount - fee;
        let shares = pool::shares_to_mint(p.total_staked_balance as int, p.total_stake_shares as int, net);
        let d = types::record_or_empty(record);
        let new_total = p.total_staked_balance + net;
        let new_shares_total = p.total_stake_shares + shares;
        let new_shares = d.stake_shares + shares;
        if fee > amount {
            Err(PoolError::Overflow)
        } else if shares == 0 {
            Err(PoolError::DepositMintsNoShares)
        } else if misses_minimum(shares, min_shares_out) {
            Err(PoolError::SlippageExceeded)
        } else if new_shares > u128::MAX || new_total > u128::MAX || new_shares_total > u128::MAX {
            Err(PoolError::Overflow)
        } else {
            let credited = if new_shares_total > 0 {
                muldiv::muldiv_value(shares, new_total, new_shares_total)
            } else {
                net
            };
            let new_principal = d.principal + credited;
            let unlock = now + LOCKUP_NS;
            if new_principal > u128::MAX || unlock > u64::MAX {
                Err(PoolError::Overflow)
            } else {
                Ok(DepositChange {
                    pool: p.with_totals(new_total, new_shares_total),
                    delegator: Delegator {
                        stake_shares: new_shares as u128,
                        principal: new_principal as u128,
                        unlock_timestamp_ns: unlock as u64,
                        ..d
                    },
                    fee: fee as u128,
                    shares: shares as u128,
                })
            }
        }
    }
}

impl StakingPool {
    /// Stakes an attached deposit of `amount` for the caller, whose stored
    /// record is `record`, with the account's locked balance `locked` at
    /// block time `now`.  See `deposit_result`.
    pub fn deposit_and_stake(
        &mut self,
        record: Option<Delegator>,
        amount: u128,
        locked: u128,
        now: u64,
        min_shares_out: Option<u128>,
    ) -> (r: Result<DepositOutcome, PoolError>)
        ensures
            match deposit_result(*old(self), record, amount, locked, now, min_shares_out) {
                Ok(c) => {
                    &&& *final(self) == c.pool
                    &&& r == Ok::<DepositOutcome, PoolError>(DepositOutcome {
                        delegator: c.delegator,
                        owner_fee: c.fee,
                        shares: c.shares,
                        restake: c.pool.restake_target(),
                    })
                },
                Err(e) => r == Err::<DepositOutcome, PoolError>(e) && *final(self) == *old(self),
            },
            old(self).wf() ==> final(self).wf(),
            old(self).upgrades_locked ==> final(self).upgrades_locked,
    {
        let base_last = if self.total_stake_shares == 0 { locked } else { self.last_locked_balance };
        let pinged = match credit_locked_change(self.total_staked_balance, base_last, locked) {
            Some(t) => t,
            None => return Err(PoolError::Overflow),
        };
        if amount < MIN_STAKE {
            return Err(PoolError::DepositBelowMinimum);
        }
        let fee = muldiv128(amount, self.deposit_fee_bps as u128, BPS_DENOMINATOR);
        let (net, shares, d) = match deposit_shares(pinged, self.total_stake_shares, amount, fee, min_shares_out, record) {
            Ok(t) => t,
            Err(e) => return Err(e),
        };
        let new_total = pinged + net;
        let new_shares_total = self.total_stake_shares + shares;
        let credited = if new_shares_total > 0 {
            muldiv128(shares, new_total, new_shares_total)
        } else {
            net
        };
        let (new_principal, unlock) = match (d.principal.checked_add(credited), now.checked_add(LOCKUP_NS)) {
            (Some(p), Some(u)) => (p, u),
            _ => return Err(PoolError::Overflow),
        };
        let delegator = Delegator {
            stake_shares: d.stake_shares + shares,
            principal: new_principal,
            unlock_timestamp_ns: unlock,
            ..d
        };
        self.last_locked_balance = locked;
        self.total_staked_balance = new_total;
        self.total_stake_shares = new_shares_total;
        let restake = self.internal_restake();
        Ok(DepositOutcome { delegator, owner_fee: fee, shares, restake })
    }
}

/// The checks of a deposit after the fee: returns the net amount, the
/// shares it mints and the depositor's current record.
fn deposit_shares(
    total_staked: u128,
    total_shares: u128,
    amount: u128,
    fee: u128,
    min_shares_out: Option<u128>,
    record: Option<Delegator>,
) -> (r: Result<(u128, u128, Delegator), PoolError>)
    ensures
        ({
            let net = amount - fee;
            let shares = pool::shares_to_mint(total_staked as int, total_shares as int, net);
            let d = types::record_or_empty(record);
            if fee > amount {
                r == Err::<(u128, u128, Delegator), PoolError>(PoolError::Overflow)
            } else if shares == 0 {
                r == Err::<(u128, u128, Delegator), PoolError>(PoolError::DepositMintsNoShares)
            } else if misses_minimum(shares, min_shares_out) {
                r == Err::<(u128, u128, Delegator), PoolError>(PoolError::SlippageExceeded)
            } else if d.stake_shares + shares > u128::MAX
                || total_staked + net > u128::MAX
                || total_shares + shares > u128::MAX {
                r == Err::<(u128, u128, Delegator), PoolError>(PoolError::Overflow)
            } else {
                r == Ok::<(u128, u128, Delegator), PoolError>((net as u128, shares as u128, d))
            }
        }),
{
    if fee > amount {
        return Err(PoolError::Overflow);
    }
    let net = amount - fee;
    let shares = mint_shares(total_staked, total_shares, net);
    if shares == 0 {
        return Err(PoolError::DepositMintsNoShares);
    }
    if let Some(min_out) = min_shares_out {
        if min_out > 0 && shares < min_out {
            return Err(PoolError::SlippageExceeded);
        }
    }
    let d = types::record_or_default(record);
    if d.stake_shares.checked_add(shares).is_none()
        || total_staked.checked_add(net).is_none()
        || total_shares.checked_add(shares).is_none() {
        return Err(PoolError::Overflow);
    }
    Ok((net, shares, d))
}


/// What an unstake changes: the pool after it and the caller's record.
pub struct StakeChange {
    pub pool: StakingPool,
    pub delegator: Delegator,
}

/// What an unstake hands back to the caller.
#[derive(Clone, Copy, Debug, PartialEq, Eq, Structural)]
pub struct UnstakeOutcome {
    /// The caller's record to store.
    pub delegator: Delegator,
    /// The stake to request from the runtime, if any.
    pub restake: Option<u128>,
}

/// The outcome of `unstake`.
///
/// The pool first looks at the locked balance.  The caller must have a
/// record whose lockup has ended, and `amount` must be above `0` and at most
/// what the caller's shares are worth.  The shares `amount` is worth are
/// burned, `amount` leaves the principal and the pool's total (both
/// saturating at `0`) and joins the caller's unstaked balance, which becomes
/// withdrawable `NUM_EPOCHS_TO_UNLOCK` epochs after `epoch`; the lockup restarts.
pub open spec fn unstake_result(
    pool: StakingPool,
    record: Option<Delegator>,
    amount: u128,
    locked: u128,
    now: u64,
    epoch: u64,
) -> Result<StakeChange, PoolError> {
    if pool.ping_overflows(locked) {
        Err(PoolError::Overflow)
    } else {
        let p = pool.pinged(locked);
        match record {
            None => Err(PoolError::NoStake),
            Some(d) => if now < d.unlock_timestamp_ns {
                Err(PoolError::StakeLocked)
            } else if !(amount > 0 && amount <= p.value_of(d.stake_shares as int)) {
                Err(PoolError::InvalidUnstakeAmount)
            } else {
                let burn = p.shares_worth(amount as int);
                let unstaked = d.unstaked_balance + amount;
                let available = epoch + NUM_EPOCHS_TO_UNLOCK;
                let unlock = now + LOCKUP_NS;
                if unstaked > u128::MAX || available > u64::MAX || unlock > u64::MAX {
                    Err(PoolError::Overflow)
                } else {
                    Ok(StakeChange {
                        pool: p.with_totals(
                            pool::sat_sub(p.total_staked_balance as int, amount as int),
                            pool::sat_sub(p.total_stake_shares as int, burn),
                        ),
                        delegator: Delegator {
                            stake_shares: pool::sat_sub(d.stake_shares as int, burn) as u128,
                            principal: pool::sat_sub(d.principal as int, amount as int) as u128,
                            unstaked_balance: unstaked as u128,
                            unstake_available_epoch: available as u64,
                            unlock_timestamp_ns: unlock as u64,
                        },
                    })
                }
            },
        }
    }
}

/// The outcome of `unstake_all`: the caller must have a record whose shares
/// are worth more than `0` at the pool's state before it looks at the locked
/// balance; that worth is then unstaked as by `unstake_result`.
pub open spec fn unstake_all_result(
    pool: StakingPool,
    record: Option<Delegator>,
    locked: u128,
    now: u64,
    epoch: u64,
) -> Result<StakeChange, PoolError> {
    match record {
        None => Err(PoolError::NoStake),
        Some(d) => {
            let staked = pool.value_of(d.stake_shares as int);
            if staked == 0 {
                Err(PoolError::NothingToUnstake)
            } else {
                unstake_result(pool, record, staked as u128, locked, now, epoch)
            }
        },
    }
}

/// What a withdrawal hands back to the caller: the record to store, the
/// amount to transfer and the epoch to restore should the transfer fail.
#[derive(Clone, Copy, Debug, PartialEq, Eq, Structural)]
pub struct WithdrawOutcome {
    pub delegator: Delegator,
    pub amount: u128,
    pub saved_epoch: u64,
}

/// The outcome of `withdraw_all`: the caller must have a record with an
/// unstaked balance whose unbonding ended by `epoch`; the whole unstaked
/// balance is paid out and the balance and its epoch are cleared.
pub open spec fn withdraw_result(record: Option<Delegator>, epoch: u64) -> Result<WithdrawOutcome, PoolError> {
    match record {
        None => Err(PoolError::NoWithdrawal),
        Some(d) => if d.unstaked_balance == 0 {
            Err(PoolError::NoUnstakedBalance)
        } else if epoch < d.unstake_available_epoch {
            Err(PoolError::StillUnbonding)
        } else {
            Ok(WithdrawOutcome {
                delegator: Delegator { unstaked_balance: 0, unstake_available_epoch: 0, ..d },
                amount: d.unstaked_balance,
                saved_epoch: d.unstake_available_epoch,
            })
        },
    }
}

/// The outcome of `on_withdraw_complete`: nothing to store where the
/// transfer succeeded; otherwise `amount` returns to the account's unstaked
/// balance and its withdrawal epoch is set back to `saved_epoch`.
pub open spec fn withdraw_callback_result(
    record: Option<Delegator>,
    amount: u128,
    saved_epoch: u64,
    transfer_succeeded: bool,
) -> Result<Option<Delegator>, PoolError> {
    if transfer_succeeded {
        Ok(None)
    } else {
        let d = types::record_or_empty(record);
        if d.unstaked_balance + amount > u128::MAX {
            Err(PoolError::Overflow)
        } else {
            Ok(Some(Delegator {
                unstaked_balance: (d.unstaked_balance + amount) as u128,
                unstake_available_epoch: saved_epoch,
                ..d
            }))
        }
    }
}

impl StakingPool {
    /// Moves `amount` of the caller's stake to its unstaked balance.  See
    /// `unstake_result`.
    pub fn unstake(
        &mut self,
        record: Option<Delegator>,
        amount: u128,
        locked: u128,
        now: u64,
        epoch: u64,
    ) -> (r: Result<UnstakeOutcome, PoolError>)
        ensures
            match unstake_result(*old(self), record, amount, locked, now, epoch) {
                Ok(c) => {
                    &&& *final(self) == c.pool
                    &&& r == Ok::<UnstakeOutcome, PoolError>(
                        UnstakeOutcome { delegator: c.delegator, restake: c.pool.restake_target() },
                    )
                },
                Err(e) => r == Err::<UnstakeOutcome, PoolError>(e) && *final(self) == *old(self),
            },
            old(self).wf() ==> final(self).wf(),
            old(self).upgrades_locked ==> final(self).upgrades_locked,
    {
        let pinged = match credit_locked_change(self.total_staked_balance, self.last_locked_balance, locked) {
            Some(t) => t,
            None => return Err(PoolError::Overflow),
        };
        let d = match record {
            None => return Err(PoolError::NoStake),
            Some(d) => d,
        };
        if now < d.unlock_timestamp_ns {
            return Err(PoolError::StakeLocked);
        }
        let staked = value_for_shares(pinged, self.total_stake_shares, d.stake_shares);
        if !(amount > 0 && amount <= staked) {
            return Err(PoolError::InvalidUnstakeAmount);
        }
        let burn = shares_for_value(pinged, self.total_stake_shares, amount);
        let (unstaked, available, unlock) = match (
            d.unstaked_balance.checked_add(amount),
            epoch.checked_add(NUM_EPOCHS_TO_UNLOCK),
            now.checked_add(LOCKUP_NS),
        ) {
            (Some(u), Some(a), Some(l)) => (u, a, l),
            _ => return Err(PoolError::Overflow),
        };
        let delegator = Delegator {
            stake_shares: d.stake_shares.saturating_sub(burn),
            principal: d.principal.saturating_sub(amount),
            unstaked_balance: unstaked,
            unstake_available_epoch: available,
            unlock_timestamp_ns: unlock,
        };
        self.last_locked_balance = locked;
        self.total_staked_balance = pinged.saturating_sub(amount);
        self.total_stake_shares = self.total_stake_shares.saturating_sub(burn);
        let restake = self.internal_restake();
        Ok(UnstakeOutcome { delegator, restake })
    }

    /// Unstakes everything the caller's shares are worth.  See
    /// `unstake_all_result`.
    pub fn unstake_all(
        &mut self,
        record: Option<Delegator>,
        locked: u128,
        now: u64,
        epoch: u64,
    ) -> (r: Result<UnstakeOutcome, PoolError>)
        ensures
            match unstake_all_result(*old(self), record, locked, now, epoch) {
                Ok(c) => {
                    &&& *final(self) == c.pool
                    &&& r == Ok::<UnstakeOutcome, PoolError>(
                        UnstakeOutcome { delegator: c.delegator, restake: c.pool.restake_target() },
                    )
                },
                Err(e) => r == Err::<UnstakeOutcome, PoolError>(e) && *final(self) == *old(self),
            },
            old(self).wf() ==> final(self).wf(),
            old(self).upgrades_locked ==> final(self).upgrades_locked,
    {
        let d = match record {
            None => return Err(PoolError::NoStake),
            Some(d) => d,
        };
        let staked = self.amount_for_shares(d.stake_shares);
        if staked == 0 {
            return Err(PoolError::NothingToUnstake);
        }
        self.unstake(record, staked, locked, now, epoch)
    }

    /// Takes the caller's whole unstaked balance out for a transfer.  See
    /// `withdraw_result`.
    pub fn withdraw_all(&self, record: Option<Delegator>, epoch: u64) -> (r: Result<WithdrawOutcome, PoolError>)
        ensures
            r == withdraw_result(record, epoch),
    {
        let d = match record {
            None => return Err(PoolError::NoWithdrawal),
            Some(d) => d,
        };
        if d.unstaked_balance == 0 {
            return Err(PoolError::NoUnstakedBalance);
        }
        if epoch < d.unstake_available_epoch {
            return Err(PoolError::StillUnbonding);
        }
        Ok(WithdrawOutcome {
            delegator: Delegator { unstaked_balance: 0, unstake_available_epoch: 0, ..d },
            amount: d.unstaked_balance,
            saved_epoch: d.unstake_available_epoch,
        })
    }

    /// Settles a withdrawal once its transfer is done: where the transfer
    /// failed, the balance and epoch are put back.  See
    /// `withdraw_callback_result`.
    pub fn on_withdraw_complete(
        &self,
        record: Option<Delegator>,
        amount: u128,
        saved_epoch: u64,
        transfer_succeeded: bool,
    ) -> (r: Result<Option<Delegator>, PoolError>)
        ensures
            r == withdraw_callback_result(record, amount, saved_epoch, transfer_succeeded),
    {
        if transfer_succeeded {
            return Ok(None);
        }
        let d = types::record_or_default(record);
        match d.unstaked_balance.checked_add(amount) {
            None => Err(PoolError::Overflow),
            Some(u) => Ok(Some(Delegator { unstaked_balance: u, unstake_available_epoch: saved_epoch, ..d })),
        }
    }
}

} // verus!
