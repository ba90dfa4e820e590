//! The pool's state and its share accounting.

use vstd::prelude::*;

use crate::key;
use crate::key::is_supported_key_length;
use crate::muldiv;
use crate::muldiv::muldiv128;
use crate::types::{PendingFeeUpdate, PoolError};

verus! {

/// Lockup after a deposit, an unstake, a claim or a compound: 48 hours.
pub const LOCKUP_NS: u64 = 4 * 43_200 * 1_000_000_000;
/// Epochs an unstaked balance waits before it can be withdrawn.
pub const NUM_EPOCHS_TO_UNLOCK: u64 = 4;
/// Cap of the deposit fee: 0.1%.
pub const MAX_DEPOSIT_FEE_BPS: u16 = 10;
/// Cap of the claim fee: 10%.
pub const MAX_CLAIM_FEE_BPS: u16 = 1000;
/// Smallest deposit: 1 FLC in yocto units.
pub const MIN_STAKE: u128 = 1_000_000_000_000_000_000_000_000;
/// Delay before a fee increase may be executed: 48 hours.
pub const FEE_TIMELOCK_NS: u64 = 48 * 3_600 * 1_000_000_000;
/// Basis points in a whole.
pub const BPS_DENOMINATOR: u128 = 10_000;

/// The pool's state.  Delegator records are kept by the caller and handed
/// in and out of each call; the pending owner is kept in its own slot.
pub struct StakingPool {
    pub owner_id: String,
    /// Borsh encoding of the validator's staking key; empty where none is set.
    pub staking_key_bytes: Vec<u8>,
    pub deposit_fee_bps: u16,
    pub claim_fee_bps: u16,
    /// Amount that all delegators' shares are worth together.
    pub total_staked_balance: u128,
    /// Shares held by all delegators together.
    pub total_stake_shares: u128,
    /// The account's locked balance when the pool last looked at it.
    pub last_locked_balance: u128,
    pub pending_fee_update: Option<PendingFeeUpdate>,
    pub upgrades_locked: bool,
}

/// `x - y`, or `0` where that is negative.
pub open spec fn sat_sub(x: int, y: int) -> int {
    if x >= y { x - y } else { 0 }
}

/// `x + y`, capped at `u128::MAX`.
pub open spec fn sat_add(x: int, y: int) -> int {
    muldiv::min_int(x + y, u128::MAX as int)
}

/// What `shares` are worth in a pool of `total_staked` over `total_shares`.
pub open spec fn value_of_shares(total_staked: int, total_shares: int, shares: int) -> int {
    if total_shares == 0 { 0 } else { muldiv::muldiv_value(shares, total_staked, total_shares) }
}

/// How many shares `amount` is worth in a pool of `total_staked` over `total_shares`.
pub open spec fn shares_of_amount(total_staked: int, total_shares: int, amount: int) -> int {
    if total_staked == 0 { amount } else { muldiv::muldiv_value(amount, total_shares, total_staked) }
}

/// Shares that a deposit of `amount` mints: one per unit in an empty pool.
pub open spec fn shares_to_mint(total_staked: int, total_shares: int, amount: int) -> int {
    if total_shares == 0 || total_staked == 0 {
        amount
    } else {
        shares_of_amount(total_staked, total_shares, amount)
    }
}

/// Shares that a claim fee of `fee` buys for the owner, priced after the
/// claimant's `burned` shares and `net_reward` have left the pool; one per
/// unit where that leaves nothing.
pub open spec fn fee_shares_value(total_staked: int, total_shares: int, fee: int, net_reward: int, burned: int) -> int {
    let ps = sat_sub(total_staked, net_reward);
    let ph = sat_sub(total_shares, burned);
    if ps == 0 || ph == 0 { fee } else { muldiv::muldiv_value(fee, ph, ps) }
}

/// The total staked balance after the account's locked balance moved from
/// `last_locked` to `locked`: a rise credits delegators their share of it
/// (never more than the rise), a fall takes their share of it away; with no
/// earlier locked balance nothing is attributed.
pub open spec fn pinged_total(total_staked: int, last_locked: int, locked: int) -> int {
    if locked > last_locked && last_locked > 0 {
        let total_reward = locked - last_locked;
        total_staked + muldiv::min_int(muldiv::muldiv_value(total_reward, total_staked, last_locked), total_reward)
    } else if locked < last_locked && last_locked > 0 {
        sat_sub(total_staked, muldiv::muldiv_value(last_locked - locked, total_staked, last_locked))
    } else {
        total_staked
    }
}

/// A fee of `bps` basis points on `amount`.
pub open spec fn fee_on(amount: int, bps: int) -> int {
    muldiv::muldiv_value(amount, bps, BPS_DENOMINATOR as int)
}


pub(crate) fn value_for_shares(total_staked: u128, total_shares: u128, shares: u128) -> (r: u128)
    ensures
        r == value_of_shares(total_staked as int, total_shares as int, shares as int),
{
    if total_shares == 0 {
        return 0;
    }
    muldiv128(shares, total_staked, total_shares)
}

pub(crate) fn shares_for_value(total_staked: u128, total_shares: u128, amount: u128) -> (r: u128)
    ensures
        r == shares_of_amount(total_staked as int, total_shares as int, amount as int),
{
    if total_staked == 0 {
        return amount;
    }
    muldiv128(amount, total_shares, total_staked)
}

pub(crate) fn mint_shares(total_staked: u128, total_shares: u128, amount: u128) -> (r: u128)
    ensures
        r == shares_to_mint(total_staked as int, total_shares as int, amount as int),
{
    if total_shares == 0 || total_staked == 0 {
        return amount;
    }
    shares_for_value(total_staked, total_shares, amount)
}

pub(crate) fn owner_fee_shares(total_staked: u128, total_shares: u128, fee: u128, net_reward: u128, burned: u128) -> (r: u128)
    ensures
        r == fee_shares_value(total_staked as int, total_shares as int, fee as int, net_reward as int, burned as int),
{
    let ps = total_staked.saturating_sub(net_reward);
    let ph = total_shares.saturating_sub(burned);
    if ps == 0 || ph == 0 {
        return fee;
    }
    muldiv128(fee, ph, ps)
}

pub(crate) fn credit_locked_change(total: u128, last: u128, locked: u128) -> (r: Option<u128>)
    ensures
        match r {
            Some(t) => t == pinged_total(total as int, last as int, locked as int),
            None => pinged_total(total as int, last as int, locked as int) > u128::MAX,
        },
{
    if locked > last && last > 0 {
        let total_reward = locked - last;
        let share = muldiv128(total_reward, total, last);
        let delegator_reward = if share <= total_reward { share } else { total_reward };
        total.checked_add(delegator_reward)
    } else if locked < last && last > 0 {
        let decrease = last - locked;
        let delegator_decrease = muldiv128(decrease, total, last);
        Some(total.saturating_sub(delegator_decrease))
    } else {
        Some(total)
    }
}


impl StakingPool {
    /// The fees in force and any pending ones are within their caps.
    pub open spec fn wf(self) -> bool {
        &&& self.deposit_fee_bps <= MAX_DEPOSIT_FEE_BPS
        &&& self.claim_fee_bps <= MAX_CLAIM_FEE_BPS
        &&& match self.pending_fee_update {
            Some(p) => p.deposit_fee_bps <= MAX_DEPOSIT_FEE_BPS && p.claim_fee_bps <= MAX_CLAIM_FEE_BPS,
            None => true,
        }
    }

    /// What `shares` are worth in this pool.
    pub open spec fn value_of(self, shares: int) -> int {
        value_of_shares(self.total_staked_balance as int, self.total_stake_shares as int, shares)
    }

    /// How many shares `amount` is worth in this pool.
    pub open spec fn shares_worth(self, amount: int) -> int {
        shares_of_amount(self.total_staked_balance as int, self.total_stake_shares as int, amount)
    }

    /// Whether crediting a rise of the locked balance to `locked` overflows.
    pub open spec fn ping_overflows(self, locked: u128) -> bool {
        pinged_total(self.total_staked_balance as int, self.last_locked_balance as int, locked as int)
            > u128::MAX
    }

    /// The pool after it looked at the locked balance `locked`.
    pub open spec fn pinged(self, locked: u128) -> StakingPool {
        StakingPool {
            total_staked_balance: pinged_total(
                self.total_staked_balance as int,
                self.last_locked_balance as int,
                locked as int,
            ) as u128,
            last_locked_balance: locked,
            ..self
        }
    }

    /// The stake to request from the runtime: `None` where no key of a
    /// supported length is set, else the larger of the pool's total and the
    /// last locked balance.
    pub open spec fn restake_target(self) -> Option<u128> {
        if key::supported_key_len(self.staking_key_bytes@.len()) {
            Some(
                if self.total_staked_balance >= self.last_locked_balance {
                    self.total_staked_balance
                } else {
                    self.last_locked_balance
                },
            )
        } else {
            None
        }
    }

    /// The same pool with the share totals replaced.
    pub open spec fn with_totals(self, total_staked: int, total_shares: int) -> StakingPool {
        StakingPool {
            total_staked_balance: total_staked as u128,
            total_stake_shares: total_shares as u128,
            ..self
        }
    }

    /// What `shares` are worth: `0` in a pool without shares, else
    /// `shares * total_staked_balance / total_stake_shares`.
    pub fn amount_for_shares(&self, shares: u128) -> (r: u128)
        ensures
            r == self.value_of(shares as int),
    {
        value_for_shares(self.total_staked_balance, self.total_stake_shares, shares)
    }

    /// How many shares `amount` is worth: `amount` itself in a pool with no
    /// balance, else `amount * total_stake_shares / total_staked_balance`.
    pub fn shares_for_amount(&self, amount: u128) -> (r: u128)
        ensures
            r == self.shares_worth(amount as int),
    {
        shares_for_value(self.total_staked_balance, self.total_stake_shares, amount)
    }

    /// Shares a deposit of `amount` mints: one per unit while the pool holds
    /// no shares or no balance, else what `amount` is worth in shares.
    pub fn shares_for(&self, amount: u128) -> (r: u128)
        ensures
            r == shares_to_mint(self.total_staked_balance as int, self.total_stake_shares as int, amount as int),
    {
        mint_shares(self.total_staked_balance, self.total_stake_shares, amount)
    }

    /// Shares a claim fee buys for the owner once the claimant's `burned`
    /// shares and `net_reward` have left the pool.
    pub fn shares_for_amount_post_reduce(&self, fee: u128, net_reward: u128, burned: u128) -> (r: u128)
        ensures
            r == fee_shares_value(
                self.total_staked_balance as int,
                self.total_stake_shares as int,
                fee as int,
                net_reward as int,
                burned as int,
            ),
    {
        owner_fee_shares(self.total_staked_balance, self.total_stake_shares, fee, net_reward, burned)
    }

    /// Brings the total staked balance up to date with the account's locked
    /// balance `locked` and records `locked` as the last one seen.  Refuses
    /// with `Overflow`, changing nothing, where the credited total overflows.
    pub fn ping(&mut self, locked: u128) -> (r: Result<(), PoolError>)
        ensures
            old(self).ping_overflows(locked) ==> r == Err::<(), PoolError>(PoolError::Overflow) && *final(self) == *old(self),
            !old(self).ping_overflows(locked) ==> r is Ok && *final(self) == old(self).pinged(locked),
            old(self).wf() ==> final(self).wf(),
            old(self).upgrades_locked ==> final(self).upgrades_locked,
    {
        let new_total = match credit_locked_change(self.total_staked_balance, self.last_locked_balance, locked) {
            Some(t) => t,
            None => return Err(PoolError::Overflow),
        };
        self.total_staked_balance = new_total;
        self.last_locked_balance = locked;
        Ok(())
    }

    /// The stake to request from the runtime after a change: nothing while
    /// the staking key is missing or of an unsupported length (the call goes
    /// on without restaking), else the larger of the pool's total and the
    /// last locked balance, so that validator-owned stake is never unstaked.
    pub fn internal_restake(&self) -> (r: Option<u128>)
        ensures
            r == self.restake_target(),
    {
        if self.staking_key_bytes.len() == 0 {
            return None;
        }
        if !is_supported_key_length(self.staking_key_bytes.len()) {
            return None;
        }
        if self.total_staked_balance >= self.last_locked_balance {
            Some(self.total_staked_balance)
        } else {
            Some(self.last_locked_balance)
        }
    }
}

/// Why `new` refuses, if it does: a fee above its cap, or a key that
/// does not parse.
pub open spec fn new_error(staking_key: Seq<char>, deposit_fee_bps: u16, claim_fee_bps: u16) -> Option<PoolError> {
    if deposit_fee_bps > MAX_DEPOSIT_FEE_BPS {
        Some(PoolError::DepositFeeTooHigh)
    } else if claim_fee_bps > MAX_CLAIM_FEE_BPS {
        Some(PoolError::ClaimFeeTooHigh)
    } else {
        match key::parsed_key(staking_key) {
            Err(e) => Some(PoolError::InvalidKey(e)),
            Ok(_) => None,
        }
    }
}

impl StakingPool {
    /// A pool owned by `owner_id` staking with `staking_key`: refused where
    /// `new_error` says so; otherwise empty, with the parsed key, the given
    /// fees, no pending fee update and upgrades unlocked.
    pub fn new(owner_id: String, staking_key: &str, deposit_fee_bps: u16, claim_fee_bps: u16) -> (r: Result<StakingPool, PoolError>)
        ensures
            match new_error(staking_key@, deposit_fee_bps, claim_fee_bps) {
                Some(e) => r == Err::<StakingPool, PoolError>(e),
                None => r is Ok,
            },
            r matches Ok(p) ==> {
                &&& p.owner_id == owner_id
                &&& key::parsed_key(staking_key@) == Ok::<Seq<u8>, key::KeyError>(p.staking_key_bytes@)
                &&& p.deposit_fee_bps == deposit_fee_bps
                &&& p.claim_fee_bps == claim_fee_bps
                &&& p.total_staked_balance == 0
                &&& p.total_stake_shares == 0
                &&& p.last_locked_balance == 0
                &&& p.pending_fee_update is None
                &&& !p.upgrades_locked
                &&& p.wf()
            },
    {
        if deposit_fee_bps > MAX_DEPOSIT_FEE_BPS {
            return Err(PoolError::DepositFeeTooHigh);
        }
        if claim_fee_bps > MAX_CLAIM_FEE_BPS {
            return Err(PoolError::ClaimFeeTooHigh);
        }
        let staking_key_bytes = match key::parse_key_string(staking_key) {
            Ok(b) => b,
            Err(e) => return Err(PoolError::InvalidKey(e)),
        };
        Ok(StakingPool {
            owner_id,
            staking_key_bytes,
            deposit_fee_bps,
            claim_fee_bps,
            total_staked_balance: 0,
            total_stake_shares: 0,
            last_locked_balance: 0,
            pending_fee_update: None,
            upgrades_locked: false,
        })
    }
}

} // verus!
