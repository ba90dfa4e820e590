//! Owner actions: fees, the staking key, the upgrade lock and ownership.

use vstd::prelude::*;

use crate::account;
use crate::key;
use crate::pool::{StakingPool, FEE_TIMELOCK_NS, MAX_CLAIM_FEE_BPS, MAX_DEPOSIT_FEE_BPS};
use crate::types::{PendingFeeUpdate, PoolError};

verus! {

/// The outcome of `propose_fee_update`: only the owner may propose, and
/// both fees must be within their caps.  A proposal that raises either fee
/// waits for `FEE_TIMELOCK_NS` from `now`; any other takes effect at once
/// and drops a pending one.
pub open spec fn propose_fee_result(
    pool: StakingPool,
    caller_is_owner: bool,
    deposit_fee_bps: u16,
    claim_fee_bps: u16,
    now: u64,
) -> Result<StakingPool, PoolError> {
    if !caller_is_owner {
        Err(PoolError::NotOwner)
    } else if deposit_fee_bps > MAX_DEPOSIT_FEE_BPS {
        Err(PoolError::DepositFeeTooHigh)
    } else if claim_fee_bps > MAX_CLAIM_FEE_BPS {
        Err(PoolError::ClaimFeeTooHigh)
    } else if deposit_fee_bps > pool.deposit_fee_bps || claim_fee_bps > pool.claim_fee_bps {
        if now + FEE_TIMELOCK_NS > u64::MAX {
            Err(PoolError::Overflow)
        } else {
            Ok(StakingPool {
                pending_fee_update: Some(PendingFeeUpdate {
                    deposit_fee_bps,
                    claim_fee_bps,
                    execution_time_ns: (now + FEE_TIMELOCK_NS) as u64,
                }),
                ..pool
            })
        }
    } else {
        Ok(StakingPool { deposit_fee_bps, claim_fee_bps, pending_fee_update: None, ..pool })
    }
}

/// The outcome of `execute_fee_update`: a pending update whose time has
/// come (by anyone's call) becomes the fees in force.
pub open spec fn execute_fee_result(pool: StakingPool, now: u64) -> Result<StakingPool, PoolError> {
    match pool.pending_fee_update {
        None => Err(PoolError::NoPendingFeeUpdate),
        Some(u) => if now < u.execution_time_ns {
            Err(PoolError::TimelockNotExpired)
        } else {
            Ok(StakingPool {
                deposit_fee_bps: u.deposit_fee_bps,
                claim_fee_bps: u.claim_fee_bps,
                pending_fee_update: None,
                ..pool
            })
        },
    }
}

/// An owner-only call refused to anyone else.
pub open spec fn owner_check(pool: StakingPool, caller: Seq<char>) -> Result<(), PoolError> {
    if caller == pool.owner_id@ { Ok(()) } else { Err(PoolError::NotOwner) }
}

impl StakingPool {
    /// Whether `caller` is the owner.
    fn is_owner(&self, caller: &str) -> (r: bool)
        ensures
            r == (caller@ == self.owner_id@),
    {
        key::str_equal(caller, self.owner_id.as_str())
    }

    /// Replaces the staking key; owner only.  The key must parse; the pool
    /// then restakes with it.
    pub fn update_staking_key(&mut self, caller: &str, new_staking_key: &str) -> (r: Result<Option<u128>, PoolError>)
        ensures
            caller@ != old(self).owner_id@ ==> r == Err::<Option<u128>, PoolError>(PoolError::NotOwner),
            caller@ == old(self).owner_id@ ==> match key::parsed_key(new_staking_key@) {
                Err(e) => r == Err::<Option<u128>, PoolError>(PoolError::InvalidKey(e)),
                Ok(bytes) => {
                    &&& final(self).staking_key_bytes@ == bytes
                    &&& *final(self) == (StakingPool { staking_key_bytes: final(self).staking_key_bytes, ..*old(self) })
                    &&& r == Ok::<Option<u128>, PoolError>(final(self).restake_target())
                },
            },
            r is Err ==> *final(self) == *old(self),
            old(self).wf() ==> final(self).wf(),
            old(self).upgrades_locked ==> final(self).upgrades_locked,
    {
        if !self.is_owner(caller) {
            return Err(PoolError::NotOwner);
        }
        match key::parse_key_string(new_staking_key) {
            Err(e) => Err(PoolError::InvalidKey(e)),
            Ok(bytes) => {
                self.staking_key_bytes = bytes;
                Ok(self.internal_restake())
            },
        }
    }

    /// Proposes new fees; owner only.  See `propose_fee_result`.
    pub fn propose_fee_update(&mut self, caller: &str, deposit_fee_bps: u16, claim_fee_bps: u16, now: u64) -> (r: Result<(), PoolError>)
        ensures
            match propose_fee_result(*old(self), caller@ == old(self).owner_id@, deposit_fee_bps, claim_fee_bps, now) {
                Ok(p) => r is Ok && *final(self) == p,
                Err(e) => r == Err::<(), PoolError>(e) && *final(self) == *old(self),
            },
            old(self).wf() ==> final(self).wf(),
            old(self).upgrades_locked ==> final(self).upgrades_locked,
    {
        if !self.is_owner(caller) {
            return Err(PoolError::NotOwner);
        }
        if deposit_fee_bps > MAX_DEPOSIT_FEE_BPS {
            return Err(PoolError::DepositFeeTooHigh);
        }
        if claim_fee_bps > MAX_CLAIM_FEE_BPS {
            return Err(PoolError::ClaimFeeTooHigh);
        }
        let is_increase = deposit_fee_bps > self.deposit_fee_bps || claim_fee_bps > self.claim_fee_bps;
        if is_increase {
            let execution_time_ns = match now.checked_add(FEE_TIMELOCK_NS) {
                Some(t) => t,
                None => return Err(PoolError::Overflow),
            };
            self.pending_fee_update = Some(PendingFeeUpdate { deposit_fee_bps, claim_fee_bps, execution_time_ns });
        } else {
            self.deposit_fee_bps = deposit_fee_bps;
            self.claim_fee_bps = claim_fee_bps;
            self.pending_fee_update = None;
        }
        Ok(())
    }

    /// Applies a pending fee update whose timelock has expired; anyone may
    /// call.  See `execute_fee_result`.
    pub fn execute_fee_update(&mut self, now: u64) -> (r: Result<(), PoolError>)
        ensures
            match execute_fee_result(*old(self), now) {
                Ok(p) => r is Ok && *final(self) == p,
                Err(e) => r == Err::<(), PoolError>(e) && *final(self) == *old(self),
            },
            old(self).wf() ==> final(self).wf(),
            old(self).upgrades_locked ==> final(self).upgrades_locked,
    {
        let update = match self.pending_fee_update {
            None => return Err(PoolError::NoPendingFeeUpdate),
            Some(u) => u,
        };
        if now < update.execution_time_ns {
            return Err(PoolError::TimelockNotExpired);
        }
        self.deposit_fee_bps = update.deposit_fee_bps;
        self.claim_fee_bps = update.claim_fee_bps;
        self.pending_fee_update = None;
        Ok(())
    }

    /// Drops a pending fee update; owner only.
    pub fn cancel_fee_update(&mut self, caller: &str) -> (r: Result<(), PoolError>)
        ensures
            r == owner_check(*old(self), caller@),
            r is Ok ==> *final(self) == (StakingPool { pending_fee_update: None, ..*old(self) }),
            r is Err ==> *final(self) == *old(self),
            old(self).wf() ==> final(self).wf(),
            old(self).upgrades_locked ==> final(self).upgrades_locked,
    {
        if !self.is_owner(caller) {
            return Err(PoolError::NotOwner);
        }
        self.pending_fee_update = None;
        Ok(())
    }

    /// Whether the owner may start deleting the deployer key: owner only,
    /// and only while upgrades are not yet locked.
    pub fn lock_upgrades(&self, caller: &str) -> (r: Result<(), PoolError>)
        ensures
            caller@ != self.owner_id@ ==> r == Err::<(), PoolError>(PoolError::NotOwner),
            caller@ == self.owner_id@ && self.upgrades_locked ==> r == Err::<(), PoolError>(PoolError::UpgradesAlreadyLocked),
            caller@ == self.owner_id@ && !self.upgrades_locked ==> r is Ok,
    {
        if !self.is_owner(caller) {
            return Err(PoolError::NotOwner);
        }
        if self.upgrades_locked {
            return Err(PoolError::UpgradesAlreadyLocked);
        }
        Ok(())
    }

    /// Records the outcome of the deployer key deletion: upgrades become
    /// locked, for good, only where the deletion succeeded.
    pub fn on_lock_upgrades_complete(&mut self, key_deleted: bool) -> (r: Result<(), PoolError>)
        ensures
            key_deleted ==> r is Ok && *final(self) == (StakingPool { upgrades_locked: true, ..*old(self) }),
            !key_deleted ==> r == Err::<(), PoolError>(PoolError::KeyDeletionFailed) && *final(self) == *old(self),
            old(self).wf() ==> final(self).wf(),
            old(self).upgrades_locked ==> final(self).upgrades_locked,
    {
        if !key_deleted {
            return Err(PoolError::KeyDeletionFailed);
        }
        self.upgrades_locked = true;
        Ok(())
    }

    /// Starts a transfer of ownership to `new_owner_id`; owner only, and not
    /// to the current owner.  Returns the bytes to store in the
    /// pending-owner slot.
    pub fn propose_ownership(&self, caller: &str, new_owner_id: &str) -> (r: Result<Vec<u8>, PoolError>)
        ensures
            caller@ != self.owner_id@ ==> r == Err::<Vec<u8>, PoolError>(PoolError::NotOwner),
            caller@ == self.owner_id@ && new_owner_id@ == self.owner_id@
                ==> r == Err::<Vec<u8>, PoolError>(PoolError::SameOwner),
            caller@ == self.owner_id@ && new_owner_id@ != self.owner_id@
                ==> (r matches Ok(bytes) && bytes@ == vstd::utf8::encode_utf8(new_owner_id@)),
    {
        if !self.is_owner(caller) {
            return Err(PoolError::NotOwner);
        }
        if key::str_equal(new_owner_id, self.owner_id.as_str()) {
            return Err(PoolError::SameOwner);
        }
        Ok(account::encode_pending_owner(new_owner_id))
    }

    /// Completes a transfer of ownership: there must be a pending owner in
    /// the stored slot, and only that account may accept.  The caller then
    /// clears the slot.
    pub fn accept_ownership(&mut self, caller: &str, stored_pending: Option<Vec<u8>>) -> (r: Result<(), PoolError>)
        ensures
            match match stored_pending {
                None => None,
                Some(b) => account::stored_account_id(b@),
            } {
                None => r == Err::<(), PoolError>(PoolError::NoPendingOwner) && *final(self) == *old(self),
                Some(pending) => if caller@ == pending {
                    r is Ok && final(self).owner_id@ == pending
                        && *final(self) == (StakingPool { owner_id: final(self).owner_id, ..*old(self) })
                } else {
                    r == Err::<(), PoolError>(PoolError::NotPendingOwner) && *final(self) == *old(self)
                },
            },
            old(self).wf() ==> final(self).wf(),
            old(self).upgrades_locked ==> final(self).upgrades_locked,
    {
        let pending = match account::decode_pending_owner(stored_pending) {
            None => return Err(PoolError::NoPendingOwner),
            Some(p) => p,
        };
        if !key::str_equal(caller, pending.as_str()) {
            return Err(PoolError::NotPendingOwner);
        }
        self.owner_id = pending;
        Ok(())
    }

    /// Whether the owner may cancel a pending ownership transfer: owner only.
    pub fn cancel_ownership_transfer(&self, caller: &str) -> (r: Result<(), PoolError>)
        ensures
            r == owner_check(*self, caller@),
    {
        if !self.is_owner(caller) {
            return Err(PoolError::NotOwner);
        }
        Ok(())
    }

    /// The pending owner held by the stored slot, if any.
    pub fn get_pending_owner(&self, stored_pending: Option<Vec<u8>>) -> (r: Option<String>)
        ensures
            account::string_option_view(r) == match stored_pending {
                None => None,
                Some(b) => account::stored_account_id(b@),
            },
    {
        account::decode_pending_owner(stored_pending)
    }
}

} // verus!
