//! Upgrading stored pool state to the current layout.

use vstd::prelude::*;

use crate::pool::StakingPool;
use crate::types::PoolError;

verus! {

/// Pool state in the older layout: no pending fee update, no upgrade lock,
/// and a pause flag that the current layout dropped.
pub struct OldStakingPool {
    pub owner_id: String,
    pub staking_key_bytes: Vec<u8>,
    pub deposit_fee_bps: u16,
    pub claim_fee_bps: u16,
    pub total_staked_balance: u128,
    pub total_stake_shares: u128,
    pub last_locked_balance: u128,
    pub paused: bool,
}

/// The stored state found at migration.
pub enum MigrationSource {
    /// State already in the current layout.
    Current(StakingPool),
    /// State in the older layout.
    Legacy(OldStakingPool),
    /// No state that either layout reads.
    Missing,
}

/// The migrated pool, and whether the pending-owner slot must be cleared.
pub struct Migration {
    pub pool: StakingPool,
    pub clear_pending_owner: bool,
}

/// The current-layout pool that older state becomes: every field carried
/// over, no pending fee update, upgrades unlocked.
pub open spec fn upgraded(old: OldStakingPool) -> StakingPool {
    StakingPool {
        owner_id: old.owner_id,
        staking_key_bytes: old.staking_key_bytes,
        deposit_fee_bps: old.deposit_fee_bps,
        claim_fee_bps: old.claim_fee_bps,
        total_staked_balance: old.total_staked_balance,
        total_stake_shares: old.total_stake_shares,
        last_locked_balance: old.last_locked_balance,
        pending_fee_update: None,
        upgrades_locked: false,
    }
}

impl StakingPool {
    /// Migrates the stored state, once.  A second migration is refused.  State
    /// already in the current layout is kept as it is, and so is an ownership
    /// transfer in flight; older state is carried over by `upgraded` and the
    /// stale pending-owner slot is cleared.  Without readable state the
    /// migration is refused.
    pub fn migrate(already_migrated: bool, source: MigrationSource) -> (r: Result<Migration, PoolError>)
        ensures
            already_migrated ==> (r matches Err(e) && e == PoolError::AlreadyMigrated),
            !already_migrated ==> match source {
                MigrationSource::Current(p) => (r matches Ok(m) && m.pool == p && !m.clear_pending_owner),
                MigrationSource::Legacy(o) => (r matches Ok(m) && m.pool == upgraded(o) && m.clear_pending_owner),
                MigrationSource::Missing => (r matches Err(e) && e == PoolError::StateNotFound),
            },
    {
        if already_migrated {
            return Err(PoolError::AlreadyMigrated);
        }
        match source {
            MigrationSource::Current(pool) => Ok(Migration { pool, clear_pending_owner: false }),
            MigrationSource::Legacy(old) => Ok(Migration {
                pool: StakingPool {
                    owner_id: old.owner_id,
                    staking_key_bytes: old.staking_key_bytes,
                    deposit_fee_bps: old.deposit_fee_bps,
                    claim_fee_bps: old.claim_fee_bps,
                    total_staked_balance: old.total_staked_balance,
                    total_stake_shares: old.total_stake_shares,
                    last_locked_balance: old.last_locked_balance,
                    pending_fee_update: None,
                    upgrades_locked: false,
                },
                clear_pending_owner: true,
            }),
            MigrationSource::Missing => Err(PoolError::StateNotFound),
        }
    }
}

} // verus!
