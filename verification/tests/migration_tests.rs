use staking_pool::migration::{MigrationSource, OldStakingPool};
use staking_pool::pool::StakingPool;
use staking_pool::types::{PendingFeeUpdate, PoolError};

fn current() -> StakingPool {
    StakingPool {
        owner_id: "owner.near".to_string(),
        staking_key_bytes: vec![1, 2, 3],
        deposit_fee_bps: 10,
        claim_fee_bps: 20,
        total_staked_balance: 100,
        total_stake_shares: 90,
        last_locked_balance: 500,
        pending_fee_update: Some(PendingFeeUpdate { deposit_fee_bps: 5, claim_fee_bps: 30, execution_time_ns: 9 }),
        upgrades_locked: true,
    }
}

#[test]
fn migration_runs_only_once() {
    assert!(matches!(
        StakingPool::migrate(true, MigrationSource::Current(current())),
        Err(PoolError::AlreadyMigrated)
    ));
}

#[test]
fn current_layout_is_kept_with_its_pending_owner() {
    let m = StakingPool::migrate(false, MigrationSource::Current(current())).unwrap();
    assert!(!m.clear_pending_owner);
    assert_eq!(m.pool.owner_id, "owner.near");
    assert_eq!(m.pool.last_locked_balance, 500);
    assert!(m.pool.upgrades_locked);
    assert_eq!(m.pool.pending_fee_update, current().pending_fee_update);
}

#[test]
fn legacy_layout_is_carried_over_and_clears_pending_owner() {
    let old = OldStakingPool {
        owner_id: "old.near".to_string(),
        staking_key_bytes: vec![4, 5],
        deposit_fee_bps: 7,
        claim_fee_bps: 8,
        total_staked_balance: 11,
        total_stake_shares: 12,
        last_locked_balance: 13,
        paused: true,
    };
    let m = StakingPool::migrate(false, MigrationSource::Legacy(old)).unwrap();
    assert!(m.clear_pending_owner);
    let p = m.pool;
    assert_eq!(p.owner_id, "old.near");
    assert_eq!(p.staking_key_bytes, vec![4, 5]);
    assert_eq!((p.deposit_fee_bps, p.claim_fee_bps), (7, 8));
    assert_eq!((p.total_staked_balance, p.total_stake_shares, p.last_locked_balance), (11, 12, 13));
    assert_eq!(p.pending_fee_update, None);
    assert!(!p.upgrades_locked);
}

#[test]
fn migration_without_state_is_refused() {
    assert!(matches!(StakingPool::migrate(false, MigrationSource::Missing), Err(PoolError::StateNotFound)));
}
