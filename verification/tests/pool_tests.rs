use staking_pool::key::KeyError;
use staking_pool::pool::{StakingPool, FEE_TIMELOCK_NS, LOCKUP_NS, NUM_EPOCHS_TO_UNLOCK};
use staking_pool::types::{Delegator, PendingFeeUpdate, PoolError, PoolFees};

const E: u128 = 1_000_000_000_000_000_000_000_000;
const OWNER: &str = "owner.near";
const ALICE: &str = "alice.near";

fn fndsa_key() -> String {
    format!("fndsa:{}", bs58::encode(vec![7u8; 897]).into_string())
}

fn new_pool() -> StakingPool {
    StakingPool::new(OWNER.to_string(), &fndsa_key(), 10, 10).unwrap()
}

fn bare_pool(total_staked: u128, total_shares: u128, last_locked: u128, claim_fee_bps: u16) -> StakingPool {
    StakingPool {
        owner_id: OWNER.to_string(),
        staking_key_bytes: vec![],
        deposit_fee_bps: 10,
        claim_fee_bps,
        total_staked_balance: total_staked,
        total_stake_shares: total_shares,
        last_locked_balance: last_locked,
        pending_fee_update: None,
        upgrades_locked: false,
    }
}

fn record(shares: u128, principal: u128, unstaked: u128, epoch: u64, unlock: u64) -> Delegator {
    Delegator {
        stake_shares: shares,
        principal,
        unstaked_balance: unstaked,
        unstake_available_epoch: epoch,
        unlock_timestamp_ns: unlock,
    }
}

fn totals(p: &StakingPool) -> (u128, u128, u128) {
    (p.total_staked_balance, p.total_stake_shares, p.last_locked_balance)
}

/// A pool holding Alice's 1000 FLC deposit (999 FLC after the fee), made
/// at time 1_000 while the locked balance was `locked`.
fn pool_with_alice(locked: u128) -> (StakingPool, Delegator) {
    let mut p = new_pool();
    let out = p.deposit_and_stake(None, 1000 * E, locked, 1_000, None).unwrap();
    (p, out.delegator)
}

#[test]
fn new_checks_fee_caps_and_key() {
    assert!(matches!(StakingPool::new(OWNER.to_string(), &fndsa_key(), 11, 10), Err(PoolError::DepositFeeTooHigh)));
    assert!(matches!(StakingPool::new(OWNER.to_string(), &fndsa_key(), 10, 1001), Err(PoolError::ClaimFeeTooHigh)));
    assert!(matches!(
        StakingPool::new(OWNER.to_string(), "fndsa", 10, 10),
        Err(PoolError::InvalidKey(KeyError::MissingSeparator))
    ));
    let p = StakingPool::new(OWNER.to_string(), &fndsa_key(), 10, 1000).unwrap();
    assert_eq!(p.owner_id, OWNER);
    assert_eq!(p.staking_key_bytes.len(), 902);
    assert_eq!(totals(&p), (0, 0, 0));
    assert_eq!(p.get_fees(), PoolFees { deposit_fee_bps: 10, claim_fee_bps: 1000 });
    assert_eq!(p.get_pending_fee_update(), None);
    assert!(!p.is_upgrades_locked());
    assert!(p.is_restake_healthy());
}

#[test]
fn first_deposit_takes_fee_and_credits_no_phantom_reward() {
    // The validator already has 300 million FLC locked.
    let locked = 300_000_000 * E;
    let mut p = new_pool();
    let out = p.deposit_and_stake(None, 1000 * E, locked, 1_000, None).unwrap();
    assert_eq!(out.owner_fee, E);
    assert_eq!(out.shares, 999 * E);
    assert_eq!(out.delegator, record(999 * E, 999 * E, 0, 0, 1_000 + LOCKUP_NS));
    assert_eq!(out.restake, Some(locked));
    assert_eq!(totals(&p), (999 * E, 999 * E, locked));
    let view = p.get_account(Some(out.delegator), 0, 1_000).unwrap();
    assert_eq!(view.staked_balance, 999 * E);
    assert_eq!(view.rewards_earned, 0);
    assert_eq!(view.principal, 999 * E);
    assert!(view.is_locked);
    assert!(!view.can_withdraw);
}

#[test]
fn second_deposit_adds_to_the_record() {
    let (mut p, d) = pool_with_alice(999 * E);
    let out = p.deposit_and_stake(Some(d), 500 * E, 999 * E, 2_000, Some(1)).unwrap();
    assert_eq!(out.owner_fee, E / 2);
    assert_eq!(out.shares, 4995 * E / 10);
    assert_eq!(out.delegator.stake_shares, 14985 * E / 10);
    assert_eq!(out.delegator.principal, 14985 * E / 10);
    assert_eq!(out.delegator.unlock_timestamp_ns, 2_000 + LOCKUP_NS);
    assert_eq!(totals(&p), (14985 * E / 10, 14985 * E / 10, 999 * E));
}

#[test]
fn deposit_below_minimum_is_refused() {
    let mut p = new_pool();
    assert_eq!(p.deposit_and_stake(None, E - 1, 5 * E, 0, None), Err(PoolError::DepositBelowMinimum));
    assert_eq!(totals(&p), (0, 0, 0));
}

#[test]
fn deposit_slippage_guard() {
    let mut p = new_pool();
    assert_eq!(p.deposit_and_stake(None, 1000 * E, 0, 0, Some(1000 * E)), Err(PoolError::SlippageExceeded));
    assert_eq!(totals(&p), (0, 0, 0));
    // A minimum of zero asks for nothing.
    assert!(p.deposit_and_stake(None, 1000 * E, 0, 0, Some(0)).is_ok());
}

#[test]
fn deposit_that_mints_no_shares_is_refused() {
    let mut p = bare_pool(1_000_000 * E, 1, 0, 10);
    assert_eq!(p.deposit_and_stake(None, E, 0, 0, None), Err(PoolError::DepositMintsNoShares));
    assert_eq!(totals(&p), (1_000_000 * E, 1, 0));
}

#[test]
fn deposit_overflow_is_refused() {
    let mut p = bare_pool(E, E, 0, 10);
    let d = record(u128::MAX - 10, 0, 0, 0, 0);
    assert_eq!(p.deposit_and_stake(Some(d), 1000 * E, 0, 0, None), Err(PoolError::Overflow));
    assert_eq!(totals(&p), (E, E, 0));
}

#[test]
fn stake_is_locked_for_unstake_and_claim() {
    let (mut p, d) = pool_with_alice(999 * E);
    let now = 1_000 + LOCKUP_NS - 1;
    assert_eq!(p.unstake(Some(d), 10 * E, 999 * E, now, 5), Err(PoolError::StakeLocked));
    assert!(matches!(p.claim_rewards(ALICE, Some(d), None, 1099 * E, now), Err(PoolError::StakeLocked)));
    assert_eq!(totals(&p), (999 * E, 999 * E, 999 * E));
}

#[test]
fn rewards_accrue_and_compound_counts_them_as_principal() {
    let (mut p, d) = pool_with_alice(999 * E);
    // The locked balance rose by 100 FLC.
    assert_eq!(p.ping(1099 * E), Ok(()));
    assert_eq!(totals(&p), (1099 * E, 999 * E, 1099 * E));
    let view = p.get_account(Some(d), 0, 5_000).unwrap();
    assert_eq!(view.staked_balance, 1099 * E);
    assert_eq!(view.rewards_earned, 100 * E);
    let d2 = p.compound(Some(d), 1099 * E, 5_000).unwrap();
    assert_eq!(d2.principal, 1099 * E);
    assert_eq!(d2.stake_shares, 999 * E);
    assert_eq!(d2.unlock_timestamp_ns, 5_000 + LOCKUP_NS);
    assert_eq!(p.get_account(Some(d2), 0, 5_000).unwrap().rewards_earned, 0);
    assert_eq!(p.compound(Some(d2), 1099 * E, 6_000), Err(PoolError::NoRewardsToCompound));
    assert_eq!(p.compound(None, 1099 * E, 6_000), Err(PoolError::NoStake));
}

#[test]
fn ping_credits_delegators_only_their_share_of_a_rise() {
    // Delegators hold 1000 of a 4000 locked balance; a rise of 400 credits 100.
    let mut p = bare_pool(1000, 1000, 4000, 10);
    assert_eq!(p.ping(4400), Ok(()));
    assert_eq!(totals(&p), (1100, 1000, 4400));
    // A fall of 440 takes away their 110.
    assert_eq!(p.ping(3960), Ok(()));
    assert_eq!(totals(&p), (990, 1000, 3960));
    // No earlier locked balance: nothing is attributed.
    let mut q = bare_pool(1000, 1000, 0, 10);
    assert_eq!(q.ping(5000), Ok(()));
    assert_eq!(totals(&q), (1000, 1000, 5000));
}

#[test]
fn ping_overflow_is_refused() {
    let mut p = bare_pool(u128::MAX - 5, 10, 10, 10);
    assert_eq!(p.ping(30), Err(PoolError::Overflow));
    assert_eq!(totals(&p), (u128::MAX - 5, 10, 10));
}

#[test]
fn realistic_reward_credits_the_pools_share() {
    // 999 FLC of delegators in a 300M FLC validator; the locked balance rises
    // by 1 FLC, of which the pool's 999 / 300M share is credited exactly.
    let locked = 300_000_000 * E;
    let (mut p, _) = pool_with_alice(locked);
    assert_eq!(p.ping(locked + E), Ok(()));
    assert_eq!(p.total_staked_balance, 999 * E + 3_330_000_000_000_000_000);
}

#[test]
fn claim_pays_net_reward_and_gives_fee_shares_to_owner() {
    // 10% claim fee; the pool is worth 1100 for 1000 shares.
    let mut p = bare_pool(1100, 1000, 50, 1000);
    let d = record(1000, 1000, 0, 0, 0);
    let owner = record(0, 0, 0, 0, 0);
    let out = p.claim_rewards(ALICE, Some(d), Some(owner), 50, 10).unwrap();
    assert_eq!(out.payout, 90);
    assert_eq!(out.delegator, record(910, 1000, 0, 0, 10 + LOCKUP_NS));
    assert_eq!(out.owner_record, Some(record(9, 9, 0, 0, 0)));
    assert_eq!(out.restake, None);
    assert_eq!(totals(&p), (1010, 919, 50));
}

#[test]
fn owner_claiming_gets_fee_shares_on_the_same_record() {
    let mut p = bare_pool(1100, 1000, 50, 1000);
    let d = record(1000, 1000, 0, 0, 0);
    let out = p.claim_rewards(OWNER, Some(d), Some(d), 50, 10).unwrap();
    assert_eq!(out.payout, 90);
    assert_eq!(out.delegator, record(919, 1009, 0, 0, 10 + LOCKUP_NS));
    assert_eq!(out.owner_record, None);
    assert_eq!(totals(&p), (1010, 919, 50));
}

#[test]
fn claim_without_fee_burns_the_rewards() {
    let mut p = bare_pool(1100, 1000, 50, 10);
    let d = record(1000, 1000, 25, 3, 0);
    let out = p.claim_rewards(ALICE, Some(d), None, 50, 10).unwrap();
    assert_eq!(out.payout, 100);
    assert_eq!(out.delegator, record(910, 1000, 25, 3, 10 + LOCKUP_NS));
    assert_eq!(out.owner_record, None);
    assert_eq!(totals(&p), (1000, 910, 50));
}

#[test]
fn claim_refusals() {
    let mut p = bare_pool(1000, 1000, 50, 10);
    assert!(matches!(p.claim_rewards(ALICE, None, None, 50, 10), Err(PoolError::NoStake)));
    let d = record(1000, 1000, 0, 0, 0);
    assert!(matches!(p.claim_rewards(ALICE, Some(d), None, 50, 10), Err(PoolError::NoRewards)));
    assert_eq!(totals(&p), (1000, 1000, 50));
}

#[test]
fn partial_unstake_moves_the_exact_amount() {
    let (mut p, d) = pool_with_alice(999 * E);
    let now = 1_000 + LOCKUP_NS;
    let out = p.unstake(Some(d), 100 * E, 999 * E, now, 20).unwrap();
    assert_eq!(out.delegator, record(899 * E, 899 * E, 100 * E, 24, now + LOCKUP_NS));
    assert_eq!(out.restake, Some(999 * E));
    assert_eq!(totals(&p), (899 * E, 899 * E, 999 * E));
}

#[test]
fn unstake_refusals() {
    let (mut p, d) = pool_with_alice(999 * E);
    let now = 1_000 + LOCKUP_NS;
    assert_eq!(p.unstake(None, 10, 999 * E, now, 0), Err(PoolError::NoStake));
    assert_eq!(p.unstake(Some(d), 0, 999 * E, now, 0), Err(PoolError::InvalidUnstakeAmount));
    assert_eq!(p.unstake(Some(d), 999 * E + 1, 999 * E, now, 0), Err(PoolError::InvalidUnstakeAmount));
    assert_eq!(totals(&p), (999 * E, 999 * E, 999 * E));
}

#[test]
fn unstake_all_moves_everything() {
    let (mut p, d) = pool_with_alice(999 * E);
    let now = 1_000 + LOCKUP_NS;
    let out = p.unstake_all(Some(d), 999 * E, now, 3).unwrap();
    assert_eq!(out.delegator, record(0, 0, 999 * E, 7, now + LOCKUP_NS));
    assert_eq!(totals(&p), (0, 0, 999 * E));
    assert_eq!(p.unstake_all(Some(out.delegator), 999 * E, now, 3), Err(PoolError::NothingToUnstake));
    assert_eq!(p.unstake_all(None, 999 * E, now, 3), Err(PoolError::NoStake));
}

#[test]
fn withdrawal_waits_for_unbonding_and_failed_transfer_is_undone() {
    let d = record(0, 0, 500, 10, 0);
    let p = bare_pool(0, 0, 0, 10);
    assert_eq!(p.withdraw_all(Some(d), 9), Err(PoolError::StillUnbonding));
    assert_eq!(p.withdraw_all(None, 9), Err(PoolError::NoWithdrawal));
    assert_eq!(p.withdraw_all(Some(record(5, 5, 0, 0, 0)), 9), Err(PoolError::NoUnstakedBalance));
    let w = p.withdraw_all(Some(d), 10).unwrap();
    assert_eq!(w.amount, 500);
    assert_eq!(w.saved_epoch, 10);
    assert_eq!(w.delegator, record(0, 0, 0, 0, 0));
    assert_eq!(p.on_withdraw_complete(Some(w.delegator), w.amount, w.saved_epoch, true), Ok(None));
    assert_eq!(p.on_withdraw_complete(Some(w.delegator), w.amount, w.saved_epoch, false), Ok(Some(d)));
    assert_eq!(p.on_withdraw_complete(None, 3, 4, false), Ok(Some(record(0, 0, 3, 4, 0))));
    assert_eq!(
        p.on_withdraw_complete(Some(record(0, 0, u128::MAX, 0, 0)), 1, 4, false),
        Err(PoolError::Overflow)
    );
}

#[test]
fn slash_lowers_stake_and_sync_principal_follows() {
    let (mut p, d) = pool_with_alice(999 * E);
    assert_eq!(p.ping(899 * E), Ok(()));
    assert_eq!(p.total_staked_balance, 899 * E);
    let view = p.get_account(Some(d), 0, 0).unwrap();
    assert_eq!(view.staked_balance, 899 * E);
    assert_eq!(view.rewards_earned, 0);
    assert_eq!(p.sync_principal(Some(d)), Ok(Some(record(999 * E, 899 * E, 0, 0, 1_000 + LOCKUP_NS))));
    assert_eq!(p.sync_principal(Some(record(999 * E, 10, 0, 0, 0))), Ok(None));
    assert_eq!(p.sync_principal(None), Err(PoolError::NoStake));
}

#[test]
fn fee_increase_waits_for_timelock() {
    let mut p = new_pool();
    assert_eq!(p.propose_fee_update(ALICE, 5, 5, 100), Err(PoolError::NotOwner));
    assert_eq!(p.propose_fee_update(OWNER, 11, 5, 100), Err(PoolError::DepositFeeTooHigh));
    assert_eq!(p.propose_fee_update(OWNER, 5, 1001, 100), Err(PoolError::ClaimFeeTooHigh));
    assert_eq!(p.propose_fee_update(OWNER, 10, 500, 100), Ok(()));
    assert_eq!(p.get_fees(), PoolFees { deposit_fee_bps: 10, claim_fee_bps: 10 });
    assert_eq!(
        p.get_pending_fee_update(),
        Some(PendingFeeUpdate { deposit_fee_bps: 10, claim_fee_bps: 500, execution_time_ns: 100 + FEE_TIMELOCK_NS })
    );
    assert_eq!(p.execute_fee_update(100 + FEE_TIMELOCK_NS - 1), Err(PoolError::TimelockNotExpired));
    assert_eq!(p.execute_fee_update(100 + FEE_TIMELOCK_NS), Ok(()));
    assert_eq!(p.get_fees(), PoolFees { deposit_fee_bps: 10, claim_fee_bps: 500 });
    assert_eq!(p.get_pending_fee_update(), None);
    assert_eq!(p.execute_fee_update(u64::MAX), Err(PoolError::NoPendingFeeUpdate));
}

#[test]
fn fee_decrease_is_immediate_and_drops_pending_increase() {
    let mut p = new_pool();
    assert_eq!(p.propose_fee_update(OWNER, 10, 900, 0), Ok(()));
    assert!(p.get_pending_fee_update().is_some());
    assert_eq!(p.propose_fee_update(OWNER, 3, 10, 0), Ok(()));
    assert_eq!(p.get_fees(), PoolFees { deposit_fee_bps: 3, claim_fee_bps: 10 });
    assert_eq!(p.get_pending_fee_update(), None);
}

#[test]
fn cancel_fee_update_is_owner_only() {
    let mut p = new_pool();
    assert_eq!(p.propose_fee_update(OWNER, 10, 900, 0), Ok(()));
    assert_eq!(p.cancel_fee_update(ALICE), Err(PoolError::NotOwner));
    assert!(p.get_pending_fee_update().is_some());
    assert_eq!(p.cancel_fee_update(OWNER), Ok(()));
    assert_eq!(p.get_pending_fee_update(), None);
}

#[test]
fn upgrade_lock_is_set_only_after_key_deletion() {
    let mut p = new_pool();
    assert_eq!(p.lock_upgrades(ALICE), Err(PoolError::NotOwner));
    assert_eq!(p.lock_upgrades(OWNER), Ok(()));
    assert_eq!(p.on_lock_upgrades_complete(false), Err(PoolError::KeyDeletionFailed));
    assert!(!p.is_upgrades_locked());
    assert_eq!(p.on_lock_upgrades_complete(true), Ok(()));
    assert!(p.is_upgrades_locked());
    assert_eq!(p.lock_upgrades(OWNER), Err(PoolError::UpgradesAlreadyLocked));
}

#[test]
fn two_step_ownership_transfer() {
    let mut p = new_pool();
    assert_eq!(p.propose_ownership(ALICE, "bob.near"), Err(PoolError::NotOwner));
    assert_eq!(p.propose_ownership(OWNER, OWNER), Err(PoolError::SameOwner));
    let stored = p.propose_ownership(OWNER, "bob.near").unwrap();
    assert_eq!(p.get_pending_owner(Some(stored.clone())), Some("bob.near".to_string()));
    assert_eq!(p.accept_ownership("bob.near", None), Err(PoolError::NoPendingOwner));
    assert_eq!(p.accept_ownership(ALICE, Some(stored.clone())), Err(PoolError::NotPendingOwner));
    assert_eq!(p.get_owner_id(), OWNER);
    assert_eq!(p.cancel_ownership_transfer(ALICE), Err(PoolError::NotOwner));
    assert_eq!(p.cancel_ownership_transfer(OWNER), Ok(()));
    assert_eq!(p.accept_ownership("bob.near", Some(stored)), Ok(()));
    assert_eq!(p.get_owner_id(), "bob.near");
    assert_eq!(p.propose_ownership(OWNER, ALICE), Err(PoolError::NotOwner));
}

#[test]
fn staking_key_update_is_owner_only_and_restakes() {
    let mut p = bare_pool(500, 400, 700, 10);
    assert!(!p.is_restake_healthy());
    assert_eq!(p.internal_restake(), None);
    assert_eq!(p.update_staking_key(ALICE, &fndsa_key()), Err(PoolError::NotOwner));
    assert_eq!(
        p.update_staking_key(OWNER, "mldsa:11"),
        Err(PoolError::InvalidKey(KeyError::WrongLength))
    );
    assert!(p.staking_key_bytes.is_empty());
    assert_eq!(p.update_staking_key(OWNER, &fndsa_key()), Ok(Some(700)));
    assert!(p.is_restake_healthy());
    assert_eq!(p.staking_key_bytes.len(), 902);
}

#[test]
fn account_views() {
    let p = bare_pool(1100, 1000, 0, 10);
    let d = record(500, 400, 30, 9, 100);
    let v = p.get_account(Some(d), 9, 99).unwrap();
    assert_eq!(v.staked_balance, 550);
    assert_eq!(v.unstaked_balance, 30);
    assert_eq!(v.total_balance, 580);
    assert_eq!(v.principal, 400);
    assert_eq!(v.rewards_earned, 150);
    assert!(v.can_withdraw);
    assert!(v.is_locked);
    assert_eq!(v.unlock_timestamp_ns, 100);
    assert_eq!(v.unstake_available_epoch, 9);
    assert!(!p.get_account(Some(d), 8, 100).unwrap().can_withdraw);
    assert!(!p.get_account(Some(d), 8, 100).unwrap().is_locked);
    assert_eq!(p.get_account(None, 0, 0).unwrap().total_balance, 0);
    assert_eq!(p.get_account_staked_balance(Some(d)), 550);
    assert_eq!(p.get_account_unstaked_balance(Some(d)), 30);
    assert_eq!(p.get_account_unstaked_balance(None), 0);
    assert_eq!(p.get_account_total_balance(Some(d)), Ok(580));
    assert_eq!(p.get_total_staked_balance(), 1100);
    assert_eq!(p.get_total_stake_shares(), 1000);
    let rich = record(1000, 0, u128::MAX, 0, 0);
    assert_eq!(p.get_account_total_balance(Some(rich)), Err(PoolError::Overflow));
    assert_eq!(p.get_account(Some(rich), 0, 0), Err(PoolError::Overflow));
}

#[test]
fn share_arithmetic() {
    let p = bare_pool(1100, 1000, 0, 10);
    assert_eq!(p.amount_for_shares(100), 110);
    assert_eq!(p.shares_for_amount(110), 100);
    assert_eq!(p.shares_for(11), 10);
    assert_eq!(p.shares_for_amount_post_reduce(10, 90, 90), 9);
    assert_eq!(p.shares_for_amount_post_reduce(10, 1100, 90), 10);
    let empty = bare_pool(0, 0, 0, 10);
    assert_eq!(empty.amount_for_shares(100), 0);
    assert_eq!(empty.shares_for_amount(77), 77);
    assert_eq!(empty.shares_for(77), 77);
}

#[test]
fn restake_never_goes_below_the_locked_balance() {
    let mut p = new_pool();
    p.total_staked_balance = 10;
    p.last_locked_balance = 40;
    assert_eq!(p.internal_restake(), Some(40));
    p.total_staked_balance = 50;
    assert_eq!(p.internal_restake(), Some(50));
}

#[test]
fn upgrade_lock_survives_other_operations() {
    let mut p = new_pool();
    assert_eq!(p.on_lock_upgrades_complete(true), Ok(()));
    let out = p.deposit_and_stake(None, 10 * E, 0, 0, None).unwrap();
    assert_eq!(p.propose_fee_update(OWNER, 1, 1, 0), Ok(()));
    assert_eq!(p.update_staking_key(OWNER, &fndsa_key()), Ok(Some(out.shares)));
    assert_eq!(p.ping(5), Ok(()));
    assert!(p.is_upgrades_locked());
}

#[test]
fn deposit_after_rewards_keeps_principal_within_stake() {
    let (mut p, d) = pool_with_alice(999 * E);
    assert_eq!(p.ping(1099 * E), Ok(()));
    let out = p.deposit_and_stake(Some(d), 100 * E, 1099 * E, 9_000, None).unwrap();
    let staked = p.amount_for_shares(out.delegator.stake_shares);
    assert!(out.delegator.principal <= staked);
    let view = p.get_account(Some(out.delegator), 0, 9_000).unwrap();
    assert_eq!(view.rewards_earned, staked - out.delegator.principal);
}

#[test]
fn deposit_with_large_share_totals_keeps_principal_within_stake() {
    // Share totals near 10^33: every valuation here multiplies past 128 bits
    // and is still exact.
    let total = 153009790465716139903495786904517u128;
    let mut p = bare_pool(total, 613023905723783584956135423399292, total, 10);
    let d = record(136255700464151851533384824048667, 98418, 0, 0, 0);
    assert_eq!(p.amount_for_shares(d.stake_shares), 34009205812559546575464723844525);
    let out = p.deposit_and_stake(Some(d), 998865146422040528100298228365, total, 0, None).unwrap();
    assert_eq!(out.shares, 3997887215424363755895927274181);
    assert_eq!(out.delegator.principal, 997866281275618487572198028554);
    assert_eq!(p.amount_for_shares(out.delegator.stake_shares), 35007072093835165063036921774662);
    assert!(out.delegator.principal <= p.amount_for_shares(out.delegator.stake_shares));
    assert_eq!(totals(&p), (154007656746991758391067984834654, 617021792939207948712031350673473, total));
}

#[test]
fn records_keep_summing_to_the_share_total() {
    let mut p = new_pool();
    let a = p.deposit_and_stake(None, 1000 * E, 999 * E, 1_000, None).unwrap().delegator;
    let b = p.deposit_and_stake(None, 333 * E + 7, 999 * E, 1_000, None).unwrap().delegator;
    assert_eq!(a.stake_shares + b.stake_shares, p.total_stake_shares);
    // Rewards arrive; Bob claims (the owner earns fee shares), Alice unstakes.
    let locked = 1_500 * E;
    let now = 1_000 + LOCKUP_NS;
    let claim = p.claim_rewards("bob.near", Some(b), None, locked, now).unwrap();
    let b = claim.delegator;
    let owner = claim.owner_record.unwrap();
    assert!(claim.payout > 0);
    assert!(owner.stake_shares > 0);
    assert_eq!(a.stake_shares + b.stake_shares + owner.stake_shares, p.total_stake_shares);
    let a = p.unstake(Some(a), 123 * E + 45, locked, now, 9).unwrap().delegator;
    assert_eq!(a.stake_shares + b.stake_shares + owner.stake_shares, p.total_stake_shares);
}

#[test]
fn unstake_all_leaves_less_than_one_share_price_of_dust() {
    // 1100 units over 1000 shares: 333 shares are worth 366 (rounded down),
    // which buys back 332 shares (rounded down); one share stays behind.
    let mut p = bare_pool(1100, 1000, 1100, 10);
    let d = record(333, 300, 0, 0, 0);
    let out = p.unstake_all(Some(d), 1100, 5, 2).unwrap();
    assert_eq!(out.delegator, record(1, 0, 366, 2 + NUM_EPOCHS_TO_UNLOCK, 5 + LOCKUP_NS));
    assert_eq!(totals(&p), (734, 668, 1100));
    assert!(out.delegator.stake_shares * 1100 < 1000 + 1100);
    assert_eq!(bare_pool(1100, 1000, 1100, 10).amount_for_shares(out.delegator.stake_shares), 1);
}

#[test]
fn unstake_keeps_principal_within_stake() {
    // 1100 over 1000 shares; 333 shares are worth 366, all of it principal.
    let mut p = bare_pool(1100, 1000, 1100, 10);
    let d = record(333, 366, 0, 0, 0);
    let out = p.unstake(Some(d), 100, 1100, 5, 2).unwrap();
    // 100 is worth 90 shares (rounded down); 243 stay, worth 267.
    assert_eq!(out.delegator.stake_shares, 243);
    assert_eq!(out.delegator.principal, 266);
    assert_eq!(totals(&p), (1000, 910, 1100));
    assert_eq!(p.amount_for_shares(243), 267);
    assert!(out.delegator.principal <= p.amount_for_shares(out.delegator.stake_shares));
}

#[test]
fn claim_keeps_principal_within_stake() {
    let mut p = bare_pool(1100, 1000, 50, 1000);
    let d = record(1000, 1000, 0, 0, 0);
    let out = p.claim_rewards(ALICE, Some(d), Some(record(0, 0, 0, 0, 0)), 50, 10).unwrap();
    let owner = out.owner_record.unwrap();
    // The claimant keeps 910 shares worth 1000; the owner's 9 fee shares are
    // worth 9, exactly its credited principal.
    assert_eq!(p.amount_for_shares(out.delegator.stake_shares), 1000);
    assert!(out.delegator.principal <= p.amount_for_shares(out.delegator.stake_shares));
    assert_eq!(owner.principal, p.amount_for_shares(owner.stake_shares));
    assert_eq!(owner.principal, 9);
}

#[test]
fn failed_claim_payout_joins_the_unstaked_balance() {
    let p = bare_pool(1010, 919, 50, 1000);
    let d = record(910, 1000, 25, 3, 77);
    assert_eq!(p.on_claim_payout_complete(Some(d), 90, true), Ok(None));
    assert_eq!(p.on_claim_payout_complete(Some(d), 90, false), Ok(Some(record(910, 1000, 115, 3, 77))));
    assert_eq!(p.on_claim_payout_complete(None, 90, false), Ok(Some(record(0, 0, 90, 0, 0))));
    let rich = record(0, 0, u128::MAX, 0, 0);
    assert_eq!(p.on_claim_payout_complete(Some(rich), 1, false), Err(PoolError::Overflow));
}
