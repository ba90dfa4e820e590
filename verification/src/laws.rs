//! Properties of the pool that span its operations.

use vstd::prelude::*;
use vstd::arithmetic::div_mod::*;

use crate::muldiv;
use crate::admin;
use crate::pool;
use crate::rewards;
use crate::staking;
use crate::pool::{
    StakingPool, BPS_DENOMINATOR, FEE_TIMELOCK_NS, MAX_CLAIM_FEE_BPS, MAX_DEPOSIT_FEE_BPS, MIN_STAKE,
};
use crate::types;
use crate::types::{Delegator, PoolError};

verus! {

/// A fee within its cap takes at most that share of the amount: at most
/// 0.1% of a deposit, at most 10% of claimed rewards.
pub proof fn lemma_fee_within_cap(amount: u128, bps: u16, cap: u16)
    requires
        bps <= cap,
        cap == MAX_DEPOSIT_FEE_BPS || cap == MAX_CLAIM_FEE_BPS,
    ensures
        pool::fee_on(amount as int, bps as int) <= amount * (cap as int) / (BPS_DENOMINATOR as int),
        pool::fee_on(amount as int, bps as int) <= amount,
{
    muldiv::lemma_muldiv_at_most_quotient(amount, bps as u128, BPS_DENOMINATOR);
    assert(amount * (bps as int) <= amount * (cap as int)) by (nonlinear_arith)
        requires
            bps <= cap,
            amount >= 0,
    ;
    lemma_div_is_ordered(amount * (bps as int), amount * (cap as int), BPS_DENOMINATOR as int);
    muldiv::lemma_muldiv_fraction_at_most(amount, bps as u128, BPS_DENOMINATOR);
}

/// Looking at the locked balance never credits delegators more than the
/// rise of the locked balance, never raises the total on a fall, and
/// attributes nothing while no earlier locked balance is known.
pub proof fn lemma_ping_attribution_bounded(total_staked: u128, last_locked: u128, locked: u128)
    ensures
        locked > last_locked ==> pool::pinged_total(total_staked as int, last_locked as int, locked as int)
            <= total_staked + (locked - last_locked),
        locked <= last_locked ==> pool::pinged_total(total_staked as int, last_locked as int, locked as int)
            <= total_staked,
        pool::pinged_total(total_staked as int, last_locked as int, locked as int) >= 0,
        last_locked == 0 ==> pool::pinged_total(total_staked as int, last_locked as int, locked as int)
            == total_staked,
{
    if locked > last_locked && last_locked > 0 {
        assert(muldiv::muldiv_value((locked - last_locked) as int, total_staked as int, last_locked as int) >= 0);
    }
}

/// The stake requested from the runtime never falls below the last locked
/// balance, so validator-owned stake is never unstaked, nor below the
/// pool's total.
pub proof fn lemma_restake_never_below_locked(p: StakingPool)
    ensures
        p.restake_target() matches Some(amount) ==> amount >= p.last_locked_balance
            && amount >= p.total_staked_balance,
{
}

/// The first deposit into a pool without shares credits no reward for the
/// validator's own locked stake: the minted shares equal the net deposit,
/// and the pool's total grows by exactly that amount.
pub proof fn lemma_first_deposit_no_phantom_reward(
    p: StakingPool,
    record: Option<Delegator>,
    amount: u128,
    locked: u128,
    now: u64,
    min_shares_out: Option<u128>,
)
    requires
        p.total_stake_shares == 0,
        staking::deposit_result(p, record, amount, locked, now, min_shares_out) is Ok,
    ensures
        ({
            let c = staking::deposit_result(p, record, amount, locked, now, min_shares_out)->Ok_0;
            &&& c.shares == amount - c.fee
            &&& c.pool.total_staked_balance == p.total_staked_balance + c.shares
            &&& c.pool.total_stake_shares == c.shares
            &&& c.pool.last_locked_balance == locked
        }),
{
}

/// A withdrawal whose transfer fails is undone exactly: the callback puts
/// back the record as it was before the withdrawal.  Where the transfer
/// succeeds, the callback stores nothing.
pub proof fn lemma_failed_withdrawal_restores(d: Delegator, epoch: u64)
    requires
        staking::withdraw_result(Some(d), epoch) is Ok,
    ensures
        ({
            let w = staking::withdraw_result(Some(d), epoch)->Ok_0;
            &&& staking::withdraw_callback_result(Some(w.delegator), w.amount, w.saved_epoch, false)
                == Ok::<Option<Delegator>, PoolError>(Some(d))
            &&& staking::withdraw_callback_result(Some(w.delegator), w.amount, w.saved_epoch, true)
                == Ok::<Option<Delegator>, PoolError>(None)
        }),
{
}

/// A fee decrease (neither fee rises) proposed by the owner takes effect at
/// once and drops any pending increase.
pub proof fn lemma_fee_decrease_is_immediate(p: StakingPool, deposit_fee_bps: u16, claim_fee_bps: u16, now: u64)
    requires
        p.wf(),
        deposit_fee_bps <= p.deposit_fee_bps,
        claim_fee_bps <= p.claim_fee_bps,
    ensures
        admin::propose_fee_result(p, true, deposit_fee_bps, claim_fee_bps, now) == Ok::<StakingPool, PoolError>(
            StakingPool { deposit_fee_bps, claim_fee_bps, pending_fee_update: None, ..p },
        ),
{
}

/// A fee increase proposed by the owner at `now` leaves the fees in force
/// unchanged; executing it before `now + FEE_TIMELOCK_NS` is refused, and
/// from then on it puts the proposed fees in force.
pub proof fn lemma_fee_increase_waits_for_timelock(
    p: StakingPool,
    deposit_fee_bps: u16,
    claim_fee_bps: u16,
    now: u64,
    later: u64,
)
    requires
        deposit_fee_bps <= MAX_DEPOSIT_FEE_BPS,
        claim_fee_bps <= MAX_CLAIM_FEE_BPS,
        deposit_fee_bps > p.deposit_fee_bps || claim_fee_bps > p.claim_fee_bps,
        now + FEE_TIMELOCK_NS <= u64::MAX,
    ensures
        ({
            let proposed = admin::propose_fee_result(p, true, deposit_fee_bps, claim_fee_bps, now);
            &&& proposed matches Ok(q) && q.deposit_fee_bps == p.deposit_fee_bps && q.claim_fee_bps
                == p.claim_fee_bps
            &&& later < now + FEE_TIMELOCK_NS ==> admin::execute_fee_result(proposed->Ok_0, later)
                == Err::<StakingPool, PoolError>(PoolError::TimelockNotExpired)
            &&& later >= now + FEE_TIMELOCK_NS ==> (admin::execute_fee_result(proposed->Ok_0, later) matches Ok(
                r,
            ) && r.deposit_fee_bps == deposit_fee_bps && r.claim_fee_bps == claim_fee_bps
                && r.pending_fee_update is None)
        }),
{
}

/// After a compound the caller has no rewards left: its principal equals
/// what its shares are worth.
pub proof fn lemma_compound_clears_rewards(p: StakingPool, record: Option<Delegator>, locked: u128, now: u64)
    requires
        rewards::compound_result(p, record, locked, now) is Ok,
    ensures
        ({
            let c = rewards::compound_result(p, record, locked, now)->Ok_0;
            &&& rewards::rewards_of(c.pool, c.delegator) == 0
            &&& c.delegator.principal == c.pool.value_of(c.delegator.stake_shares as int)
        }),
{
}

/// After `sync_principal` the record's principal is at most what its shares
/// are worth.
pub proof fn lemma_sync_principal_within_stake(p: StakingPool, d: Delegator)
    ensures
        ({
            let after = match rewards::sync_principal_result(p, Some(d)) {
                Ok(Some(d2)) => d2,
                _ => d,
            };
            after.principal <= p.value_of(after.stake_shares as int)
        }),
{
}

/// Unstaking moves `amount` from stake to the unstaked balance: the
/// caller's unstaked balance grows by `amount` and the pool's total falls by
/// it (the pool having first looked at the locked balance).
pub proof fn lemma_unstake_moves_amount(
    p: StakingPool,
    record: Option<Delegator>,
    amount: u128,
    locked: u128,
    now: u64,
    epoch: u64,
)
    requires
        staking::unstake_result(p, record, amount, locked, now, epoch) is Ok,
    ensures
        ({
            let c = staking::unstake_result(p, record, amount, locked, now, epoch)->Ok_0;
            let before = p.pinged(locked);
            &&& c.delegator.unstaked_balance == types::record_or_empty(record).unstaked_balance + amount
            &&& before.total_staked_balance >= amount ==> c.pool.total_staked_balance
                == before.total_staked_balance - amount
        }),
{
}

/// A claim splits the rewards exactly into what is paid out to the
/// claimant and the fee; where the claim fee is within its cap the fee is at
/// most 10% of the rewards; the claimant's unstaked balance is untouched; the
/// fee stays in the pool, whose total falls only by what is paid out.
pub proof fn lemma_claim_splits_rewards(
    p: StakingPool,
    caller_is_owner: bool,
    d: Delegator,
    owner_record: Option<Delegator>,
    locked: u128,
    now: u64,
)
    requires
        p.wf(),
        rewards::claim_result(p, caller_is_owner, Some(d), owner_record, locked, now) is Ok,
    ensures
        ({
            let q = p.pinged(locked);
            let rewards = rewards::rewards_of(q, d);
            let fee = pool::fee_on(rewards, p.claim_fee_bps as int);
            let c = rewards::claim_result(p, caller_is_owner, Some(d), owner_record, locked, now)->Ok_0;
            &&& c.payout + fee == rewards
            &&& fee * (BPS_DENOMINATOR as int) <= rewards * (MAX_CLAIM_FEE_BPS as int)
            &&& c.delegator.unstaked_balance == d.unstaked_balance
            &&& fee > 0 ==> c.pool.total_staked_balance == pool::sat_sub(
                q.total_staked_balance as int,
                c.payout as int,
            )
        }),
{
    let q = p.pinged(locked);
    let rewards = rewards::rewards_of(q, d);
    assert(0 < rewards <= u128::MAX);
    lemma_fee_within_cap(rewards as u128, p.claim_fee_bps, MAX_CLAIM_FEE_BPS);
    let fee = pool::fee_on(rewards, p.claim_fee_bps as int);
    lemma_fundamental_div_mod(rewards * (MAX_CLAIM_FEE_BPS as int), BPS_DENOMINATOR as int);
    lemma_mod_pos_bound(rewards * (MAX_CLAIM_FEE_BPS as int), BPS_DENOMINATOR as int);
    assert(fee * 10000 <= rewards * 1000) by (nonlinear_arith)
        requires
            fee <= (rewards * 1000) / 10000,
            rewards * 1000 == 10000 * ((rewards * 1000) / 10000) + (rewards * 1000) % 10000,
            (rewards * 1000) % 10000 >= 0,
    ;
}


/// `k * d <= y` gives `k <= y / d`.
proof fn lemma_le_quotient(k: int, y: int, d: int)
    requires
        d > 0,
        y >= 0,
        k * d <= y,
    ensures
        k <= y / d,
{
    lemma_fundamental_div_mod(y, d);
    lemma_mod_pos_bound(y, d);
    let q = y / d;
    assert(k <= q) by (nonlinear_arith)
        requires
            d > 0,
            k * d <= y,
            y == d * q + y % d,
            y % d < d,
    ;
}

/// Rounding down the parts never gives more than rounding down the whole.
proof fn lemma_quotient_superadditive(x: int, y: int, c: int)
    requires
        c > 0,
        x >= 0,
        y >= 0,
    ensures
        x / c + y / c <= (x + y) / c,
{
    lemma_fundamental_div_mod(x, c);
    lemma_mod_pos_bound(x, c);
    lemma_fundamental_div_mod(y, c);
    lemma_mod_pos_bound(y, c);
    assert((x / c + y / c) * c <= x + y) by (nonlinear_arith)
        requires
            x == c * (x / c) + x % c,
            y == c * (y / c) + y % c,
            x % c >= 0,
            y % c >= 0,
    ;
    lemma_le_quotient(x / c + y / c, x + y, c);
}

/// A price `t / s` no higher than `t2 / s2` values `a` shares no higher.
proof fn lemma_value_monotone_in_price(a: int, t: int, s: int, t2: int, s2: int)
    requires
        a >= 0,
        t >= 0,
        s > 0,
        s2 > 0,
        t * s2 <= t2 * s,
    ensures
        a * t / s <= a * t2 / s2,
{
    let x = a * t;
    lemma_fundamental_div_mod(x, s);
    lemma_mod_pos_bound(x, s);
    let k = x / s;
    assert(k * s2 <= a * t2) by (nonlinear_arith)
        requires
            x == s * k + x % s,
            x % s >= 0,
            x == a * t,
            a >= 0,
            s > 0,
            s2 > 0,
            t * s2 <= t2 * s,
    ;
    lemma_le_quotient(k, a * t2, s2);
}

/// A deposit keeps the depositor's principal within what its shares are
/// worth: if the principal was within the worth of the depositor's shares
/// just before the shares were minted, it still is afterwards.
pub proof fn lemma_deposit_keeps_principal_within_stake(
    p: StakingPool,
    record: Option<Delegator>,
    amount: u128,
    locked: u128,
    now: u64,
    min_shares_out: Option<u128>,
)
    requires
        staking::deposit_result(p, record, amount, locked, now, min_shares_out) is Ok,
        types::record_or_empty(record).principal <= staking::minting_pool(p, locked).value_of(
            types::record_or_empty(record).stake_shares as int,
        ),
    ensures
        ({
            let c = staking::deposit_result(p, record, amount, locked, now, min_shares_out)->Ok_0;
            c.delegator.principal <= c.pool.value_of(c.delegator.stake_shares as int)
        }),
{
    let c = staking::deposit_result(p, record, amount, locked, now, min_shares_out)->Ok_0;
    let q = staking::minting_pool(p, locked);
    let d = types::record_or_empty(record);
    let t = q.total_staked_balance as int;
    let s = q.total_stake_shares as int;
    let m = c.shares as int;
    let net = amount - c.fee;
    let t2 = c.pool.total_staked_balance as int;
    let s2 = c.pool.total_stake_shares as int;
    let a = d.stake_shares as int;
    assert(t2 == t + net && s2 == s + m && m > 0);
    // The price does not fall through the deposit.
    if s > 0 && t > 0 {
        muldiv::lemma_muldiv_at_most_quotient(net as u128, s as u128, t as u128);
        lemma_fundamental_div_mod(net * s, t);
        lemma_mod_pos_bound(net * s, t);
        assert(t * m <= net * s) by (nonlinear_arith)
            requires
                m <= (net * s) / t,
                net * s == t * ((net * s) / t) + (net * s) % t,
                (net * s) % t >= 0,
                t > 0,
        ;
    }
    assert(a * t2 >= 0 && m * t2 >= 0) by (nonlinear_arith)
        requires
            a >= 0,
            m >= 0,
            t2 >= 0,
    ;
    // What the depositor held before is worth no more than at the new price.
    if s > 0 {
        muldiv::lemma_muldiv_at_most_quotient(a as u128, t as u128, s as u128);
        if t > 0 {
            assert(t * s2 <= t2 * s) by (nonlinear_arith)
                requires
                    t * m <= net * s,
                    s2 == s + m,
                    t2 == t + net,
            ;
        } else {
            assert(t * s2 <= t2 * s) by (nonlinear_arith)
                requires
                    t == 0,
                    t2 >= 0,
                    s > 0,
            ;
        }
        lemma_value_monotone_in_price(a, t, s, t2, s2);
    }
    assert(d.principal <= a * t2 / s2) by {
        lemma_div_pos_is_pos(a * t2, s2);
    }
    // The credited principal is worth no more than the minted shares.
    muldiv::lemma_muldiv_at_most_quotient(c.shares, c.pool.total_staked_balance, c.pool.total_stake_shares);
    lemma_quotient_superadditive(a * t2, m * t2, s2);
    assert(a * t2 + m * t2 == (a + m) * t2) by (nonlinear_arith);
}


/// Shares that `amount` is worth never exceed the shares whose worth covers
/// `amount`.
proof fn lemma_shares_worth_within(t: int, s: int, shares: int, amount: int)
    requires
        t > 0,
        s > 0,
        shares >= 0,
        0 <= amount <= pool::value_of_shares(t, s, shares),
    ensures
        pool::shares_of_amount(t, s, amount) <= amount * s / t,
        amount * s / t <= shares,
{
    let v = shares * t;
    lemma_fundamental_div_mod(v, s);
    lemma_mod_pos_bound(v, s);
    assert(v >= 0) by (nonlinear_arith)
        requires
            shares >= 0,
            t > 0,
            v == shares * t,
    ;
    assert(amount * s <= shares * t) by (nonlinear_arith)
        requires
            amount <= v / s,
            v == s * (v / s) + v % s,
            v % s >= 0,
            v == shares * t,
            s > 0,
            amount >= 0,
    ;
    lemma_fundamental_div_mod(amount * s, t);
    lemma_mod_pos_bound(amount * s, t);
    assert((amount * s / t) * t <= shares * t) by (nonlinear_arith)
        requires
            amount * s == t * (amount * s / t) + (amount * s) % t,
            (amount * s) % t >= 0,
            amount * s <= shares * t,
    ;
    assert(amount * s / t <= shares) by (nonlinear_arith)
        requires
            (amount * s / t) * t <= shares * t,
            t > 0,
    ;
}

/// A deposit adds to the pool's share total exactly the shares it adds to
/// the depositor's record, so the records' shares keep summing to the
/// pool's share total.
pub proof fn lemma_deposit_conserves_shares(
    p: StakingPool,
    record: Option<Delegator>,
    amount: u128,
    locked: u128,
    now: u64,
    min_shares_out: Option<u128>,
)
    requires
        staking::deposit_result(p, record, amount, locked, now, min_shares_out) is Ok,
    ensures
        ({
            let c = staking::deposit_result(p, record, amount, locked, now, min_shares_out)->Ok_0;
            let d = types::record_or_empty(record);
            &&& c.pool.total_stake_shares - p.total_stake_shares == c.delegator.stake_shares - d.stake_shares
            &&& c.delegator.stake_shares - d.stake_shares == c.shares
        }),
{
}

/// An unstake burns from the pool's share total exactly the shares it takes
/// from the caller's record, and never more shares than the record holds,
/// so the records' shares keep summing to the pool's share total.
pub proof fn lemma_unstake_conserves_shares(
    p: StakingPool,
    d: Delegator,
    amount: u128,
    locked: u128,
    now: u64,
    epoch: u64,
)
    requires
        staking::unstake_result(p, Some(d), amount, locked, now, epoch) is Ok,
        d.stake_shares <= p.total_stake_shares,
    ensures
        ({
            let c = staking::unstake_result(p, Some(d), amount, locked, now, epoch)->Ok_0;
            &&& c.delegator.stake_shares <= d.stake_shares
            &&& p.total_stake_shares - c.pool.total_stake_shares == d.stake_shares - c.delegator.stake_shares
        }),
{
    let q = p.pinged(locked);
    let t = q.total_staked_balance as int;
    let s = q.total_stake_shares as int;
    if t > 0 && s > 0 {
        lemma_shares_worth_within(t, s, d.stake_shares as int, amount as int);
    } else if s == 0 {
        assert(q.value_of(d.stake_shares as int) == 0);
    } else {
        assert(q.value_of(d.stake_shares as int) == 0) by {
            lemma_div_basics(s);
            assert((d.stake_shares as int) * 0 == 0) by (nonlinear_arith);
        }
    }
}

/// A claim changes the claimant's and the owner's shares together by
/// exactly what it changes the pool's share total: the rewards' shares are
/// burned (never more than the claimant holds) and the fee shares are
/// minted for the owner.  Stated where the share total after the claim does
/// not reach the `u128::MAX` cap.
pub proof fn lemma_claim_conserves_shares(
    p: StakingPool,
    caller_is_owner: bool,
    d: Delegator,
    owner_record: Option<Delegator>,
    locked: u128,
    now: u64,
)
    requires
        rewards::claim_result(p, caller_is_owner, Some(d), owner_record, locked, now) is Ok,
        d.stake_shares <= p.total_stake_shares,
        ({
            let q = p.pinged(locked);
            let rewards = rewards::rewards_of(q, d);
            let fee = pool::fee_on(rewards, p.claim_fee_bps as int);
            let burn = q.shares_worth(rewards);
            let minted = if fee > 0 {
                pool::fee_shares_value(
                    q.total_staked_balance as int,
                    q.total_stake_shares as int,
                    fee,
                    rewards - fee,
                    burn,
                )
            } else {
                0
            };
            q.total_stake_shares - burn + minted <= u128::MAX
        }),
    ensures
        ({
            let c = rewards::claim_result(p, caller_is_owner, Some(d), owner_record, locked, now)->Ok_0;
            let owner_before = types::record_or_empty(owner_record).stake_shares as int;
            let owner_after = match c.owner_record {
                Some(o) => o.stake_shares as int,
                None => owner_before,
            };
            let change = c.pool.total_stake_shares - p.total_stake_shares;
            &&& caller_is_owner ==> c.delegator.stake_shares - d.stake_shares == change
            &&& !caller_is_owner ==> (c.delegator.stake_shares - d.stake_shares) + (owner_after - owner_before)
                == change
        }),
{
    let q = p.pinged(locked);
    let t = q.total_staked_balance as int;
    let s = q.total_stake_shares as int;
    let rewards = rewards::rewards_of(q, d);
    if t > 0 && s > 0 {
        lemma_shares_worth_within(t, s, d.stake_shares as int, rewards);
    } else if s == 0 {
        assert(q.value_of(d.stake_shares as int) == 0);
    } else {
        assert(q.value_of(d.stake_shares as int) == 0) by {
            lemma_div_basics(s);
            assert((d.stake_shares as int) * 0 == 0) by (nonlinear_arith);
        }
    }
}

/// `unstake_all` leaves at most a dust of shares behind: where the pool's
/// look at the locked balance changes nothing and the record is part of the
/// pool, the remaining shares `r` satisfy `r * T < S + T` for the pool's
/// total `T` over `S` shares, so they are worth less than one unit more
/// than the price of one share; at a price below `MIN_STAKE` (one FLC) per
/// share they are worth less than one FLC.
pub proof fn lemma_unstake_all_leaves_dust(
    p: StakingPool,
    d: Delegator,
    locked: u128,
    now: u64,
    epoch: u64,
)
    requires
        staking::unstake_all_result(p, Some(d), locked, now, epoch) is Ok,
        p.pinged(locked).total_staked_balance == p.total_staked_balance,
        d.stake_shares <= p.total_stake_shares,
    ensures
        ({
            let c = staking::unstake_all_result(p, Some(d), locked, now, epoch)->Ok_0;
            let r = c.delegator.stake_shares as int;
            &&& r * p.total_staked_balance < p.total_stake_shares + p.total_staked_balance
            &&& p.total_staked_balance <= (MIN_STAKE - 1) * p.total_stake_shares ==> p.value_of(r) < MIN_STAKE
        }),
{
    let t = p.total_staked_balance as int;
    let s = p.total_stake_shares as int;
    let x = d.stake_shares as int;
    let amount = p.value_of(x);
    let c = staking::unstake_all_result(p, Some(d), locked, now, epoch)->Ok_0;
    let r = c.delegator.stake_shares as int;
    // A record worth something lies in a pool with shares and a balance.
    if s == 0 {
        assert(false);
    }
    if t == 0 {
        assert(amount == 0) by {
            assert(x * 0 == 0) by (nonlinear_arith);
            lemma_div_basics(s);
        }
    }
    lemma_fundamental_div_mod(x * t, s);
    lemma_mod_pos_bound(x * t, s);
    assert(x * t / s <= t) by {
        assert(x * t <= s * t) by (nonlinear_arith)
            requires
                x <= s,
                t >= 0,
        ;
        lemma_div_is_ordered(x * t, s * t, s);
        lemma_div_by_multiple(t, s);
        assert(s * t == t * s) by (nonlinear_arith);
    }
    assert(amount == x * t / s);
    lemma_shares_worth_within(t, s, x, amount);
    let burn = amount * s / t;
    assert(p.pinged(locked).shares_worth(amount) == burn);
    lemma_fundamental_div_mod(amount * s, t);
    lemma_mod_pos_bound(amount * s, t);
    assert(r == x - burn);
    assert(r * t < s + t) by (nonlinear_arith)
        requires
            x * t == s * amount + (x * t) % s,
            (x * t) % s < s,
            amount * s == t * burn + (amount * s) % t,
            (amount * s) % t < t,
            r == x - burn,
    ;
    if t <= (MIN_STAKE - 1) * s {
        lemma_fundamental_div_mod(r * t, s);
        lemma_mod_pos_bound(r * t, s);
        assert(r >= 0);
        assert(r * t >= 0) by (nonlinear_arith)
            requires
                r >= 0,
                t >= 0,
        ;
        assert((r * t) / s < MIN_STAKE) by (nonlinear_arith)
            requires
                r * t < s + t,
                t <= (MIN_STAKE - 1) * s,
                r * t == s * ((r * t) / s) + (r * t) % s,
                (r * t) % s >= 0,
                s > 0,
        ;
    }
}


/// Where `k <= s`, what `k` shares are worth is the plain rounded-down
/// quotient, at most the whole balance.
proof fn lemma_value_uncapped(t: int, s: int, k: int)
    requires
        s > 0,
        0 <= k <= s,
        0 <= t <= u128::MAX,
    ensures
        k * t / s <= t,
        k * t / s >= 0,
        pool::value_of_shares(t, s, k) == k * t / s,
{
    assert(k * t <= s * t && k * t >= 0) by (nonlinear_arith)
        requires
            0 <= k <= s,
            t >= 0,
    ;
    lemma_div_is_ordered(k * t, s * t, s);
    lemma_div_by_multiple(t, s);
    assert(s * t == t * s) by (nonlinear_arith);
    lemma_div_pos_is_pos(k * t, s);
}

/// Taking `a` of value and `b <= a * s / t` shares out of a pool of `t` over
/// `s` leaves the rest of a record of `x` shares with principal `pr` (within
/// their worth) worth at least `pr - a`.
proof fn lemma_within_after_removal(t: int, s: int, x: int, pr: int, a: int, b: int)
    requires
        t > 0,
        t <= u128::MAX,
        s > 0,
        0 <= b <= x <= s,
        0 <= a <= t,
        a <= pr <= u128::MAX,
        pr * s <= x * t,
        b * t <= a * s,
    ensures
        (pr - a) * (s - b) <= (x - b) * (t - a),
        pr - a <= pool::value_of_shares(t - a, s - b, x - b),
{
    assert(s * ((pr - a) * (s - b)) <= (x * t - a * s) * (s - b)) by (nonlinear_arith)
        requires
            pr * s <= x * t,
            s - b >= 0,
    ;
    let xt = x * t;
    let as_ = a * s;
    let bt = b * t;
    assert((x - b) * (t - a) == xt - x * a - bt + b * a) by (nonlinear_arith)
        requires
            xt == x * t,
            bt == b * t,
    ;
    assert(s * ((x - b) * (t - a)) == s * xt - s * (x * a) - s * bt + s * (b * a)) by (nonlinear_arith)
        requires
            (x - b) * (t - a) == xt - x * a - bt + b * a,
    ;
    assert((xt - as_) * (s - b) == s * xt - b * xt - s * as_ + b * as_) by (nonlinear_arith);
    assert((s - x) * (as_ - bt) == s * as_ - s * bt - x * as_ + x * bt) by (nonlinear_arith);
    assert(b * xt == x * bt) by (nonlinear_arith)
        requires
            xt == x * t,
            bt == b * t,
    ;
    assert(x * as_ == s * (x * a)) by (nonlinear_arith)
        requires
            as_ == a * s,
    ;
    assert(b * as_ == s * (b * a)) by (nonlinear_arith)
        requires
            as_ == a * s,
    ;
    assert(s * ((x - b) * (t - a)) == (x * t - a * s) * (s - b) + (s - x) * (a * s - b * t));
    assert((s - x) * (a * s - b * t) >= 0) by (nonlinear_arith)
        requires
            s - x >= 0,
            a * s - b * t >= 0,
    ;
    assert((pr - a) * (s - b) <= (x - b) * (t - a)) by (nonlinear_arith)
        requires
            s * ((pr - a) * (s - b)) <= s * ((x - b) * (t - a)),
            s > 0,
    ;
    if s - b == 0 {
        // Every share leaves: then so does the whole balance, and with it
        // the whole principal.
        assert(pr <= t) by (nonlinear_arith)
            requires
                pr * s <= x * t,
                x <= s,
                s > 0,
                t >= 0,
        ;
        assert(a >= t) by (nonlinear_arith)
            requires
                b == s,
                b * t <= a * s,
                s > 0,
        ;
    } else {
        lemma_value_uncapped(t - a, s - b, x - b);
        assert((x - b) * (t - a) >= 0) by (nonlinear_arith)
            requires
                x - b >= 0,
                t - a >= 0,
        ;
        if pr - a > 0 {
            lemma_le_quotient(pr - a, (x - b) * (t - a), s - b);
        }
    }
}

/// `pr` within the worth of `x` shares in a pool of `t` over `s` means
/// `pr * s <= x * t`.
proof fn lemma_principal_ratio(t: int, s: int, x: int, pr: int)
    requires
        s > 0,
        0 <= x <= s,
        0 <= t <= u128::MAX,
        0 <= pr <= pool::value_of_shares(t, s, x),
    ensures
        pr * s <= x * t,
{
    lemma_value_uncapped(t, s, x);
    lemma_fundamental_div_mod(x * t, s);
    lemma_mod_pos_bound(x * t, s);
    assert(pr * s <= x * t) by (nonlinear_arith)
        requires
            pr <= x * t / s,
            x * t == s * (x * t / s) + (x * t) % s,
            (x * t) % s >= 0,
            s > 0,
    ;
}

/// Rounding `a * s / t` down gives `(a * s / t) * t <= a * s`.
proof fn lemma_floor_times(a: int, s: int, t: int)
    requires
        t > 0,
        a >= 0,
        s >= 0,
    ensures
        (a * s / t) * t <= a * s,
{
    lemma_fundamental_div_mod(a * s, t);
    lemma_mod_pos_bound(a * s, t);
}

/// An unstake keeps the caller's principal within what its remaining shares
/// are worth: if the principal was within the worth of its shares once the
/// pool looked at the locked balance, it still is after the unstake.
pub proof fn lemma_unstake_keeps_principal_within_stake(
    p: StakingPool,
    d: Delegator,
    amount: u128,
    locked: u128,
    now: u64,
    epoch: u64,
)
    requires
        staking::unstake_result(p, Some(d), amount, locked, now, epoch) is Ok,
        d.stake_shares <= p.total_stake_shares,
        d.principal <= p.pinged(locked).value_of(d.stake_shares as int),
    ensures
        ({
            let c = staking::unstake_result(p, Some(d), amount, locked, now, epoch)->Ok_0;
            c.delegator.principal <= c.pool.value_of(c.delegator.stake_shares as int)
        }),
{
    let c = staking::unstake_result(p, Some(d), amount, locked, now, epoch)->Ok_0;
    let q = p.pinged(locked);
    let t = q.total_staked_balance as int;
    let s = q.total_stake_shares as int;
    let x = d.stake_shares as int;
    let pr = d.principal as int;
    let a = amount as int;
    lemma_unstake_conserves_shares(p, d, amount, locked, now, epoch);
    if s == 0 {
        assert(false);
    }
    lemma_value_uncapped(t, s, x);
    if t == 0 {
        assert(x * 0 == 0) by (nonlinear_arith);
        lemma_div_basics(s);
        assert(false);
    }
    lemma_shares_worth_within(t, s, x, a);
    let b = a * s / t;
    lemma_floor_times(a, s, t);
    lemma_principal_ratio(t, s, x, pr);
    assert(c.pool.total_staked_balance == t - a);
    assert(c.pool.total_stake_shares == s - b);
    assert(c.delegator.stake_shares == x - b);
    if pr >= a {
        lemma_within_after_removal(t, s, x, pr, a, b);
    } else {
        assert(c.delegator.principal == 0);
        if s - b > 0 {
            lemma_value_uncapped(t - a, s - b, x - b);
        }
    }
}

/// `unstake_all` keeps the caller's principal within what its remaining
/// shares are worth, as `unstake` does.
pub proof fn lemma_unstake_all_keeps_principal_within_stake(
    p: StakingPool,
    d: Delegator,
    locked: u128,
    now: u64,
    epoch: u64,
)
    requires
        staking::unstake_all_result(p, Some(d), locked, now, epoch) is Ok,
        d.stake_shares <= p.total_stake_shares,
        d.principal <= p.pinged(locked).value_of(d.stake_shares as int),
    ensures
        ({
            let c = staking::unstake_all_result(p, Some(d), locked, now, epoch)->Ok_0;
            c.delegator.principal <= c.pool.value_of(c.delegator.stake_shares as int)
        }),
{
    let amount = p.value_of(d.stake_shares as int) as u128;
    lemma_unstake_keeps_principal_within_stake(p, d, amount, locked, now, epoch);
}

/// A claim keeps principal within what shares are worth.  The claimant's
/// remaining shares stay worth at least its principal.  The owner's
/// principal grows by exactly what its fee shares are worth once the pool's
/// totals are updated, which never exceeds what those shares add to the
/// worth of the owner's record; so an owner whose principal was within the
/// worth of its shares at the updated totals stays within it.
pub proof fn lemma_claim_keeps_principal_within_stake(
    p: StakingPool,
    caller_is_owner: bool,
    d: Delegator,
    owner_record: Option<Delegator>,
    locked: u128,
    now: u64,
)
    requires
        rewards::claim_result(p, caller_is_owner, Some(d), owner_record, locked, now) is Ok,
        d.stake_shares <= p.total_stake_shares,
        !caller_is_owner ==> d.stake_shares + types::record_or_empty(owner_record).stake_shares
            <= p.total_stake_shares,
    ensures
        ({
            let c = rewards::claim_result(p, caller_is_owner, Some(d), owner_record, locked, now)->Ok_0;
            let od = types::record_or_empty(owner_record);
            &&& c.delegator.principal <= c.pool.value_of(c.delegator.stake_shares as int)
            &&& c.owner_record matches Some(o) ==> {
                &&& o.principal - od.principal == c.pool.value_of(o.stake_shares - od.stake_shares)
                &&& c.pool.value_of(o.stake_shares as int) - o.principal >= c.pool.value_of(
                    od.stake_shares as int,
                ) - od.principal
                &&& od.principal <= c.pool.value_of(od.stake_shares as int) ==> o.principal
                    <= c.pool.value_of(o.stake_shares as int)
            }
        }),
{
    let c = rewards::claim_result(p, caller_is_owner, Some(d), owner_record, locked, now)->Ok_0;
    let q = p.pinged(locked);
    let t = q.total_staked_balance as int;
    let s = q.total_stake_shares as int;
    let x = d.stake_shares as int;
    let pr = d.principal as int;
    let r = rewards::rewards_of(q, d);
    let fee = pool::fee_on(r, p.claim_fee_bps as int);
    let net = r - fee;
    if s == 0 {
        assert(false);
    }
    lemma_value_uncapped(t, s, x);
    if t == 0 {
        assert(x * 0 == 0) by (nonlinear_arith);
        lemma_div_basics(s);
        assert(false);
    }
    let v = x * t / s;
    assert(pr + r == v);
    lemma_shares_worth_within(t, s, x, r);
    let b = r * s / t;
    lemma_floor_times(r, s, t);
    lemma_principal_ratio(t, s, x, v);
    lemma_within_after_removal(t, s, x, v, r, b);
    assert(pr == v - r);
    let d2_shares = x - b;
    if fee == 0 {
        assert(c.pool.total_staked_balance == t - r);
        assert(c.pool.total_stake_shares == s - b);
        assert(c.delegator.stake_shares == d2_shares);
    } else {
        assert(0 < fee <= r);
        let ps = t - net;
        let ph = s - b;
        let fs = pool::fee_shares_value(t, s, fee, net, b);
        let s2 = pool::sat_add(ph, fs);
        assert(c.pool.total_staked_balance == ps);
        assert(c.pool.total_stake_shares == s2);
        assert(ps > 0 && ps <= t);
        assert(fs >= 0) by {
            if ph > 0 {
                assert(fee * ph >= 0) by (nonlinear_arith)
                    requires
                        fee >= 0,
                        ph >= 0,
                ;
                lemma_div_pos_is_pos(fee * ph, ps);
            }
        }
        assert(ph <= s2 <= ph + fs);
        let od = if caller_is_owner {
            Delegator { stake_shares: d2_shares as u128, unlock_timestamp_ns: c.delegator.unlock_timestamp_ns, ..d }
        } else {
            types::record_or_empty(owner_record)
        };
        let cred = pool::value_of_shares(ps, s2, fs);
        // The claimant's remaining shares stay worth its principal.
        if ph == 0 {
            assert(d2_shares == 0);
            assert(pr == 0) by {
                assert(pool::value_of_shares(t - r, 0, 0) == 0);
            }
        } else {
            lemma_fundamental_div_mod(fee * ph, ps);
            lemma_mod_pos_bound(fee * ph, ps);
            assert(fs * ps <= fee * ph) by (nonlinear_arith)
                requires
                    fs <= fee * ph / ps,
                    fee * ph == ps * (fee * ph / ps) + (fee * ph) % ps,
                    (fee * ph) % ps >= 0,
                    ps > 0,
            ;
            assert(pr * s2 <= d2_shares * ps) by (nonlinear_arith)
                requires
                    pr * ph <= d2_shares * (t - r),
                    fs * ps <= fee * ph,
                    s2 <= ph + fs,
                    pr >= 0,
                    fs >= 0,
                    fee >= 0,
                    d2_shares >= 0,
                    ps == t - r + fee,
                    t - r >= 0,
                    ps > 0,
            ;
            lemma_value_uncapped(ps, s2, d2_shares);
            assert(d2_shares * ps >= 0) by (nonlinear_arith)
                requires
                    d2_shares >= 0,
                    ps >= 0,
            ;
            if pr > 0 {
                lemma_le_quotient(pr, d2_shares * ps, s2);
            }
        }
        assert(pr <= pool::value_of_shares(ps, s2, d2_shares));
        // The owner's record: its shares lie within the new share total, so
        // worths add up at the new totals.
        let k = od.stake_shares as int;
        assert(k <= ph) by {
            if caller_is_owner {
                assert(k == d2_shares);
            }
        }
        if c.owner_record is Some || caller_is_owner {
            assert(k + fs <= s2);
            assert(s2 > 0);
            lemma_value_uncapped(ps, s2, k + fs);
            lemma_value_uncapped(ps, s2, k);
            lemma_value_uncapped(ps, s2, fs);
            assert(k * ps >= 0 && fs * ps >= 0) by (nonlinear_arith)
                requires
                    k >= 0,
                    fs >= 0,
                    ps >= 0,
            ;
            lemma_quotient_superadditive(k * ps, fs * ps, s2);
            assert(k * ps + fs * ps == (k + fs) * ps) by (nonlinear_arith);
        }
    }
}


/// Looking at the same locked balance twice is the same as looking once: the
/// second look credits nothing, so no reward is counted twice.
pub proof fn lemma_ping_is_idempotent(p: StakingPool, locked: u128)
    requires
        !p.ping_overflows(locked),
    ensures
        !p.pinged(locked).ping_overflows(locked),
        p.pinged(locked).pinged(locked) == p.pinged(locked),
        p.pinged(locked).last_locked_balance == locked,
        p.pinged(locked).total_staked_balance == pool::pinged_total(
            p.total_staked_balance as int,
            p.last_locked_balance as int,
            locked as int,
        ),
{
    lemma_ping_attribution_bounded(p.total_staked_balance, p.last_locked_balance, locked);
}

/// Every operation that looks at the locked balance first gives the same
/// answer whether or not the pool already looked at that balance: a
/// deposit into a pool with shares, a compound, an unstake and a claim each
/// equal the same call on `p.pinged(locked)`.  So each credits a rise (or
/// takes a fall) of the locked balance since the last look exactly once.
pub proof fn lemma_operations_look_at_the_locked_balance_first(
    p: StakingPool,
    record: Option<Delegator>,
    owner_record: Option<Delegator>,
    caller_is_owner: bool,
    amount: u128,
    locked: u128,
    now: u64,
    epoch: u64,
    min_shares_out: Option<u128>,
)
    requires
        !p.ping_overflows(locked),
    ensures
        p.total_stake_shares > 0 ==> staking::deposit_result(p, record, amount, locked, now, min_shares_out)
            == staking::deposit_result(p.pinged(locked), record, amount, locked, now, min_shares_out),
        rewards::compound_result(p, record, locked, now) == rewards::compound_result(
            p.pinged(locked),
            record,
            locked,
            now,
        ),
        staking::unstake_result(p, record, amount, locked, now, epoch) == staking::unstake_result(
            p.pinged(locked),
            record,
            amount,
            locked,
            now,
            epoch,
        ),
        rewards::claim_result(p, caller_is_owner, record, owner_record, locked, now) == rewards::claim_result(
            p.pinged(locked),
            caller_is_owner,
            record,
            owner_record,
            locked,
            now,
        ),
{
    lemma_ping_is_idempotent(p, locked);
}

/// A deposit's fee is the pool's deposit fee on the amount, whatever the
/// claim fee: at most 0.1% of the amount in a well-formed pool, and the
/// same deposit into a pool that differs only in its claim fee takes the
/// same fee, mints the same shares and stores the same record.
pub proof fn lemma_deposit_fee_is_the_deposit_fee(
    p: StakingPool,
    record: Option<Delegator>,
    amount: u128,
    locked: u128,
    now: u64,
    min_shares_out: Option<u128>,
    claim_fee_bps: u16,
)
    requires
        staking::deposit_result(p, record, amount, locked, now, min_shares_out) is Ok,
    ensures
        ({
            let c = staking::deposit_result(p, record, amount, locked, now, min_shares_out)->Ok_0;
            let other = staking::deposit_result(
                StakingPool { claim_fee_bps, ..p },
                record,
                amount,
                locked,
                now,
                min_shares_out,
            );
            &&& c.fee == muldiv::muldiv_value(amount as int, p.deposit_fee_bps as int, BPS_DENOMINATOR as int)
            &&& p.wf() ==> c.fee * (BPS_DENOMINATOR as int) <= amount * (MAX_DEPOSIT_FEE_BPS as int)
            &&& other matches Ok(o) && o.fee == c.fee && o.shares == c.shares && o.delegator == c.delegator
                && o.pool.total_staked_balance == c.pool.total_staked_balance
                && o.pool.total_stake_shares == c.pool.total_stake_shares
        }),
{
    let c = staking::deposit_result(p, record, amount, locked, now, min_shares_out)->Ok_0;
    if p.wf() {
        lemma_fee_within_cap(amount, p.deposit_fee_bps, MAX_DEPOSIT_FEE_BPS);
        let fee = c.fee as int;
        lemma_fundamental_div_mod(amount * 10, 10000);
        lemma_mod_pos_bound(amount * 10, 10000);
        assert(fee * 10000 <= amount * 10) by (nonlinear_arith)
            requires
                fee <= (amount * 10) / 10000,
                amount * 10 == 10000 * ((amount * 10) / 10000) + (amount * 10) % 10000,
                (amount * 10) % 10000 >= 0,
        ;
    }
    let q = StakingPool { claim_fee_bps, ..p };
    assert(staking::deposit_base(q, locked) == StakingPool { claim_fee_bps, ..staking::deposit_base(p, locked) });
}

/// A deposit mints at the price of the pool after it looked at the locked
/// balance: with `t0` the total that look produces (from the current locked
/// balance on the first deposit into a pool without shares), the pool's
/// total becomes `t0` plus the net deposit, the share total grows by the
/// minted shares, the locked balance looked at is recorded, and the minted
/// shares are the net deposit's worth at the price `t0 / S`, rounded down.
pub proof fn lemma_deposit_mints_at_the_pinged_price(
    p: StakingPool,
    record: Option<Delegator>,
    amount: u128,
    locked: u128,
    now: u64,
    min_shares_out: Option<u128>,
)
    requires
        staking::deposit_result(p, record, amount, locked, now, min_shares_out) is Ok,
    ensures
        ({
            let c = staking::deposit_result(p, record, amount, locked, now, min_shares_out)->Ok_0;
            let s = p.total_stake_shares as int;
            let base_last = if s == 0 { locked as int } else { p.last_locked_balance as int };
            let t0 = pool::pinged_total(p.total_staked_balance as int, base_last, locked as int);
            let net = amount - c.fee;
            &&& c.pool.total_staked_balance == t0 + net
            &&& c.pool.total_stake_shares == s + c.shares
            &&& c.pool.last_locked_balance == locked
            &&& (s == 0 || t0 == 0) ==> c.shares == net
            &&& (s > 0 && t0 > 0) ==> c.shares * t0 <= net * s < (c.shares + 1) * t0
        }),
{
    let c = staking::deposit_result(p, record, amount, locked, now, min_shares_out)->Ok_0;
    let s = p.total_stake_shares as int;
    let base_last = if s == 0 { locked as int } else { p.last_locked_balance as int };
    let t0 = pool::pinged_total(p.total_staked_balance as int, base_last, locked as int);
    let net = amount - c.fee;
    lemma_ping_attribution_bounded(p.total_staked_balance, base_last as u128, locked);
    if s > 0 && t0 > 0 {
        assert(net >= 0);
        assert(net * s >= 0) by (nonlinear_arith)
            requires
                net >= 0,
                s >= 0,
        ;
        let f = net * s / t0;
        lemma_fundamental_div_mod(net * s, t0);
        lemma_mod_pos_bound(net * s, t0);
        assert(c.shares == f);
        assert(c.shares * t0 <= net * s < (c.shares + 1) * t0) by (nonlinear_arith)
            requires
                net * s == t0 * f + (net * s) % t0,
                0 <= (net * s) % t0 < t0,
                c.shares == f,
        ;
    }
}

/// A compound first looks at the locked balance: the pool it leaves is the
/// pool that look produces (a rise since the last look is credited to the
/// total), and the caller's principal becomes what its unchanged shares are
/// worth there.
pub proof fn lemma_compound_credits_the_rise(p: StakingPool, record: Option<Delegator>, locked: u128, now: u64)
    requires
        rewards::compound_result(p, record, locked, now) is Ok,
    ensures
        ({
            let c = rewards::compound_result(p, record, locked, now)->Ok_0;
            let d = types::record_or_empty(record);
            &&& c.pool == p.pinged(locked)
            &&& c.pool.total_staked_balance == pool::pinged_total(
                p.total_staked_balance as int,
                p.last_locked_balance as int,
                locked as int,
            )
            &&& c.pool.last_locked_balance == locked
            &&& c.delegator.stake_shares == d.stake_shares
            &&& c.delegator.principal == p.pinged(locked).value_of(d.stake_shares as int)
        }),
{
}

/// An unstake (and so `unstake_all`) records the locked balance it looked
/// at, and leaves the pool as that look produced it but for the two share
/// totals; the total falls by the amount from the pinged total.
pub proof fn lemma_unstake_records_the_locked_balance(
    p: StakingPool,
    record: Option<Delegator>,
    amount: u128,
    locked: u128,
    now: u64,
    epoch: u64,
)
    ensures
        staking::unstake_result(p, record, amount, locked, now, epoch) matches Ok(c) ==> {
            &&& c.pool.last_locked_balance == locked
            &&& c.pool == p.pinged(locked).with_totals(
                c.pool.total_staked_balance as int,
                c.pool.total_stake_shares as int,
            )
            &&& c.pool.total_staked_balance == pool::sat_sub(
                pool::pinged_total(p.total_staked_balance as int, p.last_locked_balance as int, locked as int),
                amount as int,
            )
        },
        staking::unstake_all_result(p, record, locked, now, epoch) matches Ok(c) ==> {
            &&& c.pool.last_locked_balance == locked
            &&& c.pool == p.pinged(locked).with_totals(
                c.pool.total_staked_balance as int,
                c.pool.total_stake_shares as int,
            )
        },
{
}

/// A claim records the locked balance it looked at, and leaves the pool as
/// that look produced it but for the two share totals.
pub proof fn lemma_claim_records_the_locked_balance(
    p: StakingPool,
    caller_is_owner: bool,
    record: Option<Delegator>,
    owner_record: Option<Delegator>,
    locked: u128,
    now: u64,
)
    ensures
        rewards::claim_result(p, caller_is_owner, record, owner_record, locked, now) matches Ok(c) ==> {
            &&& c.pool.last_locked_balance == locked
            &&& c.pool == p.pinged(locked).with_totals(
                c.pool.total_staked_balance as int,
                c.pool.total_stake_shares as int,
            )
        },
{
}


/// Rounding `num / den` down to `f` means `f * den <= num < (f + 1) * den`.
proof fn lemma_floor_bounds(num: int, den: int)
    requires
        den > 0,
        num >= 0,
    ensures
        (num / den) * den <= num < (num / den + 1) * den,
        num / den >= 0,
{
    lemma_fundamental_div_mod(num, den);
    lemma_mod_pos_bound(num, den);
    lemma_div_pos_is_pos(num, den);
    let q = num / den;
    assert(q * den <= num < (q + 1) * den) by (nonlinear_arith)
        requires
            num == den * q + num % den,
            0 <= num % den < den,
    ;
}

/// Looking at the locked balance credits the pool its share of a rise and
/// takes its share of a fall: with the pool's total `T` and the last locked
/// balance `l > 0`, a rise `g` credits `min(g, g * T / l)` rounded down and
/// a fall `f` takes `f * T / l` rounded down; an unchanged balance changes
/// nothing.
pub proof fn lemma_ping_credits_the_pools_share(p: StakingPool, locked: u128)
    requires
        !p.ping_overflows(locked),
        p.last_locked_balance > 0,
    ensures
        ({
            let t = p.total_staked_balance as int;
            let l = p.last_locked_balance as int;
            let n = p.pinged(locked).total_staked_balance as int;
            &&& locked > l ==> {
                let g = locked - l;
                let cr = n - t;
                &&& 0 <= cr <= g
                &&& cr * l <= g * t
                &&& cr == g || g * t < (cr + 1) * l
            }
            &&& locked < l ==> {
                let f = l - locked;
                let dr = t - n;
                &&& 0 <= dr <= t
                &&& dr * l <= f * t < (dr + 1) * l
            }
            &&& locked == l ==> n == t
        }),
{
    let t = p.total_staked_balance as int;
    let l = p.last_locked_balance as int;
    if locked > l {
        let g = locked - l;
        assert(g * t >= 0) by (nonlinear_arith)
            requires
                g >= 0,
                t >= 0,
        ;
        lemma_floor_bounds(g * t, l);
        let fl = g * t / l;
        let cr = p.pinged(locked).total_staked_balance as int - t;
        if fl >= g {
            assert(cr == g);
            assert(g * l <= g * t) by (nonlinear_arith)
                requires
                    g <= fl,
                    fl * l <= g * t,
                    l > 0,
                    g >= 0,
            ;
        } else {
            assert(fl <= u128::MAX);
            assert(cr == fl);
        }
    } else if locked < l {
        let f = l - locked;
        assert(f * t >= 0 && f * t <= l * t) by (nonlinear_arith)
            requires
                0 <= f <= l,
                t >= 0,
        ;
        lemma_floor_bounds(f * t, l);
        lemma_div_is_ordered(f * t, l * t, l);
        lemma_div_by_multiple(t, l);
        assert(l * t == t * l) by (nonlinear_arith);
    }
}

/// An unstake burns the shares its amount is worth, rounded down: with the
/// pinged pool's total `T` over `S` shares, the shares `b` taken from the
/// caller satisfy `b * T <= amount * S < (b + 1) * T`; the caller's unstaked
/// balance grows by the amount, which becomes withdrawable
/// `NUM_EPOCHS_TO_UNLOCK` epochs later, and the lockup restarts.
pub proof fn lemma_unstake_burns_the_amounts_worth(
    p: StakingPool,
    d: Delegator,
    amount: u128,
    locked: u128,
    now: u64,
    epoch: u64,
)
    requires
        staking::unstake_result(p, Some(d), amount, locked, now, epoch) is Ok,
        d.stake_shares <= p.total_stake_shares,
    ensures
        ({
            let c = staking::unstake_result(p, Some(d), amount, locked, now, epoch)->Ok_0;
            let t = p.pinged(locked).total_staked_balance as int;
            let s = p.total_stake_shares as int;
            let b = d.stake_shares - c.delegator.stake_shares;
            &&& t > 0 && s > 0
            &&& b * t <= amount * s < (b + 1) * t
            &&& c.delegator.unstaked_balance == d.unstaked_balance + amount
            &&& c.delegator.unstake_available_epoch == epoch + pool::NUM_EPOCHS_TO_UNLOCK
            &&& c.delegator.unlock_timestamp_ns == now + pool::LOCKUP_NS
        }),
{
    let q = p.pinged(locked);
    let t = q.total_staked_balance as int;
    let s = q.total_stake_shares as int;
    let x = d.stake_shares as int;
    lemma_unstake_conserves_shares(p, d, amount, locked, now, epoch);
    if s == 0 {
        assert(false);
    }
    lemma_value_uncapped(t, s, x);
    if t == 0 {
        assert(x * 0 == 0) by (nonlinear_arith);
        lemma_div_basics(s);
        assert(false);
    }
    lemma_shares_worth_within(t, s, x, amount as int);
    assert(amount * s >= 0) by (nonlinear_arith)
        requires
            amount >= 0,
            s >= 0,
    ;
    lemma_floor_bounds(amount * s, t);
}

/// A claim takes the pool's claim fee on the rewards and burns the shares
/// the rewards are worth, rounded down: with the pinged pool's total `T`
/// over `S` shares, the shares `b` taken from a claimant other than the
/// owner satisfy `b * T <= rewards * S < (b + 1) * T`.
pub proof fn lemma_claim_burns_the_rewards_worth(
    p: StakingPool,
    d: Delegator,
    owner_record: Option<Delegator>,
    locked: u128,
    now: u64,
)
    requires
        rewards::claim_result(p, false, Some(d), owner_record, locked, now) is Ok,
        d.stake_shares <= p.total_stake_shares,
    ensures
        ({
            let c = rewards::claim_result(p, false, Some(d), owner_record, locked, now)->Ok_0;
            let q = p.pinged(locked);
            let t = q.total_staked_balance as int;
            let s = p.total_stake_shares as int;
            let r = pool::sat_sub(q.value_of(d.stake_shares as int), d.principal as int);
            let b = d.stake_shares - c.delegator.stake_shares;
            &&& r > 0
            &&& c.payout == r - muldiv::muldiv_value(r, p.claim_fee_bps as int, BPS_DENOMINATOR as int)
            &&& t > 0 && s > 0
            &&& b * t <= r * s < (b + 1) * t
        }),
{
    let q = p.pinged(locked);
    let t = q.total_staked_balance as int;
    let s = q.total_stake_shares as int;
    let x = d.stake_shares as int;
    let r = rewards::rewards_of(q, d);
    if s == 0 {
        assert(false);
    }
    lemma_value_uncapped(t, s, x);
    if t == 0 {
        assert(x * 0 == 0) by (nonlinear_arith);
        lemma_div_basics(s);
        assert(false);
    }
    lemma_shares_worth_within(t, s, x, r);
    assert(r * s >= 0) by (nonlinear_arith)
        requires
            r >= 0,
            s >= 0,
    ;
    lemma_floor_bounds(r * s, t);
}

} // verus!
