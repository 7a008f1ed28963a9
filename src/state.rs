use vstd::prelude::*;
use vstd::arithmetic::div_mod::{lemma_div_is_ordered, lemma_fundamental_div_mod, lemma_mod_pos_bound};
use crate::address::Address;
use crate::constants::{RATE_DENOMINATOR, SECONDS_PER_YEAR};

verus! {

/// The pool's configuration: one record per deployment.
#[derive(Clone, Copy, Debug)]
pub struct StakingInfo {
    /// Mint of the token that is staked and paid out.
    pub token_mint_address: Address,
    /// Principal deposited into the pool over its life, over all participants.
    /// Deposits add to it; nothing else changes it.
    pub deposit_token_amount: u64,
    /// First second of the staking window.
    pub start_time: i64,
    /// Last second of the staking window.
    pub end_time: i64,
    /// Cap on the principal that one participant may hold in the pool.
    pub max_token_amount_per_address: u64,
    /// Yearly interest in basis points (`RATE_DENOMINATOR` is 100%).
    pub interest_rate: u16,
    /// The identity allowed to fund the reward vault.
    pub authority: Address,
}

impl StakingInfo {
    /// A usable pool has a non-empty window.
    pub open spec fn wf(&self) -> bool {
        self.start_time < self.end_time
    }
}

/// One participant's stake.
#[derive(Clone, Copy, Debug)]
pub struct UserInfo {
    /// The participant that owns the record.
    pub holder: Address,
    /// Principal currently staked.
    pub staked_amount: u64,
    /// Reward settled but not yet paid.
    pub pending_reward: u64,
    /// The time up to which reward has been settled.
    pub last_claimed_reward_at: i64,
}

/// The settlement time after settling at `now`: it never moves back.
pub open spec fn settled_time(user: UserInfo, now: i64) -> i64 {
    if now > user.last_claimed_reward_at {
        now
    } else {
        user.last_claimed_reward_at
    }
}

/// Reward earned by `staked` tokens over `elapsed` seconds at `rate` basis
/// points a year, rounded down.
pub open spec fn reward_for(staked: int, elapsed: int, rate: int) -> int {
    staked * elapsed * rate / (SECONDS_PER_YEAR * RATE_DENOMINATOR)
}

/// The time up to which reward can accrue: `now`, but never past the window.
pub open spec fn accrual_time(info: StakingInfo, now: i64) -> int {
    if now < info.end_time {
        now as int
    } else {
        info.end_time as int
    }
}

/// The participant's settled reward after accrual up to `now`: the pending
/// reward plus what the principal earned since the last settlement, counted no
/// further than the end of the window.
pub open spec fn accrued(user: UserInfo, info: StakingInfo, now: i64) -> int {
    let until = accrual_time(info, now);
    if user.staked_amount == 0 || until <= user.last_claimed_reward_at {
        user.pending_reward as int
    } else {
        user.pending_reward + reward_for(
            user.staked_amount as int,
            until - user.last_claimed_reward_at,
            info.interest_rate as int,
        )
    }
}

/// `accrued` as a machine value, or `None` where it does not fit in 64 bits.
pub open spec fn accrued_u64(user: UserInfo, info: StakingInfo, now: i64) -> Option<u64> {
    if accrued(user, info, now) <= u64::MAX {
        Some(accrued(user, info, now) as u64)
    } else {
        None
    }
}

/// More principal, or a longer time, never earns a smaller reward.
pub proof fn lemma_reward_for_monotonic(s1: int, s2: int, e1: int, e2: int, rate: int)
    requires
        0 <= s1 <= s2,
        0 <= e1 <= e2,
        0 <= rate,
    ensures
        0 <= reward_for(s1, e1, rate) <= reward_for(s2, e2, rate),
{
    let d = (SECONDS_PER_YEAR * RATE_DENOMINATOR) as int;
    assert(0 <= s1 * e1 * rate <= s2 * e2 * rate) by (nonlinear_arith)
        requires
            0 <= s1 <= s2,
            0 <= e1 <= e2,
            0 <= rate,
    ;
    lemma_div_is_ordered(0, s1 * e1 * rate, d);
    lemma_div_is_ordered(s1 * e1 * rate, s2 * e2 * rate, d);
}

/// Splitting a stretch of time in two loses at most one unit to rounding.
pub proof fn lemma_reward_for_split(staked: int, e1: int, e2: int, rate: int)
    requires
        0 <= staked,
        0 <= e1,
        0 <= e2,
        0 <= rate,
    ensures
        reward_for(staked, e1 + e2, rate) <= reward_for(staked, e1, rate) + reward_for(
            staked,
            e2,
            rate,
        ) + 1,
{
    let d = (SECONDS_PER_YEAR * RATE_DENOMINATOR) as int;
    let x = staked * e1 * rate;
    let y = staked * e2 * rate;
    assert(staked * (e1 + e2) * rate == x + y) by (nonlinear_arith)
        requires
            x == staked * e1 * rate,
            y == staked * e2 * rate,
    ;
    lemma_fundamental_div_mod(x, d);
    lemma_fundamental_div_mod(y, d);
    lemma_fundamental_div_mod(x + y, d);
    lemma_mod_pos_bound(x, d);
    lemma_mod_pos_bound(y, d);
    lemma_mod_pos_bound(x + y, d);
    let (qx, qy, qs) = (x / d, y / d, (x + y) / d);
    let (rx, ry, rs) = (x % d, y % d, (x + y) % d);
    assert(qs <= qx + qy + 1) by (nonlinear_arith)
        requires
            x == d * qx + rx,
            y == d * qy + ry,
            x + y == d * qs + rs,
            0 <= rx < d,
            0 <= ry < d,
            0 <= rs < d,
    ;
}

/// Settled reward never falls below the pending reward.
pub proof fn lemma_accrued_at_least_pending(user: UserInfo, info: StakingInfo, now: i64)
    ensures
        accrued(user, info, now) >= user.pending_reward,
{
    let until = accrual_time(info, now);
    if user.staked_amount != 0 && until > user.last_claimed_reward_at {
        lemma_reward_for_monotonic(
            user.staked_amount as int,
            user.staked_amount as int,
            0,
            until - user.last_claimed_reward_at,
            info.interest_rate as int,
        );
    }
}

impl UserInfo {
    /// An empty record for `holder`: nothing staked, nothing pending.
    pub fn new(holder: Address) -> (r: UserInfo)
        ensures
            r.holder == holder,
            r.staked_amount == 0,
            r.pending_reward == 0,
            r.last_claimed_reward_at == 0,
    {
        UserInfo { holder, staked_amount: 0, pending_reward: 0, last_claimed_reward_at: 0 }
    }

    /// The participant's reward settled up to `now` (capped at the end of the
    /// window), or `None` where it does not fit in 64 bits. The record itself is
    /// not changed.
    pub fn accumulated_reward(&self, staking_info: &StakingInfo, now: i64) -> (r: Option<u64>)
        ensures
            r == accrued_u64(*self, *staking_info, now),
    {
        if self.staked_amount == 0 {
            return Some(self.pending_reward);
        }
        let until: i64 = if now < staking_info.end_time {
            now
        } else {
            staking_info.end_time
        };
        if until <= self.last_claimed_reward_at {
            return Some(self.pending_reward);
        }
        let elapsed: u128 = ((until as i128) - (self.last_claimed_reward_at as i128)) as u128;
        let staked: u128 = self.staked_amount as u128;
        assert(staked * elapsed <= u128::MAX) by (nonlinear_arith)
            requires
                staked <= u64::MAX,
                elapsed <= u64::MAX,
        ;
        let product: u128 = staked * elapsed;
        let rate: u128 = staking_info.interest_rate as u128;
        let denom: u128 = (SECONDS_PER_YEAR as u128) * (RATE_DENOMINATOR as u128);
        let ghost d: int = denom as int;
        match product.checked_mul(rate) {
            None => {
                proof {
                    lemma_div_is_ordered(u128::MAX + 1, product * rate, d);
                    assert((u128::MAX + 1) / d > u64::MAX);
                }
                None
            },
            Some(scaled) => {
                let reward: u128 = scaled / denom;
                proof {
                    lemma_div_is_ordered(scaled as int, u128::MAX as int, d);
                    assert(u128::MAX as int / d <= u64::MAX * u64::MAX);
                }
                let total: u128 = self.pending_reward as u128 + reward;
                if total > u64::MAX as u128 {
                    None
                } else {
                    Some(total as u64)
                }
            },
        }
    }
}

/// With time standing still, a stake earns nothing: settling at the moment of
/// the last settlement leaves the pending reward as it is.
pub proof fn lemma_no_reward_without_elapsed_time(user: UserInfo, info: StakingInfo, now: i64)
    requires
        user.staked_amount > 0,
        now == user.last_claimed_reward_at,
    ensures
        accrued(user, info, now) == user.pending_reward,
{
}

/// Without principal nothing accrues, however much time has passed.
pub proof fn lemma_no_reward_without_stake(user: UserInfo, info: StakingInfo, now: i64)
    requires
        user.staked_amount == 0,
    ensures
        accrued(user, info, now) == user.pending_reward,
{
}

/// Settling later never yields less.
pub proof fn lemma_accrued_monotonic(user: UserInfo, info: StakingInfo, now1: i64, now2: i64)
    requires
        now1 <= now2,
    ensures
        accrued(user, info, now1) <= accrued(user, info, now2),
{
    let t1 = accrual_time(info, now1);
    let t2 = accrual_time(info, now2);
    let last = user.last_claimed_reward_at as int;
    if user.staked_amount != 0 && t1 > last {
        lemma_reward_for_monotonic(
            user.staked_amount as int,
            user.staked_amount as int,
            t1 - last,
            t2 - last,
            info.interest_rate as int,
        );
    } else {
        lemma_accrued_at_least_pending(user, info, now2);
    }
}

/// Nothing accrues after the end of the window: settling at any later time
/// gives what settling at `end_time` gives.
pub proof fn lemma_no_reward_after_end(user: UserInfo, info: StakingInfo, now: i64)
    requires
        now > info.end_time,
    ensures
        accrued(user, info, now) == accrued(user, info, info.end_time),
{
}

/// Settling at `t1` (the settlement time moving up to `t1`, never back) and
/// then again at a later `t2`, with at least as much
/// principal in between and with part of what was settled at `t1` carried
/// off (paid out), loses at most one unit to rounding against settling once
/// at `t2`: the second settlement plus what was carried off covers it.
pub proof fn lemma_settle_twice(user: UserInfo, later: UserInfo, info: StakingInfo, t1: i64, t2: i64)
    requires
        t1 <= t2,
        later.staked_amount >= user.staked_amount,
        later.pending_reward <= accrued(user, info, t1),
        later.last_claimed_reward_at == settled_time(user, t1),
    ensures
        accrued(later, info, t2) >= later.pending_reward,
        accrued(later, info, t2) + (accrued(user, info, t1) - later.pending_reward) + 1 >= accrued(
            user,
            info,
            t2,
        ),
{
    lemma_accrued_at_least_pending(later, info, t2);
    lemma_accrued_at_least_pending(user, info, t1);
    let s0 = user.staked_amount as int;
    let s1 = later.staked_amount as int;
    let l0 = user.last_claimed_reward_at as int;
    let r = info.interest_rate as int;
    let u1 = accrual_time(info, t1);
    let e = accrual_time(info, t2);
    if s0 != 0 && e > l0 {
        if u1 <= l0 {
            lemma_reward_for_monotonic(s0, s1, e - l0, e - l0, r);
        } else if e > t1 {
            lemma_reward_for_split(s0, t1 - l0, e - t1, r);
            lemma_reward_for_monotonic(s0, s1, e - t1, e - t1, r);
        }
    }
}

} // verus!
