use staking::address::Address;
use staking::constants::{RATE_DENOMINATOR, SECONDS_PER_YEAR};
use staking::errors::StakingError;
use staking::instructions::{
    claim_reward, create_staking_pool, deposit, deposit_reward, withdraw, ClaimReward,
    CreateStakingPool, Deposit, DepositReward, TransferDirection, Withdraw,
};
use staking::lifecycle::PoolPhase;
use staking::state::{StakingInfo, UserInfo};

const T: i64 = 1_700_000_000;
const YEAR: i64 = 31_536_000;

fn addr(b: u8) -> Address {
    Address::new([b; 32])
}

fn pool(start: i64, end: i64, cap: u64, rate: u16) -> StakingInfo {
    let mut ctx = CreateStakingPool {
        mint_account: addr(7),
        admin: addr(9),
        staking_info: StakingInfo {
            token_mint_address: addr(0),
            deposit_token_amount: 0,
            start_time: 0,
            end_time: 0,
            max_token_amount_per_address: 0,
            interest_rate: 0,
            authority: addr(0),
        },
    };
    create_staking_pool(&mut ctx, cap, rate, start, end).unwrap();
    ctx.staking_info
}

fn user(staked: u64, pending: u64, last: i64) -> UserInfo {
    UserInfo { holder: addr(1), staked_amount: staked, pending_reward: pending, last_claimed_reward_at: last }
}

fn same_user(a: &UserInfo, b: &UserInfo) -> bool {
    a.holder.same_as(&b.holder)
        && a.staked_amount == b.staked_amount
        && a.pending_reward == b.pending_reward
        && a.last_claimed_reward_at == b.last_claimed_reward_at
}

#[test]
fn one_year_end_to_end() {
    let info = pool(T, T + YEAR, 10_000_000, 1000);
    let mut d = Deposit { staking_info: info, user_info: UserInfo::new(addr(1)), staker: addr(1) };
    let t = deposit(&mut d, 1_000_000, T).unwrap();
    assert_eq!(t.direction, TransferDirection::IntoVault);
    assert_eq!(t.amount, 1_000_000);
    assert_eq!(d.staking_info.deposit_token_amount, 1_000_000);
    let mut w = Withdraw { staking_info: d.staking_info, user_info: d.user_info, staker: addr(1) };
    let payout = withdraw(&mut w, T + YEAR + 1).unwrap().unwrap();
    assert_eq!(payout.direction, TransferDirection::OutOfVault);
    assert!(payout.party.same_as(&addr(1)));
    assert_eq!(payout.amount, 1_100_000);
    assert_eq!(w.user_info.staked_amount, 0);
    assert_eq!(w.user_info.pending_reward, 0);
    assert_eq!(w.staking_info.deposit_token_amount, 1_000_000);
    assert_eq!(w.staking_info.start_time, T);
    assert_eq!(w.staking_info.end_time, T + YEAR);
}

#[test]
fn accrual_formula_values() {
    let info = pool(T, T + YEAR, 10_000_000, 500);
    let u = user(1_000_000, 0, T);
    assert_eq!(u.accumulated_reward(&info, T + YEAR / 2), Some(25_000));
    assert_eq!(u.accumulated_reward(&info, T + YEAR), Some(50_000));
    let small = user(1, 3, T);
    assert_eq!(small.accumulated_reward(&info, T + YEAR), Some(3));
    assert_eq!(SECONDS_PER_YEAR * RATE_DENOMINATOR, 315_360_000_000);
}

#[test]
fn accrual_zero_elapsed_keeps_pending() {
    let info = pool(T, T + YEAR, 10_000_000, 1000);
    let u = user(5_000, 42, T + 100);
    assert_eq!(u.accumulated_reward(&info, T + 100), Some(42));
}

#[test]
fn accrual_without_stake_keeps_pending() {
    let info = pool(T, T + YEAR, 10_000_000, 10_000);
    let u = user(0, 17, T);
    assert_eq!(u.accumulated_reward(&info, T + YEAR), Some(17));
    assert_eq!(u.accumulated_reward(&info, T + 3 * YEAR), Some(17));
}

#[test]
fn accrual_is_monotonic_in_time() {
    let info = pool(T, T + YEAR, 10_000_000, 2500);
    let u = user(777_777, 5, T);
    let mut prev = 0u64;
    let mut now = T;
    while now <= T + YEAR + 1000 {
        let r = u.accumulated_reward(&info, now).unwrap();
        assert!(r >= prev);
        prev = r;
        now += 1_000_003;
    }
}

#[test]
fn accrual_stops_at_end_time() {
    let info = pool(T, T + YEAR, 10_000_000, 1000);
    let u = user(1_000_000, 0, T);
    let at_end = u.accumulated_reward(&info, T + YEAR);
    assert_eq!(at_end, Some(100_000));
    assert_eq!(u.accumulated_reward(&info, T + YEAR + 1), at_end);
    assert_eq!(u.accumulated_reward(&info, T + 10 * YEAR), at_end);
}

#[test]
fn accrual_overflow_is_reported() {
    let info = pool(i64::MIN, i64::MAX, u64::MAX, u16::MAX);
    let u = user(u64::MAX, 0, i64::MIN);
    assert_eq!(u.accumulated_reward(&info, i64::MAX), None);
    let near = user(10, u64::MAX, T);
    assert_eq!(near.accumulated_reward(&info, T + YEAR), None);
    let mut c = ClaimReward { staking_info: info, user_info: u, staker: addr(1) };
    assert_eq!(claim_reward(&mut c, i64::MAX).unwrap_err(), StakingError::ArithmeticOverflow);
    assert!(same_user(&c.user_info, &u));
}

#[test]
fn claim_twice_pays_once() {
    let info = pool(T, T + YEAR, 10_000_000, 1000);
    let u = user(1_000_000, 0, T);
    let mut c = ClaimReward { staking_info: info, user_info: u, staker: addr(1) };
    let first = claim_reward(&mut c, T + YEAR / 2).unwrap().unwrap();
    assert_eq!(first.amount, 50_000);
    assert_eq!(first.direction, TransferDirection::OutOfVault);
    assert_eq!(c.user_info.pending_reward, 0);
    assert_eq!(c.user_info.last_claimed_reward_at, T + YEAR / 2);
    assert_eq!(c.user_info.staked_amount, 1_000_000);
    let after_first = c.user_info;
    assert!(claim_reward(&mut c, T + YEAR / 2).unwrap().is_none());
    assert!(same_user(&c.user_info, &after_first));
}

#[test]
fn claim_with_nothing_owed_changes_nothing() {
    let info = pool(T, T + YEAR, 10_000_000, 1000);
    let u = user(0, 0, T);
    let mut c = ClaimReward { staking_info: info, user_info: u, staker: addr(1) };
    assert!(claim_reward(&mut c, T + 10).unwrap().is_none());
    assert!(same_user(&c.user_info, &u));
}

#[test]
fn claim_after_end_is_allowed_and_capped() {
    let info = pool(T, T + YEAR, 10_000_000, 1000);
    let mut c = ClaimReward { staking_info: info, user_info: user(1_000_000, 10, T), staker: addr(1) };
    let t = claim_reward(&mut c, T + 2 * YEAR).unwrap().unwrap();
    assert_eq!(t.amount, 100_010);
    assert!(claim_reward(&mut c, T + 3 * YEAR).unwrap().is_none());
}

#[test]
fn claim_before_start_is_refused() {
    let info = pool(T, T + YEAR, 10_000_000, 1000);
    let mut c = ClaimReward { staking_info: info, user_info: user(1_000, 0, T), staker: addr(1) };
    assert_eq!(claim_reward(&mut c, T - 1).unwrap_err(), StakingError::StakingNotStarted);
}

#[test]
fn deposit_over_cap_is_refused() {
    let info = pool(T, T + YEAR, 1_000, 1000);
    let u = user(600, 3, T);
    let mut d = Deposit { staking_info: info, user_info: u, staker: addr(1) };
    assert_eq!(deposit(&mut d, 401, T + 5).unwrap_err(), StakingError::ReachMaxDeposit);
    assert!(same_user(&d.user_info, &u));
    assert_eq!(d.staking_info.deposit_token_amount, 0);
    assert_eq!(deposit(&mut d, u64::MAX, T + 5).unwrap_err(), StakingError::ReachMaxDeposit);
    assert!(deposit(&mut d, 400, T + 5).is_ok());
    assert_eq!(d.user_info.staked_amount, 1_000);
}

#[test]
fn deposit_zero_is_refused() {
    let info = pool(T, T + YEAR, 1_000, 1000);
    let mut d = Deposit { staking_info: info, user_info: UserInfo::new(addr(1)), staker: addr(1) };
    assert_eq!(deposit(&mut d, 0, T).unwrap_err(), StakingError::TokenAmountTooSmall);
}

#[test]
fn window_gates_operations() {
    let info = pool(T, T + YEAR, 1_000_000, 1000);
    let mut d = Deposit { staking_info: info, user_info: UserInfo::new(addr(1)), staker: addr(1) };
    assert_eq!(deposit(&mut d, 10, T - 1).unwrap_err(), StakingError::StakingNotStarted);
    assert_eq!(deposit(&mut d, 10, T + YEAR + 1).unwrap_err(), StakingError::StakingEnded);
    assert!(deposit(&mut d, 10, T + YEAR).is_ok());
    let mut w = Withdraw { staking_info: info, user_info: user(10, 0, T), staker: addr(1) };
    assert_eq!(withdraw(&mut w, T - 1).unwrap_err(), StakingError::StakingNotStarted);
    assert_eq!(withdraw(&mut w, T).unwrap_err(), StakingError::StakingNotEnded);
    assert_eq!(withdraw(&mut w, T + YEAR).unwrap_err(), StakingError::StakingNotEnded);
    assert_eq!(w.user_info.staked_amount, 10);
    assert!(withdraw(&mut w, T + YEAR + 1).is_ok());
}

#[test]
fn phases_follow_the_window() {
    let info = pool(T, T + YEAR, 1, 1);
    assert_eq!(info.phase(T - 1), PoolPhase::NotStarted);
    assert_eq!(info.phase(T), PoolPhase::Active);
    assert_eq!(info.phase(T + YEAR), PoolPhase::Active);
    assert_eq!(info.phase(T + YEAR + 1), PoolPhase::Ended);
}

#[test]
fn deposit_settles_reward_before_adding_stake() {
    let info = pool(T, T + YEAR, 10_000_000, 1000);
    let mut d = Deposit { staking_info: info, user_info: UserInfo::new(addr(1)), staker: addr(1) };
    deposit(&mut d, 1_000_000, T).unwrap();
    deposit(&mut d, 1_000_000, T + YEAR / 2).unwrap();
    assert_eq!(d.user_info.pending_reward, 50_000);
    assert_eq!(d.user_info.staked_amount, 2_000_000);
    assert_eq!(d.user_info.last_claimed_reward_at, T + YEAR / 2);
    assert_eq!(d.staking_info.deposit_token_amount, 2_000_000);
    let c = ClaimReward { staking_info: d.staking_info, user_info: d.user_info, staker: addr(1) };
    assert_eq!(c.user_info.accumulated_reward(&c.staking_info, T + YEAR), Some(150_000));
}

#[test]
fn deposit_then_claim_keeps_settled_reward() {
    let info = pool(T, T + YEAR, 10_000_000, 1000);
    let mut d = Deposit { staking_info: info, user_info: user(1_000_000, 0, T), staker: addr(1) };
    deposit(&mut d, 5, T + 1000).unwrap();
    let settled = d.user_info.pending_reward;
    assert_eq!(settled, 3);
    let mut c = ClaimReward { staking_info: d.staking_info, user_info: d.user_info, staker: addr(1) };
    let t = claim_reward(&mut c, T + 1000).unwrap().unwrap();
    assert!(t.amount >= settled);
    assert_eq!(t.amount, 3);
}

#[test]
fn withdraw_nothing_asks_no_transfer() {
    let info = pool(T, T + YEAR, 10_000_000, 1000);
    let mut w = Withdraw { staking_info: info, user_info: user(0, 0, T), staker: addr(1) };
    assert!(withdraw(&mut w, T + YEAR + 5).unwrap().is_none());
}

#[test]
fn withdraw_payout_overflow_is_refused() {
    let info = pool(T, T + YEAR, u64::MAX, 1000);
    let u = user(u64::MAX, 1, T + YEAR);
    let mut w = Withdraw { staking_info: info, user_info: u, staker: addr(1) };
    assert_eq!(withdraw(&mut w, T + YEAR + 1).unwrap_err(), StakingError::ArithmeticOverflow);
    assert!(same_user(&w.user_info, &u));
}

#[test]
fn create_pool_records_config() {
    let info = pool(T, T + YEAR, 123, 456);
    assert!(info.token_mint_address.same_as(&addr(7)));
    assert!(info.authority.same_as(&addr(9)));
    assert_eq!(info.start_time, T);
    assert_eq!(info.end_time, T + YEAR);
    assert_eq!(info.max_token_amount_per_address, 123);
    assert_eq!(info.interest_rate, 456);
    assert_eq!(info.deposit_token_amount, 0);
}

#[test]
fn create_pool_with_empty_window_is_refused() {
    let before = pool(T, T + YEAR, 1, 1);
    let mut ctx = CreateStakingPool { mint_account: addr(7), admin: addr(9), staking_info: before };
    assert_eq!(create_staking_pool(&mut ctx, 5, 5, T, T).unwrap_err(), StakingError::NotAllowed);
    assert_eq!(create_staking_pool(&mut ctx, 5, 5, T + 1, T).unwrap_err(), StakingError::NotAllowed);
    assert_eq!(ctx.staking_info.max_token_amount_per_address, 1);
}

#[test]
fn only_authority_funds_vault() {
    let info = pool(T, T + YEAR, 1, 1);
    let stranger = DepositReward { staking_info: info, admin: addr(3) };
    assert_eq!(deposit_reward(&stranger, 500).unwrap_err(), StakingError::Unauthorized);
    let admin = DepositReward { staking_info: info, admin: addr(9) };
    let t = deposit_reward(&admin, 500).unwrap();
    assert_eq!(t.direction, TransferDirection::IntoVault);
    assert_eq!(t.amount, 500);
    assert!(t.party.same_as(&addr(9)));
}

#[test]
fn addresses_compare_by_bytes() {
    let mut b = [4u8; 32];
    assert!(Address::new(b).same_as(&Address::new([4u8; 32])));
    b[31] = 5;
    assert!(!Address::new(b).same_as(&Address::new([4u8; 32])));
}

#[test]
fn error_messages() {
    assert_eq!(StakingError::ReachMaxDeposit.message(), "Deposit reaches maximum amount");
    assert_eq!(StakingError::StakingNotEnded.message(), "Staking not ended yet");
    assert_eq!(StakingError::TokenAmountTooBig.message(), "Withdraw amount cannot be less than deposit");
}

#[test]
fn deposit_then_later_claim_loses_at_most_rounding() {
    let info = pool(T, T + YEAR, 10_000_000, 1000);
    let alone = user(1_000_000, 0, T).accumulated_reward(&info, T + 2000).unwrap();
    assert_eq!(alone, 6);
    let mut d = Deposit { staking_info: info, user_info: user(1_000_000, 0, T), staker: addr(1) };
    deposit(&mut d, 5, T + 1000).unwrap();
    assert_eq!(d.user_info.pending_reward, 3);
    let mut c = ClaimReward { staking_info: d.staking_info, user_info: d.user_info, staker: addr(1) };
    let t = claim_reward(&mut c, T + 2000).unwrap().unwrap();
    assert_eq!(t.amount, 6);
    assert!(t.amount + 1 >= alone);
}

#[test]
fn claim_then_later_deposit_loses_at_most_rounding() {
    let info = pool(T, T + YEAR, 10_000_000, 1000);
    let u0 = user(1_000_000, 0, T);
    let alone = u0.accumulated_reward(&info, T + 2000).unwrap();
    let mut c = ClaimReward { staking_info: info, user_info: u0, staker: addr(1) };
    let paid = claim_reward(&mut c, T + 1000).unwrap().unwrap().amount;
    assert_eq!(paid, 3);
    let mut d = Deposit { staking_info: c.staking_info, user_info: c.user_info, staker: addr(1) };
    deposit(&mut d, 5, T + 2000).unwrap();
    assert_eq!(d.user_info.pending_reward, 3);
    assert!(paid + d.user_info.pending_reward + 1 >= alone);
}

#[test]
fn withdraw_leaves_pool_record_unchanged() {
    let mut info = pool(T, T + YEAR, 10, 1000);
    info.deposit_token_amount = 5;
    let mut w = Withdraw { staking_info: info, user_info: user(5, 0, T), staker: addr(1) };
    assert!(withdraw(&mut w, T + YEAR + 1).unwrap().is_some());
    assert_eq!(w.staking_info.deposit_token_amount, 5);
    assert_eq!(w.staking_info.max_token_amount_per_address, 10);
    assert_eq!(w.staking_info.interest_rate, 1000);
}

#[test]
fn settlement_time_never_moves_back() {
    let info = pool(T, T + YEAR, 10_000_000, 1000);
    let mut d = Deposit { staking_info: info, user_info: user(1_000_000, 0, T + 5000), staker: addr(1) };
    deposit(&mut d, 10, T + 1000).unwrap();
    assert_eq!(d.user_info.last_claimed_reward_at, T + 5000);
    assert_eq!(d.user_info.pending_reward, 0);
    let mut c = ClaimReward { staking_info: info, user_info: user(1_000_000, 7, T + 5000), staker: addr(1) };
    let t = claim_reward(&mut c, T + 1000).unwrap().unwrap();
    assert_eq!(t.amount, 7);
    assert_eq!(c.user_info.last_claimed_reward_at, T + 5000);
    assert_eq!(c.user_info.pending_reward, 0);
    assert!(claim_reward(&mut c, T + 2000).unwrap().is_none());
}
