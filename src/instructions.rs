use vstd::prelude::*;
use crate::address::{Address, same_address};
use crate::errors::StakingError;
use crate::lifecycle::{PoolPhase, phase_at};
use crate::state::{StakingInfo, UserInfo, accrued, accrued_u64, lemma_settle_twice, settled_time};

verus! {

/// Which way a token transfer goes through the pool's vault.
#[derive(Clone, Copy, Debug, PartialEq, Eq, Structural)]
pub enum TransferDirection {
    /// From the party's token account into the vault, signed by the party.
    IntoVault,
    /// From the vault to the party's token account, signed by the pool's own
    /// derived authority and never by a participant.
    OutOfVault,
}

/// A token transfer that the host must perform for an operation to take effect.
/// The host commits the operation's new records only once the transfer has
/// succeeded; where it fails, the operation fails with `TransferFailed` and
/// nothing is kept.
#[derive(Clone, Copy, Debug)]
pub struct TokenTransfer {
    pub direction: TransferDirection,
    /// The participant or operator on the other side of the vault.
    pub party: Address,
    pub amount: u64,
}

/// The records that opening the pool writes.
#[derive(Clone, Copy, Debug)]
pub struct CreateStakingPool {
    /// Mint of the token that the pool stakes.
    pub mint_account: Address,
    /// The operator opening the pool; it becomes the pool's authority.
    pub admin: Address,
    /// The configuration record being initialised.
    pub staking_info: StakingInfo,
}

/// The records that funding the reward vault reads.
#[derive(Clone, Copy, Debug)]
pub struct DepositReward {
    pub staking_info: StakingInfo,
    /// The caller, who must be the pool's authority.
    pub admin: Address,
}

/// The records that a deposit reads and writes.
#[derive(Clone, Copy, Debug)]
pub struct Deposit {
    pub staking_info: StakingInfo,
    /// The staker's record; a fresh one is empty (see `UserInfo::new`).
    pub user_info: UserInfo,
    pub staker: Address,
}

/// The records that a withdrawal reads and writes.
#[derive(Clone, Copy, Debug)]
pub struct Withdraw {
    pub staking_info: StakingInfo,
    pub user_info: UserInfo,
    pub staker: Address,
}

/// The records that claiming a reward reads and writes.
#[derive(Clone, Copy, Debug)]
pub struct ClaimReward {
    pub staking_info: StakingInfo,
    pub user_info: UserInfo,
    pub staker: Address,
}

/// The pool configuration that opening a pool writes, or why it is refused.
pub open spec fn create_outcome(
    ctx: CreateStakingPool,
    max_token_amount_per_address: u64,
    interest_rate: u16,
    start_time: i64,
    end_time: i64,
) -> Result<CreateStakingPool, StakingError> {
    if start_time >= end_time {
        Err(StakingError::NotAllowed)
    } else {
        Ok(
            CreateStakingPool {
                staking_info: StakingInfo {
                    token_mint_address: ctx.mint_account,
                    deposit_token_amount: 0,
                    start_time,
                    end_time,
                    max_token_amount_per_address,
                    interest_rate,
                    authority: ctx.admin,
                },
                ..ctx
            },
        )
    }
}

/// The transfer that funding the vault asks for, or why it is refused.
pub open spec fn deposit_reward_outcome(ctx: DepositReward, amount: u64) -> Result<
    TokenTransfer,
    StakingError,
> {
    if !same_address(ctx.staking_info.authority, ctx.admin) {
        Err(StakingError::Unauthorized)
    } else {
        Ok(TokenTransfer { direction: TransferDirection::IntoVault, party: ctx.admin, amount })
    }
}

/// The records after a deposit and the transfer it asks for, or why it is
/// refused. Reward is settled with the stake as it was before the deposit.
pub open spec fn deposit_outcome(ctx: Deposit, amount: u64, now: i64) -> Result<
    (Deposit, TokenTransfer),
    StakingError,
> {
    let info = ctx.staking_info;
    let user = ctx.user_info;
    if phase_at(info, now) == PoolPhase::NotStarted {
        Err(StakingError::StakingNotStarted)
    } else if phase_at(info, now) == PoolPhase::Ended {
        Err(StakingError::StakingEnded)
    } else if user.staked_amount + amount > info.max_token_amount_per_address {
        Err(StakingError::ReachMaxDeposit)
    } else if amount == 0 {
        Err(StakingError::TokenAmountTooSmall)
    } else if accrued_u64(user, info, now) is None
        || info.deposit_token_amount + amount > u64::MAX {
        Err(StakingError::ArithmeticOverflow)
    } else {
        Ok(
            (
                Deposit {
                    staking_info: StakingInfo {
                        deposit_token_amount: (info.deposit_token_amount + amount) as u64,
                        ..info
                    },
                    user_info: UserInfo {
                        holder: ctx.staker,
                        staked_amount: (user.staked_amount + amount) as u64,
                        pending_reward: accrued_u64(user, info, now)->Some_0,
                        last_claimed_reward_at: settled_time(user, now),
                    },
                    staker: ctx.staker,
                },
                TokenTransfer {
                    direction: TransferDirection::IntoVault,
                    party: ctx.staker,
                    amount,
                },
            ),
        )
    }
}

/// The records after a withdrawal and the payout it asks for (none where there
/// is nothing to pay), or why it is refused. The stake record is emptied: the
/// host closes it. The pool record is left as it is.
pub open spec fn withdraw_outcome(ctx: Withdraw, now: i64) -> Result<
    (Withdraw, Option<TokenTransfer>),
    StakingError,
> {
    let info = ctx.staking_info;
    let user = ctx.user_info;
    if phase_at(info, now) == PoolPhase::NotStarted {
        Err(StakingError::StakingNotStarted)
    } else if phase_at(info, now) == PoolPhase::Active {
        Err(StakingError::StakingNotEnded)
    } else if accrued_u64(user, info, now) is None
        || user.staked_amount + accrued_u64(user, info, now)->Some_0 > u64::MAX {
        Err(StakingError::ArithmeticOverflow)
    } else {
        let payout = user.staked_amount + accrued_u64(user, info, now)->Some_0;
        Ok(
            (
                Withdraw {
                    staking_info: info,
                    user_info: UserInfo {
                        holder: user.holder,
                        staked_amount: 0,
                        pending_reward: 0,
                        last_claimed_reward_at: 0,
                    },
                    staker: ctx.staker,
                },
                if payout > 0 {
                    Some(
                        TokenTransfer {
                            direction: TransferDirection::OutOfVault,
                            party: ctx.staker,
                            amount: payout as u64,
                        },
                    )
                } else {
                    None
                },
            ),
        )
    }
}

/// The records after a claim and the payout it asks for, or why it is refused.
/// Where the settled reward is zero nothing changes and nothing is paid.
pub open spec fn claim_outcome(ctx: ClaimReward, now: i64) -> Result<
    (ClaimReward, Option<TokenTransfer>),
    StakingError,
> {
    let info = ctx.staking_info;
    let user = ctx.user_info;
    if phase_at(info, now) == PoolPhase::NotStarted {
        Err(StakingError::StakingNotStarted)
    } else if accrued_u64(user, info, now) is None {
        Err(StakingError::ArithmeticOverflow)
    } else if accrued_u64(user, info, now)->Some_0 == 0 {
        Ok((ctx, None))
    } else {
        Ok(
            (
                ClaimReward {
                    user_info: UserInfo {
                        pending_reward: 0,
                        last_claimed_reward_at: settled_time(user, now),
                        ..user
                    },
                    ..ctx
                },
                Some(
                    TokenTransfer {
                        direction: TransferDirection::OutOfVault,
                        party: ctx.staker,
                        amount: accrued_u64(user, info, now)->Some_0,
                    },
                ),
            ),
        )
    }
}

/// Opens the pool: records the mint, the window, the cap and the rate, with
/// the caller as authority. A window that does not end after it starts is
/// refused with `NotAllowed`. The host also reserves `RENT_MINIMUM` in the vault.
pub fn create_staking_pool(
    ctx: &mut CreateStakingPool,
    max_token_amount_per_address: u64,
    interest_rate: u16,
    start_time: i64,
    end_time: i64,
) -> (r: Result<(), StakingError>)
    ensures
        match create_outcome(
            *old(ctx),
            max_token_amount_per_address,
            interest_rate,
            start_time,
            end_time,
        ) {
            Ok(c) => r is Ok && *final(ctx) == c,
            Err(e) => r == Err::<(), StakingError>(e) && *final(ctx) == *old(ctx),
        },
        r is Ok ==> final(ctx).staking_info.wf(),
{
    if start_time >= end_time {
        return Err(StakingError::NotAllowed);
    }
    ctx.staking_info = StakingInfo {
        token_mint_address: ctx.mint_account,
        deposit_token_amount: 0,
        start_time,
        end_time,
        max_token_amount_per_address,
        interest_rate,
        authority: ctx.admin,
    };
    Ok(())
}

/// Lets the pool's authority add `amount` to the reward vault; anyone else is
/// refused with `Unauthorized`. No record changes.
pub fn deposit_reward(ctx: &DepositReward, amount: u64) -> (r: Result<TokenTransfer, StakingError>)
    ensures
        r == deposit_reward_outcome(*ctx, amount),
{
    if !ctx.staking_info.authority.same_as(&ctx.admin) {
        return Err(StakingError::Unauthorized);
    }
    Ok(TokenTransfer { direction: TransferDirection::IntoVault, party: ctx.admin, amount })
}

/// Stakes `amount` more for the staker while the window is open. The reward
/// earned so far is settled first, with the stake as it was; the settlement
/// time moves up to `now` (never back). Refused before the window (`StakingNotStarted`), after
/// it (`StakingEnded`), over the cap (`ReachMaxDeposit`), for a zero amount
/// (`TokenAmountTooSmall`), and where a total would not fit in 64 bits
/// (`ArithmeticOverflow`); a refused deposit changes nothing.
pub fn deposit(ctx: &mut Deposit, amount: u64, now: i64) -> (r: Result<TokenTransfer, StakingError>)
    ensures
        match deposit_outcome(*old(ctx), amount, now) {
            Ok((c, t)) => r == Ok::<TokenTransfer, StakingError>(t) && *final(ctx) == c,
            Err(e) => r == Err::<TokenTransfer, StakingError>(e) && *final(ctx) == *old(ctx),
        },
        final(ctx).user_info.last_claimed_reward_at >= old(ctx).user_info.last_claimed_reward_at,
{
    let phase = ctx.staking_info.phase(now);
    if phase == PoolPhase::NotStarted {
        return Err(StakingError::StakingNotStarted);
    }
    if phase == PoolPhase::Ended {
        return Err(StakingError::StakingEnded);
    }
    let staked = ctx.user_info.staked_amount;
    let cap = ctx.staking_info.max_token_amount_per_address;
    if staked > cap || amount > cap - staked {
        return Err(StakingError::ReachMaxDeposit);
    }
    if amount == 0 {
        return Err(StakingError::TokenAmountTooSmall);
    }
    let settled = match ctx.user_info.accumulated_reward(&ctx.staking_info, now) {
        Some(v) => v,
        None => {
            return Err(StakingError::ArithmeticOverflow);
        },
    };
    let total = match ctx.staking_info.deposit_token_amount.checked_add(amount) {
        Some(v) => v,
        None => {
            return Err(StakingError::ArithmeticOverflow);
        },
    };
    let last = if now > ctx.user_info.last_claimed_reward_at {
        now
    } else {
        ctx.user_info.last_claimed_reward_at
    };
    ctx.staking_info.deposit_token_amount = total;
    ctx.user_info = UserInfo {
        holder: ctx.staker,
        staked_amount: staked + amount,
        pending_reward: settled,
        last_claimed_reward_at: last,
    };
    Ok(TokenTransfer { direction: TransferDirection::IntoVault, party: ctx.staker, amount })
}

/// Pays the staker's principal and settled reward once the window has closed,
/// and empties the stake record; the pool record is not changed. No transfer is asked for where there is
/// nothing to pay. Refused before the window (`StakingNotStarted`), while it is
/// open (`StakingNotEnded`), and where the payout would not fit in 64 bits
/// (`ArithmeticOverflow`); a refused withdrawal changes nothing.
pub fn withdraw(ctx: &mut Withdraw, now: i64) -> (r: Result<Option<TokenTransfer>, StakingError>)
    ensures
        match withdraw_outcome(*old(ctx), now) {
            Ok((c, t)) => r == Ok::<Option<TokenTransfer>, StakingError>(t) && *final(ctx) == c,
            Err(e) => r == Err::<Option<TokenTransfer>, StakingError>(e) && *final(ctx)
                == *old(ctx),
        },
        final(ctx).staking_info == old(ctx).staking_info,
{
    let phase = ctx.staking_info.phase(now);
    if phase == PoolPhase::NotStarted {
        return Err(StakingError::StakingNotStarted);
    }
    if phase == PoolPhase::Active {
        return Err(StakingError::StakingNotEnded);
    }
    let settled = match ctx.user_info.accumulated_reward(&ctx.staking_info, now) {
        Some(v) => v,
        None => {
            return Err(StakingError::ArithmeticOverflow);
        },
    };
    let staked = ctx.user_info.staked_amount;
    let payout = match staked.checked_add(settled) {
        Some(v) => v,
        None => {
            return Err(StakingError::ArithmeticOverflow);
        },
    };
    ctx.user_info = UserInfo {
        holder: ctx.user_info.holder,
        staked_amount: 0,
        pending_reward: 0,
        last_claimed_reward_at: 0,
    };
    if payout > 0 {
        Ok(
            Some(
                TokenTransfer {
                    direction: TransferDirection::OutOfVault,
                    party: ctx.staker,
                    amount: payout,
                },
            ),
        )
    } else {
        Ok(None)
    }
}

/// Pays the staker's settled reward once the window has opened (also after it
/// has closed), then clears the pending reward and moves the settlement time up
/// to `now` (never back); the principal stays. Where the settled reward is zero nothing changes
/// and nothing is paid. Refused before the window (`StakingNotStarted`) and
/// where the reward would not fit in 64 bits (`ArithmeticOverflow`); a refused
/// claim changes nothing.
pub fn claim_reward(ctx: &mut ClaimReward, now: i64) -> (r: Result<
    Option<TokenTransfer>,
    StakingError,
>)
    ensures
        match claim_outcome(*old(ctx), now) {
            Ok((c, t)) => r == Ok::<Option<TokenTransfer>, StakingError>(t) && *final(ctx) == c,
            Err(e) => r == Err::<Option<TokenTransfer>, StakingError>(e) && *final(ctx)
                == *old(ctx),
        },
        final(ctx).staking_info == old(ctx).staking_info,
        final(ctx).user_info.last_claimed_reward_at >= old(ctx).user_info.last_claimed_reward_at,
{
    if ctx.staking_info.phase(now) == PoolPhase::NotStarted {
        return Err(StakingError::StakingNotStarted);
    }
    let settled = match ctx.user_info.accumulated_reward(&ctx.staking_info, now) {
        Some(v) => v,
        None => {
            return Err(StakingError::ArithmeticOverflow);
        },
    };
    if settled == 0 {
        return Ok(None);
    }
    if now > ctx.user_info.last_claimed_reward_at {
        ctx.user_info.last_claimed_reward_at = now;
    }
    ctx.user_info.pending_reward = 0;
    Ok(Some(TokenTransfer { direction: TransferDirection::OutOfVault, party: ctx.staker, amount: settled }))
}

/// Claiming twice at the same moment: the second claim pays nothing and
/// leaves the records exactly as the first one left them.
pub proof fn lemma_claim_idempotent(ctx: ClaimReward, now: i64)
    ensures
        match claim_outcome(ctx, now) {
            Ok((c, _)) => claim_outcome(c, now) == Ok::<
                (ClaimReward, Option<TokenTransfer>),
                StakingError,
            >((c, None)),
            Err(e) => true,
        },
{
}

/// While the window is open, a deposit that would take the staker's principal
/// over the cap is refused with `ReachMaxDeposit` (and so changes nothing).
pub proof fn lemma_deposit_respects_cap(ctx: Deposit, amount: u64, now: i64)
    requires
        ctx.staking_info.start_time <= now <= ctx.staking_info.end_time,
        ctx.user_info.staked_amount + amount > ctx.staking_info.max_token_amount_per_address,
    ensures
        deposit_outcome(ctx, amount, now) == Err::<(Deposit, TokenTransfer), StakingError>(
            StakingError::ReachMaxDeposit,
        ),
{
}

/// The window gates the operations: inside it a withdrawal is refused with
/// `StakingNotEnded`; before it a deposit is refused with `StakingNotStarted`;
/// after the end of a valid window a deposit is refused with `StakingEnded`.
pub proof fn lemma_window_gates(
    withdrawal: Withdraw,
    deposit: Deposit,
    amount: u64,
    now: i64,
)
    ensures
        withdrawal.staking_info.start_time <= now <= withdrawal.staking_info.end_time
            ==> withdraw_outcome(withdrawal, now) == Err::<
            (Withdraw, Option<TokenTransfer>),
            StakingError,
        >(StakingError::StakingNotEnded),
        now < deposit.staking_info.start_time ==> deposit_outcome(deposit, amount, now) == Err::<
            (Deposit, TokenTransfer),
            StakingError,
        >(StakingError::StakingNotStarted),
        deposit.staking_info.wf() && now > deposit.staking_info.end_time ==> deposit_outcome(
            deposit,
            amount,
            now,
        ) == Err::<
            (Deposit, TokenTransfer),
            StakingError,
        >(StakingError::StakingEnded),
{
}

/// The claim record that follows a deposit on the same stake.
pub open spec fn claim_after(d: Deposit) -> ClaimReward {
    ClaimReward { staking_info: d.staking_info, user_info: d.user_info, staker: d.staker }
}

/// What a claim pays: the transfer's amount, or nothing.
pub open spec fn paid(t: Option<TokenTransfer>) -> int {
    match t {
        Some(t) => t.amount as int,
        None => 0,
    }
}

/// No lost update between a deposit and a later claim on the same stake. What
/// the two leave the staker (paid by the claim, plus reward still pending in
/// the record) covers the reward that the deposit settled at its own time, and
/// what a claim alone at the claim's time would have paid, less one unit of
/// rounding.
pub proof fn lemma_deposit_then_claim_keeps_reward(ctx: Deposit, amount: u64, t1: i64, t2: i64)
    requires
        t1 <= t2,
    ensures
        match deposit_outcome(ctx, amount, t1) {
            Ok((c1, _)) => match claim_outcome(claim_after(c1), t2) {
                Ok((c2, t)) => paid(t) + c2.user_info.pending_reward >= accrued(
                    ctx.user_info,
                    ctx.staking_info,
                    t1,
                ) && paid(t) + c2.user_info.pending_reward + 1 >= accrued(
                    ctx.user_info,
                    ctx.staking_info,
                    t2,
                ),
                Err(e) => e == StakingError::ArithmeticOverflow,
            },
            Err(_) => true,
        },
{
    if let Ok((c1, _)) = deposit_outcome(ctx, amount, t1) {
        lemma_settle_twice(ctx.user_info, c1.user_info, ctx.staking_info, t1, t2);
    }
}

/// The deposit record that follows a claim on the same stake.
pub open spec fn deposit_after(c: ClaimReward) -> Deposit {
    Deposit { staking_info: c.staking_info, user_info: c.user_info, staker: c.staker }
}

/// No lost update between a claim and a later deposit on the same stake. The
/// claim pays exactly the reward settled at its own time; what it paid plus
/// the reward pending in the record after the deposit covers that, and what a
/// deposit alone at the deposit's time would have settled, less one unit of
/// rounding.
pub proof fn lemma_claim_then_deposit_keeps_reward(ctx: ClaimReward, amount: u64, t1: i64, t2: i64)
    requires
        t1 <= t2,
    ensures
        match claim_outcome(ctx, t1) {
            Ok((c1, t)) => paid(t) == accrued(ctx.user_info, ctx.staking_info, t1) && match deposit_outcome(
                deposit_after(c1),
                amount,
                t2,
            ) {
                Ok((d2, _)) => paid(t) + d2.user_info.pending_reward >= accrued(
                    ctx.user_info,
                    ctx.staking_info,
                    t1,
                ) && paid(t) + d2.user_info.pending_reward + 1 >= accrued(
                    ctx.user_info,
                    ctx.staking_info,
                    t2,
                ),
                Err(_) => true,
            },
            Err(_) => true,
        },
{
    if let Ok((c1, t)) = claim_outcome(ctx, t1) {
        if t is Some {
            lemma_settle_twice(ctx.user_info, c1.user_info, ctx.staking_info, t1, t2);
        }
    }
}

} // verus!
