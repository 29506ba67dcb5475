//! A single pool with one reward rule and no epochs: a member may claim once
//! per reward period, either a percentage of its stake or its share of a
//! fixed amount. Balances are token accounts kept elsewhere; this module
//! holds the pool's bookkeeping and the rules.

use vstd::prelude::*;

verus! {

/// The reward is `reward_amount` percent of the member's stake.
pub const REWARD_TYPE_PERCENT: u8 = 0;

/// What a percentage is taken of.
pub const PERCENT_DENOM: u64 = 100;

/// Why an instruction of the registry was rejected.
#[derive(Clone, Copy, Debug, PartialEq, Eq, Structural)]
pub enum RegistryError {
    /// The unstake timelock has not yet expired.
    UnstakeTimelock,
    /// Less than a reward period has passed since the last claim.
    ClaimTimelock,
    /// The withdrawal was already paid out.
    WithdrawalBurned,
    /// A sum, difference or product left the integer range.
    Overflow,
    /// A share of an aggregate stake of zero was asked for.
    DivisionByZero,
}

/// The pool.
#[derive(Clone, Copy, Debug)]
pub struct Registrar {
    pub nonce: u8,
    pub withdrawal_timelock: i64,
    pub reward_queue: [u8; 32],
    pub mint: [u8; 32],
    pub reward_vault: [u8; 32],
    pub reward_period: i64,
    /// `REWARD_TYPE_PERCENT`, or anything else for a share of `reward_amount`
    /// in proportion to the member's part of all stakes.
    pub reward_type: u8,
    pub reward_amount: u64,
    pub stakes_sum: u64,
}

/// The token accounts that hold a member's balances.
#[derive(Clone, Copy, Debug)]
pub struct BalanceSandbox {
    pub available: [u8; 32],
    pub stake: [u8; 32],
    pub pending: [u8; 32],
}

/// A participant of the pool.
#[derive(Clone, Copy, Debug)]
pub struct Member {
    pub registrar: [u8; 32],
    pub beneficiary: [u8; 32],
    pub metadata: [u8; 32],
    pub balances: BalanceSandbox,
    pub last_reward_ts: i64,
    pub nonce: u8,
}

/// An unstake under way, or, once burned, paid out.
#[derive(Clone, Copy, Debug)]
pub struct PendingWithdrawal {
    pub registrar: [u8; 32],
    pub member: [u8; 32],
    pub burned: bool,
    pub start_ts: i64,
    pub end_ts: i64,
    pub amount: u64,
}

/// The key of all zeros, which stands for no account.
pub open spec fn no_key() -> [u8; 32] {
    vstd::array::spec_array_fill_for_copy_type::<u8, 32>(0u8)
}

/// A pool without stakes.
pub fn initialize(
    nonce: u8,
    mint: [u8; 32],
    reward_vault: [u8; 32],
    withdrawal_timelock: i64,
    reward_period: i64,
    reward_type: u8,
    reward_amount: u64,
) -> (registrar: Registrar)
    ensures
        registrar == (Registrar {
            nonce,
            withdrawal_timelock,
            reward_queue: no_key(),
            mint,
            reward_vault,
            reward_period,
            reward_type,
            reward_amount,
            stakes_sum: 0,
        }),
{
    Registrar {
        nonce,
        withdrawal_timelock,
        reward_queue: [0u8; 32],
        mint,
        reward_vault,
        reward_period,
        reward_type,
        reward_amount,
        stakes_sum: 0,
    }
}

/// Replaces the reward amount, the reward period, both or neither.
pub fn change_config(
    registrar: &mut Registrar,
    reward_amount: Option<u64>,
    reward_period: Option<i64>,
)
    ensures
        *final(registrar) == (Registrar {
            reward_amount: match reward_amount {
                Some(amount) => amount,
                None => old(registrar).reward_amount,
            },
            reward_period: match reward_period {
                Some(period) => period,
                None => old(registrar).reward_period,
            },
            ..*old(registrar)
        }),
{
    if let Some(amount) = reward_amount {
        registrar.reward_amount = amount;
    }
    if let Some(period) = reward_period {
        registrar.reward_period = period;
    }
}

/// A member that has never claimed.
pub fn create_member(
    registrar: [u8; 32],
    beneficiary: [u8; 32],
    balances: BalanceSandbox,
    nonce: u8,
) -> (member: Member)
    ensures
        member == (Member {
            registrar,
            beneficiary,
            metadata: no_key(),
            balances,
            last_reward_ts: 0,
            nonce,
        }),
{
    Member { registrar, beneficiary, metadata: [0u8; 32], balances, last_reward_ts: 0, nonce }
}

/// Adds `amount` to the pool's aggregate stake.
pub fn stake(registrar: &mut Registrar, amount: u64) -> (result: Result<(), RegistryError>)
    ensures
        old(registrar).stakes_sum + amount > u64::MAX ==> result == Err::<(), RegistryError>(
            RegistryError::Overflow,
        ) && *final(registrar) == *old(registrar),
        old(registrar).stakes_sum + amount <= u64::MAX ==> result == Ok::<(), RegistryError>(())
            && *final(registrar) == (Registrar {
            stakes_sum: (old(registrar).stakes_sum + amount) as u64,
            ..*old(registrar)
        }),
{
    match registrar.stakes_sum.checked_add(amount) {
        None => Err(RegistryError::Overflow),
        Some(stakes_sum) => {
            registrar.stakes_sum = stakes_sum;
            Ok(())
        },
    }
}

/// What a member with a stake of `staked` may claim at `now`, or why it may
/// not claim.
pub open spec fn claim_outcome(registrar: Registrar, member: Member, staked: u64, now: i64) -> Result<
    u64,
    RegistryError,
> {
    if now - member.last_reward_ts < i64::MIN || now - member.last_reward_ts > i64::MAX {
        Err(RegistryError::Overflow)
    } else if now - member.last_reward_ts < registrar.reward_period {
        Err(RegistryError::ClaimTimelock)
    } else if staked * registrar.reward_amount > u64::MAX {
        Err(RegistryError::Overflow)
    } else if registrar.reward_type == REWARD_TYPE_PERCENT {
        Ok((staked * registrar.reward_amount / (PERCENT_DENOM as int)) as u64)
    } else if registrar.stakes_sum == 0 {
        Err(RegistryError::DivisionByZero)
    } else {
        Ok((staked * registrar.reward_amount / (registrar.stakes_sum as int)) as u64)
    }
}

/// The reward that the member may take out of the reward vault at `ts`.
pub fn claim_reward(registrar: &Registrar, member: &Member, staked: u64, ts: i64) -> (result:
    Result<u64, RegistryError>)
    ensures
        result == claim_outcome(*registrar, *member, staked, ts),
{
    let elapsed: i64 = match ts.checked_sub(member.last_reward_ts) {
        None => {
            return Err(RegistryError::Overflow);
        },
        Some(elapsed) => elapsed,
    };
    if elapsed < registrar.reward_period {
        return Err(RegistryError::ClaimTimelock);
    }
    let product: u64 = match staked.checked_mul(registrar.reward_amount) {
        None => {
            return Err(RegistryError::Overflow);
        },
        Some(product) => product,
    };
    if registrar.reward_type == REWARD_TYPE_PERCENT {
        Ok(product / PERCENT_DENOM)
    } else if registrar.stakes_sum == 0 {
        Err(RegistryError::DivisionByZero)
    } else {
        Ok(product / registrar.stakes_sum)
    }
}

/// The pool and the withdrawal after an unstake of `amount` was started at
/// `now`, or why that fails.
pub open spec fn start_unstake_outcome(
    registrar: Registrar,
    registrar_key: [u8; 32],
    member_key: [u8; 32],
    amount: u64,
    now: i64,
) -> Result<(Registrar, PendingWithdrawal), RegistryError> {
    if now + registrar.withdrawal_timelock > i64::MAX || now + registrar.withdrawal_timelock
        < i64::MIN || registrar.stakes_sum < amount {
        Err(RegistryError::Overflow)
    } else {
        Ok(
            (
                Registrar { stakes_sum: (registrar.stakes_sum - amount) as u64, ..registrar },
                PendingWithdrawal {
                    registrar: registrar_key,
                    member: member_key,
                    burned: false,
                    start_ts: now,
                    end_ts: (now + registrar.withdrawal_timelock) as i64,
                    amount,
                },
            ),
        )
    }
}

/// Takes `amount` out of the pool's aggregate stake and opens the withdrawal
/// that unlocks it after the timelock.
pub fn start_unstake(
    registrar: &mut Registrar,
    registrar_key: [u8; 32],
    member_key: [u8; 32],
    amount: u64,
    ts: i64,
) -> (result: Result<PendingWithdrawal, RegistryError>)
    ensures
        match start_unstake_outcome(*old(registrar), registrar_key, member_key, amount, ts) {
            Err(e) => {
                &&& result == Err::<PendingWithdrawal, RegistryError>(e)
                &&& *final(registrar) == *old(registrar)
            },
            Ok(after) => {
                &&& result == Ok::<PendingWithdrawal, RegistryError>(after.1)
                &&& *final(registrar) == after.0
            },
        },
{
    let end_ts: Option<i64> = ts.checked_add(registrar.withdrawal_timelock);
    let stakes_sum: Option<u64> = registrar.stakes_sum.checked_sub(amount);
    match (end_ts, stakes_sum) {
        (Some(end_ts), Some(stakes_sum)) => {
            registrar.stakes_sum = stakes_sum;
            Ok(
                PendingWithdrawal {
                    registrar: registrar_key,
                    member: member_key,
                    burned: false,
                    start_ts: ts,
                    end_ts,
                    amount,
                },
            )
        },
        _ => Err(RegistryError::Overflow),
    }
}

/// The amount paid out and the withdrawal after it was ended at `now`, or
/// why that fails.
pub open spec fn end_unstake_outcome(pending_withdrawal: PendingWithdrawal, now: i64) -> Result<
    (u64, PendingWithdrawal),
    RegistryError,
> {
    if pending_withdrawal.burned {
        Err(RegistryError::WithdrawalBurned)
    } else if pending_withdrawal.end_ts > now {
        Err(RegistryError::UnstakeTimelock)
    } else {
        Ok((pending_withdrawal.amount, PendingWithdrawal { burned: true, ..pending_withdrawal }))
    }
}

/// Pays the withdrawal out once its timelock has run out: returns the amount
/// that moves from the pending to the available balance and burns the
/// withdrawal.
pub fn end_unstake(pending_withdrawal: &mut PendingWithdrawal, ts: i64) -> (result: Result<
    u64,
    RegistryError,
>)
    ensures
        match end_unstake_outcome(*old(pending_withdrawal), ts) {
            Err(e) => {
                &&& result == Err::<u64, RegistryError>(e)
                &&& *final(pending_withdrawal) == *old(pending_withdrawal)
            },
            Ok(after) => {
                &&& result == Ok::<u64, RegistryError>(after.0)
                &&& *final(pending_withdrawal) == after.1
            },
        },
{
    if pending_withdrawal.burned {
        return Err(RegistryError::WithdrawalBurned);
    }
    if pending_withdrawal.end_ts > ts {
        return Err(RegistryError::UnstakeTimelock);
    }
    pending_withdrawal.burned = true;
    Ok(pending_withdrawal.amount)
}

} // verus!
