//! The instructions of the ledger. Each takes the current timestamp and the
//! records it works on, and either applies all of its changes or rejects the
//! instruction and leaves every record as it was.

use vstd::prelude::*;
use crate::account::{
    ConfigHistory, ConfigHistoryView, Factory, Member, PendingWithdrawal, StakesHistory,
    StakesHistoryView, Staking,
};
use crate::error::StakingError;
use crate::reward::{
    commit_settlement, owed_rewards, pending_rewards, settled_history, settled_member,
    RewardParams,
};

verus! {

/// The platform's part of every claim is `FACTORY_FEE_NUM / FACTORY_FEE_DENOM`.
pub const FACTORY_FEE_NUM: u64 = 3;

pub const FACTORY_FEE_DENOM: u64 = 100;

/// What a claim pays out, and to whom.
#[derive(Clone, Copy, Debug, PartialEq, Eq, Structural)]
pub struct RewardPayout {
    pub amount_to_beneficiary: u64,
    pub factory_fee: u64,
}

/// What `member` is owed by its pool at `now`.
pub open spec fn member_owed(
    staking: Staking,
    config: ConfigHistoryView,
    member: Member,
    history: StakesHistoryView,
    now: u32,
) -> Result<u64, StakingError> {
    owed_rewards(
        config,
        history,
        member.stake_amount,
        staking.stakes_sum,
        member.last_reward_ts,
        now,
    )
}

/// The pool's snapshot store after `member` was settled at `now`.
pub open spec fn history_after(
    staking: Staking,
    config: ConfigHistoryView,
    member: Member,
    history: StakesHistoryView,
    now: u32,
) -> StakesHistoryView {
    settled_history(config, history, staking.stakes_sum, member.last_reward_ts, now)
}

/// A factory that has opened no pool yet.
pub fn initialize(authority: [u8; 32]) -> (factory: Factory)
    ensures
        factory == (Factory { authority, stakings_count: 0 }),
{
    Factory { authority, stakings_count: 0 }
}

/// Why `create_staking` fails, if it does.
pub open spec fn create_staking_error(factory: Factory, reward_params: RewardParams) -> Option<
    StakingError,
> {
    if !reward_params.is_valid() {
        Some(StakingError::InvalidConfiguration)
    } else if factory.stakings_count == u16::MAX {
        Some(StakingError::ArithmeticOverflow)
    } else {
        None
    }
}

/// Opens a pool whose first epoch starts at `ts`. The pool takes the
/// registry's count as its identifier, and the count goes up by one.
pub fn create_staking(
    ts: u32,
    factory: &mut Factory,
    authority: [u8; 32],
    stake_mint: [u8; 32],
    reward_mint: [u8; 32],
    unstake_timelock: u32,
    reward_params: RewardParams,
) -> (result: Result<(Staking, ConfigHistory, StakesHistory), StakingError>)
    ensures
        match create_staking_error(*old(factory), reward_params) {
            Some(e) => result == Err::<(Staking, ConfigHistory, StakesHistory), StakingError>(e)
                && *final(factory) == *old(factory),
            None => {
                &&& result is Ok
                &&& *final(factory) == (Factory {
                    stakings_count: (old(factory).stakings_count + 1) as u16,
                    ..*old(factory)
                })
                &&& result->Ok_0.0 == (Staking {
                    authority,
                    id: old(factory).stakings_count,
                    unstake_timelock,
                    stake_mint,
                    reward_mint,
                    reward_params,
                    stakes_sum: 0,
                })
                &&& result->Ok_0.1@.reward_params == seq![reward_params]
                &&& result->Ok_0.1@.start_timestamps == seq![ts]
                &&& result->Ok_0.2@.stakes_sums == Seq::<Option<u64>>::empty()
                &&& result->Ok_0.2@.offsets == seq![0usize]
                &&& result->Ok_0.1@.wf()
                &&& result->Ok_0.2@.wf_for(result->Ok_0.1@)
                &&& result->Ok_0.0.follows(result->Ok_0.1@)
            },
        },
{
    match reward_params.validate_fields() {
        Err(e) => {
            return Err(e);
        },
        Ok(_) => {},
    }
    let stakings_count: u16 = match factory.stakings_count.checked_add(1) {
        None => {
            return Err(StakingError::ArithmeticOverflow);
        },
        Some(count) => count,
    };
    let staking = Staking {
        authority,
        id: factory.stakings_count,
        unstake_timelock,
        stake_mint,
        reward_mint,
        reward_params,
        stakes_sum: 0,
    };
    let mut config_history = ConfigHistory {
        reward_params: Vec::new(),
        start_timestamps: Vec::new(),
    };
    config_history.reward_params.push(reward_params);
    config_history.start_timestamps.push(ts);
    let mut stakes_history = StakesHistory { stakes_sums: Vec::new(), offsets: Vec::new() };
    stakes_history.offsets.push(0);
    factory.stakings_count = stakings_count;
    Ok((staking, config_history, stakes_history))
}

/// A member of `staking_id` owned by `beneficiary`, as it is registered:
/// without balances and never settled.
pub open spec fn new_member(staking_id: u16, beneficiary: [u8; 32]) -> Member {
    Member {
        staking_id,
        beneficiary,
        available_amount: 0,
        stake_amount: 0,
        pending_amount: 0,
        rewards_amount: 0,
        last_reward_ts: 0,
    }
}

/// The unstake record of a member as it is registered: idle.
pub open spec fn new_withdrawal(staking_id: u16, beneficiary: [u8; 32]) -> PendingWithdrawal {
    PendingWithdrawal { staking_id, beneficiary, active: false, end_ts: 0, amount: 0 }
}

/// Registers `beneficiary` with the pool: a member without balances, never
/// settled, and its idle unstake record.
pub fn register_member(staking: &Staking, beneficiary: [u8; 32]) -> (records: (
    Member,
    PendingWithdrawal,
))
    ensures
        records.0 == new_member(staking.id, beneficiary),
        records.1 == new_withdrawal(staking.id, beneficiary),
{
    (
        Member {
            staking_id: staking.id,
            beneficiary,
            available_amount: 0,
            stake_amount: 0,
            pending_amount: 0,
            rewards_amount: 0,
            last_reward_ts: 0,
        },
        PendingWithdrawal {
            staking_id: staking.id,
            beneficiary,
            active: false,
            end_ts: 0,
            amount: 0,
        },
    )
}

/// The member after a deposit of `amount`, or why the deposit fails.
pub open spec fn deposit_outcome(member: Member, amount: u64) -> Result<Member, StakingError> {
    if member.available_amount + amount > u64::MAX {
        Err(StakingError::ArithmeticOverflow)
    } else {
        Ok(Member { available_amount: (member.available_amount + amount) as u64, ..member })
    }
}

/// Credits `amount` to the member's available balance.
pub fn deposit(member: &mut Member, amount: u64) -> (result: Result<(), StakingError>)
    ensures
        match deposit_outcome(*old(member), amount) {
            Err(e) => result == Err::<(), StakingError>(e) && *final(member) == *old(member),
            Ok(after) => result == Ok::<(), StakingError>(()) && *final(member) == after,
        },
{
    match member.available_amount.checked_add(amount) {
        None => Err(StakingError::ArithmeticOverflow),
        Some(available) => {
            member.available_amount = available;
            Ok(())
        },
    }
}

/// The member after a withdrawal of `amount`, or why the withdrawal fails.
pub open spec fn withdraw_outcome(member: Member, amount: u64) -> Result<Member, StakingError> {
    if member.available_amount < amount {
        Err(StakingError::InsufficientBalance)
    } else {
        Ok(Member { available_amount: (member.available_amount - amount) as u64, ..member })
    }
}

/// Debits `amount` from the member's available balance.
pub fn withdraw(member: &mut Member, amount: u64) -> (result: Result<(), StakingError>)
    ensures
        match withdraw_outcome(*old(member), amount) {
            Err(e) => result == Err::<(), StakingError>(e) && *final(member) == *old(member),
            Ok(after) => result == Ok::<(), StakingError>(()) && *final(member) == after,
        },
{
    if member.available_amount < amount {
        return Err(StakingError::InsufficientBalance);
    }
    member.available_amount = member.available_amount - amount;
    Ok(())
}

/// The pool, the member and the snapshot store after a stake of `amount` at
/// `now`, or why the stake fails.
pub open spec fn stake_outcome(
    staking: Staking,
    config: ConfigHistoryView,
    member: Member,
    history: StakesHistoryView,
    amount: u64,
    now: u32,
) -> Result<(Staking, Member, StakesHistoryView), StakingError> {
    let owed = member_owed(staking, config, member, history, now);
    if member.available_amount < amount {
        Err(StakingError::InsufficientBalance)
    } else if owed is Err || member.rewards_amount + owed->Ok_0 > u64::MAX || member.stake_amount
        + amount > u64::MAX || staking.stakes_sum + amount > u64::MAX {
        Err(StakingError::ArithmeticOverflow)
    } else {
        Ok(
            (
                Staking { stakes_sum: (staking.stakes_sum + amount) as u64, ..staking },
                Member {
                    available_amount: (member.available_amount - amount) as u64,
                    stake_amount: (member.stake_amount + amount) as u64,
                    rewards_amount: (member.rewards_amount + owed->Ok_0) as u64,
                    ..settled_member(member, config, now)
                },
                history_after(staking, config, member, history, now),
            ),
        )
    }
}

/// Settles the member at `ts`, then moves `amount` from its available to its
/// staked balance and adds it to the pool's aggregate.
pub fn stake(
    ts: u32,
    staking: &mut Staking,
    config_history: &ConfigHistory,
    member: &mut Member,
    stakes_history: &mut StakesHistory,
    amount: u64,
) -> (result: Result<(), StakingError>)
    requires
        config_history@.wf(),
        old(stakes_history)@.wf_for(config_history@),
    ensures
        match stake_outcome(
            *old(staking),
            config_history@,
            *old(member),
            old(stakes_history)@,
            amount,
            ts,
        ) {
            Err(e) => {
                &&& result == Err::<(), StakingError>(e)
                &&& *final(staking) == *old(staking)
                &&& *final(member) == *old(member)
                &&& final(stakes_history)@ == old(stakes_history)@
            },
            Ok(after) => {
                &&& result == Ok::<(), StakingError>(())
                &&& *final(staking) == after.0
                &&& *final(member) == after.1
                &&& final(stakes_history)@ == after.2
            },
        },
{
    if member.available_amount < amount {
        return Err(StakingError::InsufficientBalance);
    }
    let rewards: u64 = match pending_rewards(ts, staking, config_history, member, stakes_history) {
        Err(e) => {
            return Err(e);
        },
        Ok(rewards) => rewards,
    };
    let rewards_amount: Option<u64> = member.rewards_amount.checked_add(rewards);
    let stake_amount: Option<u64> = member.stake_amount.checked_add(amount);
    let stakes_sum: Option<u64> = staking.stakes_sum.checked_add(amount);
    match (rewards_amount, stake_amount, stakes_sum) {
        (Some(rewards_amount), Some(stake_amount), Some(stakes_sum)) => {
            commit_settlement(ts, staking, config_history, member, stakes_history);
            member.rewards_amount = rewards_amount;
            member.available_amount = member.available_amount - amount;
            member.stake_amount = stake_amount;
            staking.stakes_sum = stakes_sum;
            Ok(())
        },
        _ => Err(StakingError::ArithmeticOverflow),
    }
}

/// How a claim of `total` is split: the platform takes its part, rounded
/// down, and the member the rest.
pub open spec fn split_reward(total: u64) -> RewardPayout {
    RewardPayout {
        amount_to_beneficiary: (total - total * FACTORY_FEE_NUM / (FACTORY_FEE_DENOM as int)) as u64,
        factory_fee: (total * FACTORY_FEE_NUM / (FACTORY_FEE_DENOM as int)) as u64,
    }
}

/// What a claim at `now` pays out, with the member and the snapshot store
/// after it, or why the claim fails.
pub open spec fn claim_reward_outcome(
    staking: Staking,
    config: ConfigHistoryView,
    member: Member,
    history: StakesHistoryView,
    now: u32,
) -> Result<(RewardPayout, Member, StakesHistoryView), StakingError> {
    let owed = member_owed(staking, config, member, history, now);
    if owed is Err || member.rewards_amount + owed->Ok_0 > u64::MAX {
        Err(StakingError::ArithmeticOverflow)
    } else if member.rewards_amount + owed->Ok_0 == 0 {
        Err(StakingError::NothingToClaim)
    } else if (member.rewards_amount + owed->Ok_0) * FACTORY_FEE_NUM > u64::MAX {
        Err(StakingError::ArithmeticOverflow)
    } else {
        Ok(
            (
                split_reward((member.rewards_amount + owed->Ok_0) as u64),
                Member { rewards_amount: 0, ..settled_member(member, config, now) },
                history_after(staking, config, member, history, now),
            ),
        )
    }
}

/// Settles the member at `ts` and pays out all of its unclaimed reward,
/// split between the member and the platform.
pub fn claim_reward(
    ts: u32,
    staking: &Staking,
    config_history: &ConfigHistory,
    member: &mut Member,
    stakes_history: &mut StakesHistory,
) -> (result: Result<RewardPayout, StakingError>)
    requires
        config_history@.wf(),
        old(stakes_history)@.wf_for(config_history@),
    ensures
        match claim_reward_outcome(
            *staking,
            config_history@,
            *old(member),
            old(stakes_history)@,
            ts,
        ) {
            Err(e) => {
                &&& result == Err::<RewardPayout, StakingError>(e)
                &&& *final(member) == *old(member)
                &&& final(stakes_history)@ == old(stakes_history)@
            },
            Ok(after) => {
                &&& result == Ok::<RewardPayout, StakingError>(after.0)
                &&& *final(member) == after.1
                &&& final(stakes_history)@ == after.2
            },
        },
{
    let rewards: u64 = match pending_rewards(ts, staking, config_history, member, stakes_history) {
        Err(e) => {
            return Err(e);
        },
        Ok(rewards) => rewards,
    };
    let total: u64 = match member.rewards_amount.checked_add(rewards) {
        None => {
            return Err(StakingError::ArithmeticOverflow);
        },
        Some(total) => total,
    };
    if total == 0 {
        return Err(StakingError::NothingToClaim);
    }
    let factory_fee: u64 = match total.checked_mul(FACTORY_FEE_NUM) {
        None => {
            return Err(StakingError::ArithmeticOverflow);
        },
        Some(scaled) => scaled / FACTORY_FEE_DENOM,
    };
    let amount_to_beneficiary: u64 = total - factory_fee;
    commit_settlement(ts, staking, config_history, member, stakes_history);
    member.rewards_amount = 0;
    Ok(RewardPayout { amount_to_beneficiary, factory_fee })
}

/// The pool, the member, its unstake record and the snapshot store after an
/// unstake of `amount` was started at `now`, or why that fails.
pub open spec fn start_unstake_outcome(
    staking: Staking,
    config: ConfigHistoryView,
    member: Member,
    pending_withdrawal: PendingWithdrawal,
    history: StakesHistoryView,
    amount: u64,
    now: u32,
) -> Result<(Staking, Member, PendingWithdrawal, StakesHistoryView), StakingError> {
    let owed = member_owed(staking, config, member, history, now);
    if pending_withdrawal.active {
        Err(StakingError::UnstakeAlreadyActive)
    } else if member.stake_amount < amount {
        Err(StakingError::InsufficientBalance)
    } else if owed is Err || member.rewards_amount + owed->Ok_0 > u64::MAX || now
        + staking.unstake_timelock > u32::MAX || staking.stakes_sum < amount
        || member.pending_amount + amount > u64::MAX {
        Err(StakingError::ArithmeticOverflow)
    } else {
        Ok(
            (
                Staking { stakes_sum: (staking.stakes_sum - amount) as u64, ..staking },
                Member {
                    stake_amount: (member.stake_amount - amount) as u64,
                    pending_amount: (member.pending_amount + amount) as u64,
                    rewards_amount: (member.rewards_amount + owed->Ok_0) as u64,
                    ..settled_member(member, config, now)
                },
                PendingWithdrawal {
                    active: true,
                    end_ts: (now + staking.unstake_timelock) as u32,
                    amount,
                    ..pending_withdrawal
                },
                history_after(staking, config, member, history, now),
            ),
        )
    }
}

/// Settles the member at `ts`, then moves `amount` from its staked to its
/// pending balance, takes it out of the pool's aggregate and starts the
/// timelock.
pub fn start_unstake(
    ts: u32,
    staking: &mut Staking,
    config_history: &ConfigHistory,
    member: &mut Member,
    pending_withdrawal: &mut PendingWithdrawal,
    stakes_history: &mut StakesHistory,
    amount: u64,
) -> (result: Result<(), StakingError>)
    requires
        config_history@.wf(),
        old(stakes_history)@.wf_for(config_history@),
    ensures
        match start_unstake_outcome(
            *old(staking),
            config_history@,
            *old(member),
            *old(pending_withdrawal),
            old(stakes_history)@,
            amount,
            ts,
        ) {
            Err(e) => {
                &&& result == Err::<(), StakingError>(e)
                &&& *final(staking) == *old(staking)
                &&& *final(member) == *old(member)
                &&& *final(pending_withdrawal) == *old(pending_withdrawal)
                &&& final(stakes_history)@ == old(stakes_history)@
            },
            Ok(after) => {
                &&& result == Ok::<(), StakingError>(())
                &&& *final(staking) == after.0
                &&& *final(member) == after.1
                &&& *final(pending_withdrawal) == after.2
                &&& final(stakes_history)@ == after.3
            },
        },
{
    if pending_withdrawal.active {
        return Err(StakingError::UnstakeAlreadyActive);
    }
    if member.stake_amount < amount {
        return Err(StakingError::InsufficientBalance);
    }
    let rewards: u64 = match pending_rewards(ts, staking, config_history, member, stakes_history) {
        Err(e) => {
            return Err(e);
        },
        Ok(rewards) => rewards,
    };
    let rewards_amount: Option<u64> = member.rewards_amount.checked_add(rewards);
    let end_ts: Option<u32> = ts.checked_add(staking.unstake_timelock);
    let stakes_sum: Option<u64> = staking.stakes_sum.checked_sub(amount);
    let pending_amount: Option<u64> = member.pending_amount.checked_add(amount);
    match (rewards_amount, end_ts, stakes_sum, pending_amount) {
        (Some(rewards_amount), Some(end_ts), Some(stakes_sum), Some(pending_amount)) => {
            commit_settlement(ts, staking, config_history, member, stakes_history);
            member.rewards_amount = rewards_amount;
            member.stake_amount = member.stake_amount - amount;
            member.pending_amount = pending_amount;
            staking.stakes_sum = stakes_sum;
            pending_withdrawal.active = true;
            pending_withdrawal.end_ts = end_ts;
            pending_withdrawal.amount = amount;
            Ok(())
        },
        _ => Err(StakingError::ArithmeticOverflow),
    }
}

/// The member and its unstake record after the unstake was ended at `now`,
/// or why that fails.
pub open spec fn end_unstake_outcome(
    member: Member,
    pending_withdrawal: PendingWithdrawal,
    now: u32,
) -> Result<(Member, PendingWithdrawal), StakingError> {
    if !pending_withdrawal.active {
        Err(StakingError::UnstakeNotActive)
    } else if now < pending_withdrawal.end_ts {
        Err(StakingError::UnstakeTimelockNotElapsed)
    } else if member.pending_amount < pending_withdrawal.amount || member.available_amount
        + pending_withdrawal.amount > u64::MAX {
        Err(StakingError::ArithmeticOverflow)
    } else {
        Ok(
            (
                Member {
                    available_amount: (member.available_amount + pending_withdrawal.amount) as u64,
                    pending_amount: (member.pending_amount - pending_withdrawal.amount) as u64,
                    ..member
                },
                PendingWithdrawal { active: false, ..pending_withdrawal },
            ),
        )
    }
}

/// Once the timelock has run out, moves the unstaked amount from the
/// member's pending to its available balance. No reward is settled.
pub fn end_unstake(ts: u32, member: &mut Member, pending_withdrawal: &mut PendingWithdrawal) -> (result:
    Result<(), StakingError>)
    ensures
        match end_unstake_outcome(*old(member), *old(pending_withdrawal), ts) {
            Err(e) => {
                &&& result == Err::<(), StakingError>(e)
                &&& *final(member) == *old(member)
                &&& *final(pending_withdrawal) == *old(pending_withdrawal)
            },
            Ok(after) => {
                &&& result == Ok::<(), StakingError>(())
                &&& *final(member) == after.0
                &&& *final(pending_withdrawal) == after.1
            },
        },
{
    if !pending_withdrawal.active {
        return Err(StakingError::UnstakeNotActive);
    }
    if ts < pending_withdrawal.end_ts {
        return Err(StakingError::UnstakeTimelockNotElapsed);
    }
    let pending_amount: Option<u64> = member.pending_amount.checked_sub(pending_withdrawal.amount);
    let available_amount: Option<u64> = member.available_amount.checked_add(
        pending_withdrawal.amount,
    );
    match (pending_amount, available_amount) {
        (Some(pending_amount), Some(available_amount)) => {
            member.pending_amount = pending_amount;
            member.available_amount = available_amount;
            pending_withdrawal.active = false;
            Ok(())
        },
        _ => Err(StakingError::ArithmeticOverflow),
    }
}

/// Where the epoch that follows a reconfiguration at `now` starts: at `now`,
/// or, after a proportional epoch, at the end of the period that `now` lies
/// in. `None` where that instant is beyond the range of `u32`.
pub open spec fn next_epoch_start(outgoing: RewardParams, last_start: u32, now: u32) -> Option<
    u32,
> {
    match outgoing {
        RewardParams::Proportional { reward_period, .. } => {
            let into_period = (now - last_start) % (reward_period as int);
            if into_period == 0 {
                Some(now)
            } else if now + reward_period - into_period > u32::MAX {
                None
            } else {
                Some((now + reward_period - into_period) as u32)
            }
        },
        _ => Some(now),
    }
}

/// How many periods an epoch that ran from `last_start` to `next_start`
/// held: none unless it was proportional.
pub open spec fn periods_between(outgoing: RewardParams, last_start: u32, next_start: u32) -> int {
    match outgoing {
        RewardParams::Proportional { reward_period, .. } => (next_start - last_start) / (
        reward_period as int),
        _ => 0,
    }
}

/// Whether a reconfiguration at `now` rewrites the last epoch in place: it
/// does while that epoch has not run for any time.
pub open spec fn rewrites_last_epoch(config: ConfigHistoryView, now: u32) -> bool {
    now <= config.start_timestamps.last()
}

/// Why `change_config` with new parameters fails, if it does.
pub open spec fn change_config_error(
    config: ConfigHistoryView,
    history: StakesHistoryView,
    new_reward_params: RewardParams,
    now: u32,
) -> Option<StakingError> {
    let outgoing = config.reward_params.last();
    let last_start = config.start_timestamps.last();
    if !new_reward_params.same_kind(outgoing) || !new_reward_params.is_valid() {
        Some(StakingError::InvalidConfiguration)
    } else if rewrites_last_epoch(config, now) {
        None
    } else {
        match next_epoch_start(outgoing, last_start, now) {
            None => Some(StakingError::ArithmeticOverflow),
            Some(next_start) => if history.offsets.last() + periods_between(
                outgoing,
                last_start,
                next_start,
            ) > usize::MAX {
                Some(StakingError::ArithmeticOverflow)
            } else {
                None
            },
        }
    }
}

/// The timeline after a successful reconfiguration at `now`.
pub open spec fn reconfigured(
    config: ConfigHistoryView,
    new_reward_params: RewardParams,
    now: u32,
) -> ConfigHistoryView {
    if rewrites_last_epoch(config, now) {
        ConfigHistoryView {
            reward_params: config.reward_params.update(config.epochs() - 1, new_reward_params),
            start_timestamps: config.start_timestamps,
        }
    } else {
        ConfigHistoryView {
            reward_params: config.reward_params.push(new_reward_params),
            start_timestamps: config.start_timestamps.push(
                next_epoch_start(
                    config.reward_params.last(),
                    config.start_timestamps.last(),
                    now,
                )->0,
            ),
        }
    }
}

/// The snapshot store after a successful reconfiguration at `now`: a new
/// epoch's offset is the last one plus the periods of the epoch that it
/// closes.
pub open spec fn reconfigured_history(
    config: ConfigHistoryView,
    history: StakesHistoryView,
    now: u32,
) -> StakesHistoryView {
    if rewrites_last_epoch(config, now) {
        history
    } else {
        let outgoing = config.reward_params.last();
        let last_start = config.start_timestamps.last();
        StakesHistoryView {
            stakes_sums: history.stakes_sums,
            offsets: history.offsets.push(
                (history.offsets.last() + periods_between(
                    outgoing,
                    last_start,
                    next_epoch_start(outgoing, last_start, now)->0,
                )) as usize,
            ),
        }
    }
}

/// Changes the numbers of the pool's formula from `ts` on; `None` changes
/// nothing. The kind of the formula cannot change. While the last epoch has
/// not run for any time it is rewritten in place; else a new epoch is
/// opened.
pub fn change_config(
    ts: u32,
    staking: &mut Staking,
    config_history: &mut ConfigHistory,
    stakes_history: &mut StakesHistory,
    new_reward_params: Option<RewardParams>,
) -> (result: Result<(), StakingError>)
    requires
        old(config_history)@.wf(),
        old(stakes_history)@.wf_for(old(config_history)@),
    ensures
        final(config_history)@.wf(),
        final(stakes_history)@.wf_for(final(config_history)@),
        new_reward_params is Some && !new_reward_params->0.same_kind(
            old(config_history)@.reward_params.last(),
        ) ==> result == Err::<(), StakingError>(StakingError::InvalidConfiguration)
            && *final(staking) == *old(staking)
            && final(config_history)@ == old(config_history)@
            && final(stakes_history)@ == old(stakes_history)@,
        match new_reward_params {
            None => {
                &&& result == Ok::<(), StakingError>(())
                &&& *final(staking) == *old(staking)
                &&& final(config_history)@ == old(config_history)@
                &&& final(stakes_history)@ == old(stakes_history)@
            },
            Some(params) => match change_config_error(
                old(config_history)@,
                old(stakes_history)@,
                params,
                ts,
            ) {
                Some(e) => {
                    &&& result == Err::<(), StakingError>(e)
                    &&& *final(staking) == *old(staking)
                    &&& final(config_history)@ == old(config_history)@
                    &&& final(stakes_history)@ == old(stakes_history)@
                },
                None => {
                    &&& result == Ok::<(), StakingError>(())
                    &&& *final(staking) == (Staking { reward_params: params, ..*old(staking) })
                    &&& final(config_history)@ == reconfigured(old(config_history)@, params, ts)
                    &&& final(stakes_history)@ == reconfigured_history(
                        old(config_history)@,
                        old(stakes_history)@,
                        ts,
                    )
                    &&& final(staking).follows(final(config_history)@)
                },
            },
        },
{
    let new_reward_params: RewardParams = match new_reward_params {
        None => {
            return Ok(());
        },
        Some(params) => params,
    };
    let last: usize = config_history.reward_params.len() - 1;
    let outgoing: RewardParams = config_history.reward_params[last];
    let last_start: u32 = config_history.start_timestamps[last];
    if !new_reward_params.has_same_kind(&outgoing) {
        return Err(StakingError::InvalidConfiguration);
    }
    match new_reward_params.validate_fields() {
        Err(e) => {
            return Err(e);
        },
        Ok(_) => {},
    }
    if ts <= last_start {
        config_history.reward_params[last] = new_reward_params;
        staking.reward_params = new_reward_params;
        return Ok(());
    }
    let next_start: Option<u32> = match outgoing {
        RewardParams::Proportional { reward_period, .. } => {
            let into_period: u32 = (ts - last_start) % reward_period;
            if into_period == 0 {
                Some(ts)
            } else {
                ts.checked_add(reward_period - into_period)
            }
        },
        _ => Some(ts),
    };
    let next_start: u32 = match next_start {
        None => {
            return Err(StakingError::ArithmeticOverflow);
        },
        Some(next_start) => next_start,
    };
    let periods: u32 = match outgoing {
        RewardParams::Proportional { reward_period, .. } => (next_start - last_start)
            / reward_period,
        _ => 0,
    };
    let offset: usize = match stakes_history.offsets[last].checked_add(periods as usize) {
        None => {
            return Err(StakingError::ArithmeticOverflow);
        },
        Some(offset) => offset,
    };
    config_history.reward_params.push(new_reward_params);
    config_history.start_timestamps.push(next_start);
    stakes_history.offsets.push(offset);
    staking.reward_params = new_reward_params;
    assert(stakes_history@ == reconfigured_history(
        old(config_history)@,
        old(stakes_history)@,
        ts,
    ));
    Ok(())
}

} // verus!
