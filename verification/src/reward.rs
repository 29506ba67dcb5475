//! The reward formulas and the settlement of a member over the epochs of
//! its pool.
//!
//! An epoch's window for a member is the part of the epoch between the
//! member's cursor and now. Interest accrues by the second. A proportional
//! epoch pays for each of its periods that is completed within the window,
//! against the aggregate stake recorded for that period; the first
//! settlement to span a period records the pool's aggregate of that moment.
//! A fixed epoch pays for each whole period that fits into the window. After
//! a settlement the cursor stands at the end of the last window that was
//! open.

use vstd::prelude::*;
use crate::account::{
    ConfigHistory, ConfigHistoryView, Member, StakesHistory, StakesHistoryView, Staking,
};
use crate::error::StakingError;

verus! {

/// A reward policy. The kind of a pool's policy never changes; its numbers may.
#[derive(Clone, Copy, Debug, PartialEq, Eq, Structural)]
pub enum RewardParams {
    /// Continuous accrual: stake x seconds x `num` / `denom`.
    InterestRate { num: u64, denom: u64 },
    /// `total_amount` is shared out once per completed period, each stake
    /// against the aggregate stake recorded for that period.
    Proportional { total_amount: u64, reward_period: u32 },
    /// `reward_amount` per completed period to a stake of at least
    /// `required_amount`.
    Fixed { required_amount: u64, required_period: u32, reward_amount: u64 },
}

impl Default for RewardParams {
    fn default() -> (params: Self)
        ensures
            params == (RewardParams::Fixed {
                required_amount: 0,
                required_period: 0,
                reward_amount: 0,
            }),
    {
        RewardParams::Fixed { required_amount: 0, required_period: 0, reward_amount: 0 }
    }
}

impl RewardParams {
    /// No zero denominator and no zero period.
    pub open spec fn is_valid(self) -> bool {
        match self {
            RewardParams::InterestRate { denom, .. } => denom != 0,
            RewardParams::Proportional { reward_period, .. } => reward_period != 0,
            RewardParams::Fixed { required_period, .. } => required_period != 0,
        }
    }

    /// Both are of the same variant.
    pub open spec fn same_kind(self, other: RewardParams) -> bool {
        match (self, other) {
            (RewardParams::InterestRate { .. }, RewardParams::InterestRate { .. }) => true,
            (RewardParams::Proportional { .. }, RewardParams::Proportional { .. }) => true,
            (RewardParams::Fixed { .. }, RewardParams::Fixed { .. }) => true,
            _ => false,
        }
    }

    /// Rejects a zero denominator or period.
    pub fn validate_fields(&self) -> (result: Result<(), StakingError>)
        ensures
            self.is_valid() ==> result == Ok::<(), StakingError>(()),
            !self.is_valid() ==> result == Err::<(), StakingError>(
                StakingError::InvalidConfiguration,
            ),
    {
        match self {
            RewardParams::InterestRate { denom, .. } => {
                if *denom == 0 {
                    return Err(StakingError::InvalidConfiguration);
                }
            },
            RewardParams::Proportional { reward_period, .. } => {
                if *reward_period == 0 {
                    return Err(StakingError::InvalidConfiguration);
                }
            },
            RewardParams::Fixed { required_period, .. } => {
                if *required_period == 0 {
                    return Err(StakingError::InvalidConfiguration);
                }
            },
        }
        Ok(())
    }

    /// Whether both are of the same variant.
    pub fn has_same_kind(&self, other: &RewardParams) -> (same: bool)
        ensures
            same == self.same_kind(*other),
    {
        match (self, other) {
            (RewardParams::InterestRate { .. }, RewardParams::InterestRate { .. }) => true,
            (RewardParams::Proportional { .. }, RewardParams::Proportional { .. }) => true,
            (RewardParams::Fixed { .. }, RewardParams::Fixed { .. }) => true,
            _ => false,
        }
    }
}

/// Interest on `staked` over `elapsed` seconds; `None` where a product leaves
/// the range of `u64`.
pub open spec fn interest_reward(staked: u64, elapsed: u32, num: u64, denom: u64) -> Option<u64> {
    if staked * elapsed > u64::MAX || staked * elapsed * num > u64::MAX {
        None
    } else {
        Some((staked * elapsed * num / (denom as int)) as u64)
    }
}

/// The aggregate stake that period `period` is divided by: the recorded one,
/// or, where none is recorded yet, the pool's current aggregate.
pub open spec fn period_divisor(snapshots: Seq<Option<u64>>, current: u64, period: int) -> u64 {
    if 0 <= period < snapshots.len() && snapshots[period] is Some {
        snapshots[period]->0
    } else {
        current
    }
}

/// A stake's part of `total` in one period; nothing where the divisor is 0.
pub open spec fn period_share(staked: u64, total: u64, divisor: u64) -> int {
    if divisor == 0 {
        0
    } else {
        staked * total / (divisor as int)
    }
}

/// The shares of the periods `lo <= period < hi`, added up.
pub open spec fn shares_sum(
    staked: u64,
    total: u64,
    snapshots: Seq<Option<u64>>,
    current: u64,
    lo: int,
    hi: int,
) -> int
    decreases hi - lo,
{
    if hi <= lo {
        0
    } else {
        shares_sum(staked, total, snapshots, current, lo, hi - 1) + period_share(
            staked,
            total,
            period_divisor(snapshots, current, hi - 1),
        )
    }
}

/// The proportional reward for the periods `lo <= period < hi`; `None` where
/// the product or the sum leaves the range of `u64`.
pub open spec fn proportional_reward(
    staked: u64,
    total: u64,
    snapshots: Seq<Option<u64>>,
    current: u64,
    lo: int,
    hi: int,
) -> Option<u64> {
    if hi <= lo {
        Some(0)
    } else if staked * total > u64::MAX || shares_sum(staked, total, snapshots, current, lo, hi)
        > u64::MAX {
        None
    } else {
        Some(shares_sum(staked, total, snapshots, current, lo, hi) as u64)
    }
}

/// `reward` for each whole `period` within `elapsed` seconds, to a stake of
/// at least `required`.
pub open spec fn fixed_reward(
    staked: u64,
    required: u64,
    reward: u64,
    period: u32,
    elapsed: u32,
) -> Option<u64> {
    if staked < required {
        Some(0)
    } else if reward * (elapsed / period) > u64::MAX {
        None
    } else {
        Some((reward * (elapsed / period)) as u64)
    }
}

/// The first and one past the last period of an epoch that complete within
/// `start < t <= end`, counted from the epoch's start and shifted by the
/// epoch's offset.
pub open spec fn completed_periods(
    reward_period: u32,
    offset: usize,
    config_start: u32,
    start: u32,
    end: u32,
) -> (int, int) {
    (
        offset + (start - config_start) / (reward_period as int),
        offset + (end - config_start) / (reward_period as int),
    )
}

/// What a formula yields for the non-empty window from `start` to `end` of
/// an epoch that began at `config_start`.
pub open spec fn epoch_reward(
    params: RewardParams,
    staked: u64,
    current: u64,
    snapshots: Seq<Option<u64>>,
    offset: usize,
    config_start: u32,
    start: u32,
    end: u32,
) -> Option<u64> {
    match params {
        RewardParams::InterestRate { num, denom } => interest_reward(
            staked,
            (end - start) as u32,
            num,
            denom,
        ),
        RewardParams::Proportional { total_amount, reward_period } => {
            let (lo, hi) = completed_periods(reward_period, offset, config_start, start, end);
            if hi > usize::MAX {
                None
            } else {
                proportional_reward(staked, total_amount, snapshots, current, lo, hi)
            }
        },
        RewardParams::Fixed { required_amount, required_period, reward_amount } => fixed_reward(
            staked,
            required_amount,
            reward_amount,
            required_period,
            (end - start) as u32,
        ),
    }
}

/// The later of the epoch's start and the cursor.
pub open spec fn window_start(config_start: u32, cursor: u32) -> u32 {
    if config_start >= cursor {
        config_start
    } else {
        cursor
    }
}

/// The earlier of the epoch's end and now.
pub open spec fn window_end(config_end: u32, now: u32) -> u32 {
    if config_end <= now {
        config_end
    } else {
        now
    }
}

/// Whether a member with this cursor has anything to settle in the epoch.
pub open spec fn window_open(cursor: u32, now: u32, config_start: u32, config_end: u32) -> bool {
    cursor != 0 && window_start(config_start, cursor) < window_end(config_end, now)
}

/// The reward of one epoch for a member settled through `cursor` and
/// evaluated at `now`: nothing for a member never settled or an empty
/// window, else the formula on the clipped window.
pub open spec fn window_reward(
    params: RewardParams,
    staked: u64,
    current: u64,
    snapshots: Seq<Option<u64>>,
    offset: usize,
    cursor: u32,
    now: u32,
    config_start: u32,
    config_end: u32,
) -> Result<u64, StakingError> {
    if !window_open(cursor, now, config_start, config_end) {
        Ok(0)
    } else {
        match epoch_reward(
            params,
            staked,
            current,
            snapshots,
            offset,
            config_start,
            window_start(config_start, cursor),
            window_end(config_end, now),
        ) {
            Some(amount) => Ok(amount),
            None => Err(StakingError::ArithmeticOverflow),
        }
    }
}

/// Adding periods never lowers the sum of shares.
pub proof fn lemma_shares_sum_grows(
    staked: u64,
    total: u64,
    snapshots: Seq<Option<u64>>,
    current: u64,
    lo: int,
    mid: int,
    hi: int,
)
    requires
        lo <= mid <= hi,
    ensures
        0 <= shares_sum(staked, total, snapshots, current, lo, mid) <= shares_sum(
            staked,
            total,
            snapshots,
            current,
            lo,
            hi,
        ),
    decreases hi - lo,
{
    if hi > lo {
        let divisor = period_divisor(snapshots, current, hi - 1);
        assert(period_share(staked, total, divisor) >= 0) by (nonlinear_arith)
            requires
                staked >= 0,
                total >= 0,
                divisor >= 0,
                period_share(staked, total, divisor) == if divisor == 0 {
                    0
                } else {
                    staked * total / (divisor as int)
                },
        ;
        if mid < hi {
            lemma_shares_sum_grows(staked, total, snapshots, current, lo, mid, hi - 1);
        } else {
            lemma_shares_sum_grows(staked, total, snapshots, current, lo, lo, hi - 1);
        }
    }
}

fn interest_amount(staked: u64, elapsed: u32, num: u64, denom: u64) -> (amount: Option<u64>)
    requires
        denom != 0,
    ensures
        amount == interest_reward(staked, elapsed, num, denom),
{
    match staked.checked_mul(elapsed as u64) {
        None => None,
        Some(by_time) => match by_time.checked_mul(num) {
            None => None,
            Some(by_rate) => Some(by_rate / denom),
        },
    }
}

fn fixed_amount(staked: u64, required: u64, reward: u64, period: u32, elapsed: u32) -> (amount:
    Option<u64>)
    requires
        period != 0,
    ensures
        amount == fixed_reward(staked, required, reward, period, elapsed),
{
    if staked < required {
        return Some(0);
    }
    let rewards_count: u32 = elapsed / period;
    reward.checked_mul(rewards_count as u64)
}

fn proportional_amount(
    staked: u64,
    total: u64,
    snapshots: &Vec<Option<u64>>,
    current: u64,
    lo: usize,
    hi: usize,
) -> (amount: Option<u64>)
    ensures
        amount == proportional_reward(staked, total, snapshots@, current, lo as int, hi as int),
{
    if hi <= lo {
        return Some(0);
    }
    let product: u64 = match staked.checked_mul(total) {
        None => { return None; },
        Some(product) => product,
    };
    let mut sum: u64 = 0;
    let mut period: usize = lo;
    while period < hi
        invariant
            lo <= period <= hi,
            product == staked * total,
            sum == shares_sum(staked, total, snapshots@, current, lo as int, period as int),
        decreases hi - period,
    {
        let divisor: u64 = if period < snapshots.len() {
            match snapshots[period] {
                Some(recorded) => recorded,
                None => current,
            }
        } else {
            current
        };
        let share: u64 = match product.checked_div(divisor) {
            Some(share) => share,
            None => 0,
        };
        match sum.checked_add(share) {
            None => {
                proof {
                    lemma_shares_sum_grows(
                        staked,
                        total,
                        snapshots@,
                        current,
                        lo as int,
                        period + 1,
                        hi as int,
                    );
                }
                return None;
            },
            Some(next) => {
                sum = next;
            },
        }
        period += 1;
    }
    Some(sum)
}

impl RewardParams {
    /// The reward of one epoch, from `config_start_ts` to `config_end_ts`,
    /// for a stake settled through `last_reward_ts` and evaluated at
    /// `current_ts`. Nothing is written: a period without a recorded
    /// aggregate is divided by `current_stakes_sum`.
    pub fn get_reward_amount(
        &self,
        staked_amount: u64,
        current_stakes_sum: u64,
        last_reward_ts: u32,
        current_ts: u32,
        config_start_ts: u32,
        config_end_ts: u32,
        stakes_history: &StakesHistory,
        offset: usize,
    ) -> (result: Result<u64, StakingError>)
        requires
            self.is_valid(),
        ensures
            result == window_reward(
                *self,
                staked_amount,
                current_stakes_sum,
                stakes_history@.stakes_sums,
                offset,
                last_reward_ts,
                current_ts,
                config_start_ts,
                config_end_ts,
            ),
    {
        if last_reward_ts == 0 {
            return Ok(0);
        }
        let start_ts: u32 = if config_start_ts >= last_reward_ts {
            config_start_ts
        } else {
            last_reward_ts
        };
        let end_ts: u32 = if config_end_ts <= current_ts {
            config_end_ts
        } else {
            current_ts
        };
        if start_ts >= end_ts {
            return Ok(0);
        }
        let amount: Option<u64> = match *self {
            RewardParams::InterestRate { num, denom } => interest_amount(
                staked_amount,
                end_ts - start_ts,
                num,
                denom,
            ),
            RewardParams::Proportional { total_amount, reward_period } => {
                let claimed_rewards_count: u32 = (start_ts - config_start_ts) / reward_period;
                let all_rewards_count: u32 = (end_ts - config_start_ts) / reward_period;
                assert(claimed_rewards_count <= all_rewards_count) by (nonlinear_arith)
                    requires
                        claimed_rewards_count == (start_ts - config_start_ts) / (
                        reward_period as int),
                        all_rewards_count == (end_ts - config_start_ts) / (reward_period as int),
                        start_ts <= end_ts,
                        reward_period > 0,
                ;
                match offset.checked_add(all_rewards_count as usize) {
                    None => None,
                    Some(hi) => proportional_amount(
                        staked_amount,
                        total_amount,
                        &stakes_history.stakes_sums,
                        current_stakes_sum,
                        offset + claimed_rewards_count as usize,
                        hi,
                    ),
                }
            },
            RewardParams::Fixed { required_amount, required_period, reward_amount } => {
                fixed_amount(
                    staked_amount,
                    required_amount,
                    reward_amount,
                    required_period,
                    end_ts - start_ts,
                )
            },
        };
        match amount {
            Some(amount) => Ok(amount),
            None => Err(StakingError::ArithmeticOverflow),
        }
    }
}

/// The reward of epoch `i` of a timeline.
pub open spec fn epoch_reward_at(
    config: ConfigHistoryView,
    history: StakesHistoryView,
    staked: u64,
    current: u64,
    cursor: u32,
    now: u32,
    i: int,
) -> Result<u64, StakingError> {
    window_reward(
        config.reward_params[i],
        staked,
        current,
        history.stakes_sums,
        history.offsets[i],
        cursor,
        now,
        config.start_timestamps[i],
        config.epoch_end(i),
    )
}

/// The rewards of the first `n` epochs, added up in order; the first failure
/// is the result.
pub open spec fn rewards_through(
    config: ConfigHistoryView,
    history: StakesHistoryView,
    staked: u64,
    current: u64,
    cursor: u32,
    now: u32,
    n: int,
) -> Result<u64, StakingError>
    decreases n,
{
    if n <= 0 {
        Ok(0)
    } else {
        match rewards_through(config, history, staked, current, cursor, now, n - 1) {
            Err(e) => Err(e),
            Ok(sum) => match epoch_reward_at(config, history, staked, current, cursor, now, n - 1) {
                Err(e) => Err(e),
                Ok(amount) => if sum + amount > u64::MAX {
                    Err(StakingError::ArithmeticOverflow)
                } else {
                    Ok((sum + amount) as u64)
                },
            },
        }
    }
}

/// What a stake settled through `cursor` is owed at `now`, over all epochs.
pub open spec fn owed_rewards(
    config: ConfigHistoryView,
    history: StakesHistoryView,
    staked: u64,
    current: u64,
    cursor: u32,
    now: u32,
) -> Result<u64, StakingError> {
    rewards_through(config, history, staked, current, cursor, now, config.epochs())
}

/// The snapshots after the periods `lo <= period < hi` were touched while the
/// pool's aggregate was `value`: a recorded slot keeps its value, an empty
/// one among those periods gets `value`, and the store grows as far as
/// needed.
pub open spec fn record_periods(snapshots: Seq<Option<u64>>, lo: int, hi: int, value: u64) -> Seq<
    Option<u64>,
> {
    Seq::new(
        if lo < hi && hi > snapshots.len() {
            hi as nat
        } else {
            snapshots.len()
        },
        |period: int|
            if period < snapshots.len() && snapshots[period] is Some {
                snapshots[period]
            } else if lo <= period < hi {
                Some(value)
            } else {
                None
            },
    )
}

/// The snapshots after epoch `i` was settled: only a proportional epoch with
/// an open window records anything.
pub open spec fn epoch_snapshots(
    config: ConfigHistoryView,
    offsets: Seq<usize>,
    snapshots: Seq<Option<u64>>,
    current: u64,
    cursor: u32,
    now: u32,
    i: int,
) -> Seq<Option<u64>> {
    let config_start = config.start_timestamps[i];
    let config_end = config.epoch_end(i);
    match config.reward_params[i] {
        RewardParams::Proportional { reward_period, .. } => {
            if window_open(cursor, now, config_start, config_end) {
                let (lo, hi) = completed_periods(
                    reward_period,
                    offsets[i],
                    config_start,
                    window_start(config_start, cursor),
                    window_end(config_end, now),
                );
                record_periods(snapshots, lo, hi, current)
            } else {
                snapshots
            }
        },
        _ => snapshots,
    }
}

/// The snapshots after the first `n` epochs were settled.
pub open spec fn snapshots_through(
    config: ConfigHistoryView,
    history: StakesHistoryView,
    current: u64,
    cursor: u32,
    now: u32,
    n: int,
) -> Seq<Option<u64>>
    decreases n,
{
    if n <= 0 {
        history.stakes_sums
    } else {
        epoch_snapshots(
            config,
            history.offsets,
            snapshots_through(config, history, current, cursor, now, n - 1),
            current,
            cursor,
            now,
            n - 1,
        )
    }
}

/// The store after a settlement at `now`.
pub open spec fn settled_history(
    config: ConfigHistoryView,
    history: StakesHistoryView,
    current: u64,
    cursor: u32,
    now: u32,
) -> StakesHistoryView {
    StakesHistoryView {
        stakes_sums: snapshots_through(config, history, current, cursor, now, config.epochs()),
        offsets: history.offsets,
    }
}

/// The cursor after a settlement at `now`: a member never settled starts at
/// `now`; one with time to settle in a timeline that has begun moves to
/// `now`; any other stays.
pub open spec fn settled_cursor(first_start: u32, cursor: u32, now: u32) -> u32 {
    if cursor == 0 || (cursor < now && first_start < now) {
        now
    } else {
        cursor
    }
}

/// The member after a settlement at `now`: only the cursor moves.
pub open spec fn settled_member(member: Member, config: ConfigHistoryView, now: u32) -> Member {
    Member {
        last_reward_ts: settled_cursor(config.start_timestamps[0], member.last_reward_ts, now),
        ..member
    }
}

/// Once the sum over the first `k` epochs has failed, it stays failed.
pub proof fn lemma_failure_stays(
    config: ConfigHistoryView,
    history: StakesHistoryView,
    staked: u64,
    current: u64,
    cursor: u32,
    now: u32,
    k: int,
    n: int,
)
    requires
        k <= n,
        rewards_through(config, history, staked, current, cursor, now, k) is Err,
    ensures
        rewards_through(config, history, staked, current, cursor, now, n) == rewards_through(
            config,
            history,
            staked,
            current,
            cursor,
            now,
            k,
        ),
    decreases n - k,
{
    if k < n {
        lemma_failure_stays(config, history, staked, current, cursor, now, k, n - 1);
    }
}

/// Where the sum over the first `n` epochs succeeds, each of them succeeds.
pub proof fn lemma_epochs_succeed(
    config: ConfigHistoryView,
    history: StakesHistoryView,
    staked: u64,
    current: u64,
    cursor: u32,
    now: u32,
    n: int,
    i: int,
)
    requires
        0 <= i < n,
        rewards_through(config, history, staked, current, cursor, now, n) is Ok,
    ensures
        epoch_reward_at(config, history, staked, current, cursor, now, i) is Ok,
    decreases n,
{
    if i < n - 1 {
        lemma_epochs_succeed(config, history, staked, current, cursor, now, n - 1, i);
    }
}

/// What `member` is owed at `current_ts`. Nothing is written.
pub fn pending_rewards(
    current_ts: u32,
    staking: &Staking,
    config_history: &ConfigHistory,
    member: &Member,
    stakes_history: &StakesHistory,
) -> (result: Result<u64, StakingError>)
    requires
        config_history@.wf(),
        stakes_history@.wf_for(config_history@),
    ensures
        result == owed_rewards(
            config_history@,
            stakes_history@,
            member.stake_amount,
            staking.stakes_sum,
            member.last_reward_ts,
            current_ts,
        ),
        result is Err ==> result == Err::<u64, StakingError>(StakingError::ArithmeticOverflow),
{
    let epochs: usize = config_history.reward_params.len();
    let mut res: u64 = 0;
    let mut i: usize = 0;
    while i < epochs
        invariant
            i <= epochs,
            epochs == config_history@.epochs(),
            config_history@.wf(),
            stakes_history@.wf_for(config_history@),
            rewards_through(
                config_history@,
                stakes_history@,
                member.stake_amount,
                staking.stakes_sum,
                member.last_reward_ts,
                current_ts,
                i as int,
            ) == Ok::<u64, StakingError>(res),
        decreases epochs - i,
    {
        let config_end_ts: u32 = if i + 1 == epochs {
            u32::MAX
        } else {
            config_history.start_timestamps[i + 1]
        };
        let reward_amount = config_history.reward_params[i].get_reward_amount(
            member.stake_amount,
            staking.stakes_sum,
            member.last_reward_ts,
            current_ts,
            config_history.start_timestamps[i],
            config_end_ts,
            stakes_history,
            stakes_history.offsets[i],
        );
        let next: Option<u64> = match reward_amount {
            Ok(amount) => res.checked_add(amount),
            Err(_) => None,
        };
        match next {
            Some(sum) => {
                res = sum;
            },
            None => {
                proof {
                    lemma_failure_stays(
                        config_history@,
                        stakes_history@,
                        member.stake_amount,
                        staking.stakes_sum,
                        member.last_reward_ts,
                        current_ts,
                        i + 1,
                        epochs as int,
                    );
                }
                return Err(StakingError::ArithmeticOverflow);
            },
        }
        i += 1;
    }
    Ok(res)
}

fn record_snapshots(snapshots: &mut Vec<Option<u64>>, lo: usize, hi: usize, value: u64)
    ensures
        final(snapshots)@ == record_periods(old(snapshots)@, lo as int, hi as int, value),
{
    if hi <= lo {
        return ;
    }
    let ghost before = snapshots@;
    while snapshots.len() < lo
        invariant
            snapshots@.len() >= before.len(),
            snapshots@.len() == before.len() || snapshots@.len() <= lo,
            forall|j: int|
                0 <= j < snapshots@.len() ==> snapshots@[j] == if j < before.len() {
                    before[j]
                } else {
                    None::<u64>
                },
        decreases lo - snapshots.len(),
    {
        snapshots.push(None);
    }
    let mut period: usize = lo;
    while period < hi
        invariant
            lo <= period <= hi,
            snapshots@.len() >= before.len(),
            snapshots@.len() >= period,
            snapshots@.len() == before.len() || snapshots@.len() == period,
            forall|j: int|
                0 <= j < snapshots@.len() ==> snapshots@[j] == if j < before.len()
                    && before[j] is Some {
                    before[j]
                } else if lo <= j < period {
                    Some(value)
                } else {
                    None::<u64>
                },
        decreases hi - period,
    {
        if snapshots.len() == period {
            snapshots.push(Some(value));
        } else if snapshots[period].is_none() {
            snapshots[period] = Some(value);
        }
        period += 1;
    }
}

/// Writes what a settlement at `current_ts` records: the snapshots of the
/// periods it spans, and the member's cursor.
pub(crate) fn commit_settlement(
    current_ts: u32,
    staking: &Staking,
    config_history: &ConfigHistory,
    member: &mut Member,
    stakes_history: &mut StakesHistory,
)
    requires
        config_history@.wf(),
        old(stakes_history)@.wf_for(config_history@),
        owed_rewards(
            config_history@,
            old(stakes_history)@,
            old(member).stake_amount,
            staking.stakes_sum,
            old(member).last_reward_ts,
            current_ts,
        ) is Ok,
    ensures
        *final(member) == settled_member(*old(member), config_history@, current_ts),
        final(stakes_history)@ == settled_history(
            config_history@,
            old(stakes_history)@,
            staking.stakes_sum,
            old(member).last_reward_ts,
            current_ts,
        ),
{
    let cursor: u32 = member.last_reward_ts;
    let epochs: usize = config_history.reward_params.len();
    let ghost before = stakes_history@;
    let mut i: usize = 0;
    while i < epochs
        invariant
            i <= epochs,
            epochs == config_history@.epochs(),
            config_history@.wf(),
            before.wf_for(config_history@),
            *member == *old(member),
            cursor == member.last_reward_ts,
            owed_rewards(
                config_history@,
                before,
                member.stake_amount,
                staking.stakes_sum,
                cursor,
                current_ts,
            ) is Ok,
            stakes_history@.offsets == before.offsets,
            stakes_history@.stakes_sums == snapshots_through(
                config_history@,
                before,
                staking.stakes_sum,
                cursor,
                current_ts,
                i as int,
            ),
        decreases epochs - i,
    {
        let config_start_ts: u32 = config_history.start_timestamps[i];
        let config_end_ts: u32 = if i + 1 == epochs {
            u32::MAX
        } else {
            config_history.start_timestamps[i + 1]
        };
        let start_ts: u32 = if config_start_ts >= cursor {
            config_start_ts
        } else {
            cursor
        };
        let end_ts: u32 = if config_end_ts <= current_ts {
            config_end_ts
        } else {
            current_ts
        };
        if cursor != 0 && start_ts < end_ts {
            match config_history.reward_params[i] {
                RewardParams::Proportional { reward_period, .. } => {
                    let offset: usize = stakes_history.offsets[i];
                    let claimed_rewards_count: u32 = (start_ts - config_start_ts) / reward_period;
                    let all_rewards_count: u32 = (end_ts - config_start_ts) / reward_period;
                    proof {
                        lemma_epochs_succeed(
                            config_history@,
                            before,
                            member.stake_amount,
                            staking.stakes_sum,
                            cursor,
                            current_ts,
                            epochs as int,
                            i as int,
                        );
                        assert(claimed_rewards_count <= all_rewards_count) by (nonlinear_arith)
                            requires
                                claimed_rewards_count == (start_ts - config_start_ts) / (
                                reward_period as int),
                                all_rewards_count == (end_ts - config_start_ts) / (
                                reward_period as int),
                                start_ts <= end_ts,
                                reward_period > 0,
                        ;
                    }
                    record_snapshots(
                        &mut stakes_history.stakes_sums,
                        offset + claimed_rewards_count as usize,
                        offset + all_rewards_count as usize,
                        staking.stakes_sum,
                    );
                },
                _ => {},
            }
        }
        i += 1;
    }
    if cursor == 0 || (cursor < current_ts && config_history.start_timestamps[0] < current_ts) {
        member.last_reward_ts = current_ts;
    }
}

/// Settles `member` at `current_ts`: returns what it is owed since its
/// cursor, records the aggregate stake for each proportional period that the
/// settlement is the first to span, and moves the cursor. On failure nothing
/// is written.
pub fn calculate_rewards(
    current_ts: u32,
    staking: &Staking,
    config_history: &ConfigHistory,
    member: &mut Member,
    stakes_history: &mut StakesHistory,
) -> (result: Result<u64, StakingError>)
    requires
        config_history@.wf(),
        old(stakes_history)@.wf_for(config_history@),
    ensures
        result == owed_rewards(
            config_history@,
            old(stakes_history)@,
            old(member).stake_amount,
            staking.stakes_sum,
            old(member).last_reward_ts,
            current_ts,
        ),
        result is Err ==> result == Err::<u64, StakingError>(StakingError::ArithmeticOverflow)
            && *final(member) == *old(member) && final(stakes_history)@ == old(stakes_history)@,
        result is Ok ==> *final(member) == settled_member(
            *old(member),
            config_history@,
            current_ts,
        ) && final(stakes_history)@ == settled_history(
            config_history@,
            old(stakes_history)@,
            staking.stakes_sum,
            old(member).last_reward_ts,
            current_ts,
        ),
{
    match pending_rewards(current_ts, staking, config_history, member, stakes_history) {
        Err(e) => Err(e),
        Ok(rewards) => {
            commit_settlement(current_ts, staking, config_history, member, stakes_history);
            Ok(rewards)
        },
    }
}

} // verus!
