//! What holds of the ledger as a whole: settlement is idempotent and never
//! looks back before the cursor, recorded snapshots are final, and the
//! pool's aggregate stake is the sum of its members' stakes after any
//! sequence of instructions.

use vstd::prelude::*;
use crate::account::{ConfigHistoryView, Member, PendingWithdrawal, StakesHistoryView, Staking};
use crate::error::StakingError;
use crate::instructions::{
    change_config_error, claim_reward_outcome, deposit_outcome, end_unstake_outcome,
    history_after, member_owed, new_member, new_withdrawal, reconfigured, reconfigured_history,
    stake_outcome, start_unstake_outcome, withdraw_outcome,
};
use crate::reward::{
    completed_periods, epoch_reward_at, epoch_snapshots, owed_rewards, period_divisor,
    record_periods, rewards_through, settled_cursor, settled_history, settled_member,
    shares_sum, snapshots_through, window_end, window_open, window_start, RewardParams,
};

verus! {

/// A cursor with nothing left to settle at `now`: never set, already at or
/// past `now`, or in a timeline that has not begun.
pub open spec fn is_settled(first_start: u32, cursor: u32, now: u32) -> bool {
    cursor == 0 || cursor >= now || first_start >= now
}

/// A settled cursor finds every window closed: there is no reward and no
/// snapshot is recorded.
pub proof fn lemma_settled_cursor_owes_nothing(
    config: ConfigHistoryView,
    history: StakesHistoryView,
    staked: u64,
    current: u64,
    cursor: u32,
    now: u32,
    n: int,
)
    requires
        config.wf(),
        0 <= n <= config.epochs(),
        is_settled(config.start_timestamps[0], cursor, now),
    ensures
        rewards_through(config, history, staked, current, cursor, now, n) == Ok::<
            u64,
            StakingError,
        >(0),
        snapshots_through(config, history, current, cursor, now, n) == history.stakes_sums,
    decreases n,
{
    if n > 0 {
        lemma_settled_cursor_owes_nothing(config, history, staked, current, cursor, now, n - 1);
    }
}

/// The cursor never moves back, and after a settlement there is nothing left
/// to settle at that instant.
pub proof fn lemma_cursor_moves_forward(first_start: u32, cursor: u32, now: u32)
    ensures
        settled_cursor(first_start, cursor, now) >= cursor,
        is_settled(first_start, settled_cursor(first_start, cursor, now), now),
{
}

/// The last epoch that has started before `now`.
pub proof fn lemma_last_started_epoch(config: ConfigHistoryView, now: u32, n: int) -> (k: int)
    requires
        config.wf(),
        1 <= n <= config.epochs(),
        config.start_timestamps[0] < now,
    ensures
        0 <= k < n,
        config.start_timestamps[k] < now,
        k + 1 < n ==> config.start_timestamps[k + 1] >= now,
    decreases n,
{
    if n == 1 || config.start_timestamps[n - 1] < now {
        n - 1
    } else {
        lemma_last_started_epoch(config, now, n - 1)
    }
}

/// The cursor after a settlement is the end of the last window that was
/// open: no open window ends after it; where none is open, a cursor that
/// was set stays; and where one is open, one of them ends at the new
/// cursor, which is `now`.
pub proof fn lemma_cursor_ends_last_window(config: ConfigHistoryView, cursor: u32, now: u32)
    requires
        config.wf(),
        cursor != 0,
    ensures
        forall|i: int|
            0 <= i < config.epochs() && #[trigger] window_open(
                cursor,
                now,
                config.start_timestamps[i],
                config.epoch_end(i),
            ) ==> window_end(config.epoch_end(i), now) <= settled_cursor(
                config.start_timestamps[0],
                cursor,
                now,
            ),
        (forall|i: int|
            0 <= i < config.epochs() ==> !#[trigger] window_open(
                cursor,
                now,
                config.start_timestamps[i],
                config.epoch_end(i),
            )) ==> settled_cursor(config.start_timestamps[0], cursor, now) == cursor,
        (exists|i: int|
            0 <= i < config.epochs() && #[trigger] window_open(
                cursor,
                now,
                config.start_timestamps[i],
                config.epoch_end(i),
            )) ==> settled_cursor(config.start_timestamps[0], cursor, now) == now && (exists|
            i: int,
        |
            0 <= i < config.epochs() && #[trigger] window_open(
                cursor,
                now,
                config.start_timestamps[i],
                config.epoch_end(i),
            ) && window_end(config.epoch_end(i), now) == now),
{
    let first_start = config.start_timestamps[0];
    if cursor < now && first_start < now {
        let k = lemma_last_started_epoch(config, now, config.epochs());
        assert(window_open(cursor, now, config.start_timestamps[k], config.epoch_end(k)));
    }
}

/// Settling twice at one instant: the second settlement of the member as the
/// first one left it, against the store as the first one left it, owes
/// nothing and changes neither the member nor the store.
pub proof fn lemma_second_settlement_is_empty(
    staking: Staking,
    config: ConfigHistoryView,
    member: Member,
    history: StakesHistoryView,
    now: u32,
)
    requires
        config.wf(),
        history.wf_for(config),
    ensures
        member_owed(
            staking,
            config,
            settled_member(member, config, now),
            history_after(staking, config, member, history, now),
            now,
        ) == Ok::<u64, StakingError>(0),
        settled_member(settled_member(member, config, now), config, now) == settled_member(
            member,
            config,
            now,
        ),
        history_after(
            staking,
            config,
            settled_member(member, config, now),
            history_after(staking, config, member, history, now),
            now,
        ) == history_after(staking, config, member, history, now),
{
    let first_start = config.start_timestamps[0];
    let settled = settled_member(member, config, now);
    let recorded = history_after(staking, config, member, history, now);
    lemma_cursor_moves_forward(first_start, member.last_reward_ts, now);
    lemma_settled_cursor_owes_nothing(
        config,
        recorded,
        settled.stake_amount,
        staking.stakes_sum,
        settled.last_reward_ts,
        now,
        config.epochs(),
    );
}

/// A member that was never settled is owed nothing, whatever the time that
/// has passed since the pool was opened: its first settlement only sets the
/// cursor, and records no snapshot.
pub proof fn lemma_first_settlement_owes_nothing(
    config: ConfigHistoryView,
    history: StakesHistoryView,
    staked: u64,
    current: u64,
    now: u32,
)
    requires
        config.wf(),
    ensures
        owed_rewards(config, history, staked, current, 0, now) == Ok::<u64, StakingError>(0),
        settled_history(config, history, current, 0, now) == history,
        settled_cursor(config.start_timestamps[0], 0, now) == now,
{
    lemma_settled_cursor_owes_nothing(config, history, staked, current, 0, now, config.epochs());
}

/// No reward for time before the cursor: an epoch that ended at or before
/// the cursor yields nothing and records nothing.
pub proof fn lemma_no_reward_before_cursor(
    config: ConfigHistoryView,
    history: StakesHistoryView,
    staked: u64,
    current: u64,
    cursor: u32,
    now: u32,
    i: int,
)
    requires
        0 <= i < config.epochs(),
        config.epoch_end(i) <= cursor,
    ensures
        epoch_reward_at(config, history, staked, current, cursor, now, i) == Ok::<
            u64,
            StakingError,
        >(0),
        epoch_snapshots(config, history.offsets, history.stakes_sums, current, cursor, now, i)
            == history.stakes_sums,
{
}

/// Recording never rewrites: a slot that holds a value keeps it, and every
/// period that was touched holds a value afterwards.
pub proof fn lemma_record_keeps_recorded(
    snapshots: Seq<Option<u64>>,
    lo: int,
    hi: int,
    value: u64,
)
    requires
        0 <= lo,
    ensures
        record_periods(snapshots, lo, hi, value).len() >= snapshots.len(),
        forall|period: int|
            0 <= period < snapshots.len() && (#[trigger] snapshots[period]) is Some
                ==> record_periods(snapshots, lo, hi, value)[period] == snapshots[period],
        forall|period: int|
            lo <= period < hi ==> (#[trigger] record_periods(
                snapshots,
                lo,
                hi,
                value,
            )[period]) is Some,
        forall|period: int, later: u64|
            lo <= period < hi ==> #[trigger] period_divisor(
                record_periods(snapshots, lo, hi, value),
                later,
                period,
            ) == period_divisor(snapshots, value, period),
{
}

/// The divisor of a recorded period is frozen: whoever evaluates the periods
/// that a settlement touched, and whatever the pool's aggregate stake has
/// become by then, divides by the values that the settlement left there.
pub proof fn lemma_recorded_shares_ignore_later_stake(
    snapshots: Seq<Option<u64>>,
    lo: int,
    hi: int,
    value: u64,
    staked: u64,
    total: u64,
    later: u64,
    from: int,
    to: int,
)
    requires
        0 <= lo <= from,
        to <= hi,
    ensures
        shares_sum(staked, total, record_periods(snapshots, lo, hi, value), later, from, to)
            == shares_sum(staked, total, snapshots, value, from, to),
    decreases to - from,
{
    if from < to {
        lemma_recorded_shares_ignore_later_stake(
            snapshots,
            lo,
            hi,
            value,
            staked,
            total,
            later,
            from,
            to - 1,
        );
        lemma_record_keeps_recorded(snapshots, lo, hi, value);
        assert(period_divisor(record_periods(snapshots, lo, hi, value), later, to - 1)
            == period_divisor(snapshots, value, to - 1));
    }
}

/// While a settlement goes through the epochs, the store only grows and a
/// recorded slot keeps its value.
pub proof fn lemma_snapshots_only_grow(
    config: ConfigHistoryView,
    history: StakesHistoryView,
    current: u64,
    cursor: u32,
    now: u32,
    k: int,
    n: int,
)
    requires
        config.wf(),
        history.wf_for(config),
        0 <= k <= n <= config.epochs(),
    ensures
        snapshots_through(config, history, current, cursor, now, n).len() >= snapshots_through(
            config,
            history,
            current,
            cursor,
            now,
            k,
        ).len(),
        forall|period: int|
            0 <= period < snapshots_through(config, history, current, cursor, now, k).len() && (
            #[trigger] snapshots_through(config, history, current, cursor, now, k)[period])
                is Some ==> snapshots_through(config, history, current, cursor, now, n)[period]
                == snapshots_through(config, history, current, cursor, now, k)[period],
    decreases n - k,
{
    if k < n {
        lemma_snapshots_only_grow(config, history, current, cursor, now, k, n - 1);
        let before = snapshots_through(config, history, current, cursor, now, n - 1);
        let after = snapshots_through(config, history, current, cursor, now, n);
        assert(after == epoch_snapshots(
            config,
            history.offsets,
            before,
            current,
            cursor,
            now,
            n - 1,
        ));
    }
}

/// A settlement records every period that it pays for: after it, each
/// completed period in the open window of a proportional epoch holds an
/// aggregate, the one that the reward was divided by.
pub proof fn lemma_settlement_records_its_periods(
    config: ConfigHistoryView,
    history: StakesHistoryView,
    current: u64,
    cursor: u32,
    now: u32,
    i: int,
    period: int,
)
    requires
        config.wf(),
        history.wf_for(config),
        0 <= i < config.epochs(),
        config.reward_params[i] is Proportional,
        window_open(cursor, now, config.start_timestamps[i], config.epoch_end(i)),
        completed_periods(
            config.reward_params[i]->Proportional_reward_period,
            history.offsets[i],
            config.start_timestamps[i],
            window_start(config.start_timestamps[i], cursor),
            window_end(config.epoch_end(i), now),
        ).0 <= period < completed_periods(
            config.reward_params[i]->Proportional_reward_period,
            history.offsets[i],
            config.start_timestamps[i],
            window_start(config.start_timestamps[i], cursor),
            window_end(config.epoch_end(i), now),
        ).1,
    ensures
        0 <= period < settled_history(config, history, current, cursor, now).stakes_sums.len(),
        settled_history(config, history, current, cursor, now).stakes_sums[period] == Some(
            period_divisor(history.stakes_sums, current, period),
        ),
{
    let reward_period = config.reward_params[i]->Proportional_reward_period;
    let config_start = config.start_timestamps[i];
    let start = window_start(config_start, cursor);
    assert(0 <= (start - config_start) / (reward_period as int)) by (nonlinear_arith)
        requires
            start >= config_start,
            reward_period > 0,
    ;
    lemma_snapshots_only_grow(config, history, current, cursor, now, 0, i);
    lemma_snapshots_only_grow(config, history, current, cursor, now, i + 1, config.epochs());
    let after = snapshots_through(config, history, current, cursor, now, i + 1);
    assert(after[period] is Some);
    if !(period < history.stakes_sums.len() && history.stakes_sums[period] is Some) {
        lemma_new_slots_hold_current(config, history, current, cursor, now, i, period);
    }
}

/// While a settlement goes through the epochs, a slot that was empty before
/// it stays empty or takes the pool's current aggregate.
pub proof fn lemma_new_slots_hold_current(
    config: ConfigHistoryView,
    history: StakesHistoryView,
    current: u64,
    cursor: u32,
    now: u32,
    n: int,
    period: int,
)
    requires
        0 <= n <= config.epochs(),
        0 <= period,
        !(period < history.stakes_sums.len() && history.stakes_sums[period] is Some),
    ensures
        period < snapshots_through(config, history, current, cursor, now, n).len()
            ==> snapshots_through(config, history, current, cursor, now, n)[period] is None
            || snapshots_through(config, history, current, cursor, now, n)[period] == Some(
            current,
        ),
    decreases n,
{
    if n > 0 {
        lemma_new_slots_hold_current(config, history, current, cursor, now, n - 1, period);
    }
}

/// Snapshot stability: a settlement, whoever makes it and whatever the
/// pool's aggregate stake is by then, leaves every recorded slot as it was.
pub proof fn lemma_settlement_keeps_snapshots(
    config: ConfigHistoryView,
    history: StakesHistoryView,
    current: u64,
    cursor: u32,
    now: u32,
)
    requires
        config.wf(),
        history.wf_for(config),
    ensures
        settled_history(config, history, current, cursor, now).offsets == history.offsets,
        settled_history(config, history, current, cursor, now).stakes_sums.len()
            >= history.stakes_sums.len(),
        forall|period: int|
            0 <= period < history.stakes_sums.len() && (
            #[trigger] history.stakes_sums[period]) is Some ==> settled_history(
                config,
                history,
                current,
                cursor,
                now,
            ).stakes_sums[period] == history.stakes_sums[period],
{
    lemma_snapshots_only_grow(config, history, current, cursor, now, 0, config.epochs());
}

/// The sum of the members' staked balances.
pub open spec fn total_staked(members: Seq<Member>) -> int
    decreases members.len(),
{
    if members.len() == 0 {
        0
    } else {
        total_staked(members.drop_last()) + members.last().stake_amount
    }
}

/// The pool's aggregate stake is the sum of its members' staked balances.
pub open spec fn conserved(staking: Staking, members: Seq<Member>) -> bool {
    staking.stakes_sum == total_staked(members)
}

/// Replacing one member changes the sum by the change of its stake.
pub proof fn lemma_total_staked_update(members: Seq<Member>, i: int, member: Member)
    requires
        0 <= i < members.len(),
    ensures
        total_staked(members.update(i, member)) == total_staked(members)
            - members[i].stake_amount + member.stake_amount,
    decreases members.len(),
{
    let updated = members.update(i, member);
    if i == members.len() - 1 {
        assert(updated.drop_last() =~= members.drop_last());
    } else {
        assert(updated.drop_last() =~= members.drop_last().update(i, member));
        lemma_total_staked_update(members.drop_last(), i, member);
    }
}

/// A pool together with all of its members and their unstake records.
pub ghost struct Ledger {
    pub staking: Staking,
    pub config: ConfigHistoryView,
    pub history: StakesHistoryView,
    pub members: Seq<Member>,
    pub withdrawals: Seq<PendingWithdrawal>,
}

/// An instruction on a pool: a reconfiguration, or an instruction of a
/// member, named by its index in the ledger.
pub ghost enum Operation {
    ChangeConfig { new_reward_params: RewardParams, now: u32 },
    Register { beneficiary: [u8; 32] },
    Deposit { member: int, amount: u64 },
    Withdraw { member: int, amount: u64 },
    Stake { member: int, amount: u64, now: u32 },
    ClaimReward { member: int, now: u32 },
    StartUnstake { member: int, amount: u64, now: u32 },
    EndUnstake { member: int, now: u32 },
}

impl Operation {
    /// The member that the instruction is for; a reconfiguration has none,
    /// and a registration not yet.
    pub open spec fn subject(self) -> int {
        match self {
            Operation::ChangeConfig { .. } => -1,
            Operation::Register { .. } => -1,
            Operation::Deposit { member, .. } => member,
            Operation::Withdraw { member, .. } => member,
            Operation::Stake { member, .. } => member,
            Operation::ClaimReward { member, .. } => member,
            Operation::StartUnstake { member, .. } => member,
            Operation::EndUnstake { member, .. } => member,
        }
    }
}

impl Ledger {
    /// A timeline and a store that are well formed, the pool's formula the
    /// last entry of the timeline, and one unstake record per member.
    pub open spec fn wf(self) -> bool {
        &&& self.config.wf()
        &&& self.history.wf_for(self.config)
        &&& self.staking.follows(self.config)
        &&& self.members.len() == self.withdrawals.len()
    }

    /// The ledger after one instruction. An instruction that is rejected, or
    /// that names no member, leaves the ledger as it was.
    pub open spec fn step(self, operation: Operation) -> Ledger {
        let i = operation.subject();
        match operation {
            Operation::ChangeConfig { new_reward_params, now } => match change_config_error(
                self.config,
                self.history,
                new_reward_params,
                now,
            ) {
                Some(_) => self,
                None => Ledger {
                    staking: Staking { reward_params: new_reward_params, ..self.staking },
                    config: reconfigured(self.config, new_reward_params, now),
                    history: reconfigured_history(self.config, self.history, now),
                    ..self
                },
            },
            Operation::Register { beneficiary } => Ledger {
                members: self.members.push(new_member(self.staking.id, beneficiary)),
                withdrawals: self.withdrawals.push(new_withdrawal(self.staking.id, beneficiary)),
                ..self
            },
            _ => if !(0 <= i < self.members.len() && i < self.withdrawals.len()) {
                self
            } else {
                match operation {
                    Operation::ChangeConfig { .. } => self,
                    Operation::Register { .. } => self,
                    Operation::Deposit { amount, .. } => match deposit_outcome(
                        self.members[i],
                        amount,
                    ) {
                        Err(_) => self,
                        Ok(member) => Ledger { members: self.members.update(i, member), ..self },
                    },
                    Operation::Withdraw { amount, .. } => match withdraw_outcome(
                        self.members[i],
                        amount,
                    ) {
                        Err(_) => self,
                        Ok(member) => Ledger { members: self.members.update(i, member), ..self },
                    },
                    Operation::Stake { amount, now, .. } => match stake_outcome(
                        self.staking,
                        self.config,
                        self.members[i],
                        self.history,
                        amount,
                        now,
                    ) {
                        Err(_) => self,
                        Ok(after) => Ledger {
                            staking: after.0,
                            members: self.members.update(i, after.1),
                            history: after.2,
                            ..self
                        },
                    },
                    Operation::ClaimReward { now, .. } => match claim_reward_outcome(
                        self.staking,
                        self.config,
                        self.members[i],
                        self.history,
                        now,
                    ) {
                        Err(_) => self,
                        Ok(after) => Ledger {
                            members: self.members.update(i, after.1),
                            history: after.2,
                            ..self
                        },
                    },
                    Operation::StartUnstake { amount, now, .. } => match start_unstake_outcome(
                        self.staking,
                        self.config,
                        self.members[i],
                        self.withdrawals[i],
                        self.history,
                        amount,
                        now,
                    ) {
                        Err(_) => self,
                        Ok(after) => Ledger {
                            staking: after.0,
                            members: self.members.update(i, after.1),
                            withdrawals: self.withdrawals.update(i, after.2),
                            history: after.3,
                            ..self
                        },
                    },
                    Operation::EndUnstake { now, .. } => match end_unstake_outcome(
                        self.members[i],
                        self.withdrawals[i],
                        now,
                    ) {
                        Err(_) => self,
                        Ok(after) => Ledger {
                            members: self.members.update(i, after.0),
                            withdrawals: self.withdrawals.update(i, after.1),
                            ..self
                        },
                    },
                }
            },
        }
    }

    /// The ledger after a sequence of instructions, the first one first.
    pub open spec fn run(self, operations: Seq<Operation>) -> Ledger
        decreases operations.len(),
    {
        if operations.len() == 0 {
            self
        } else {
            self.run(operations.drop_last()).step(operations.last())
        }
    }
}

/// A successful reconfiguration leaves a timeline and a store that are
/// well formed, with the new formula as the last entry.
pub proof fn lemma_reconfigured_is_well_formed(
    config: ConfigHistoryView,
    history: StakesHistoryView,
    new_reward_params: RewardParams,
    now: u32,
)
    requires
        config.wf(),
        history.wf_for(config),
        change_config_error(config, history, new_reward_params, now) is None,
    ensures
        reconfigured(config, new_reward_params, now).wf(),
        reconfigured_history(config, history, now).wf_for(
            reconfigured(config, new_reward_params, now),
        ),
        reconfigured(config, new_reward_params, now).reward_params.last() == new_reward_params,
{
    assert(new_reward_params.same_kind(config.reward_params[0]));
}

/// One instruction keeps the ledger well formed and the aggregate stake
/// equal to the sum of the members' staked balances.
pub proof fn lemma_step_conserves(ledger: Ledger, operation: Operation)
    requires
        ledger.wf(),
        conserved(ledger.staking, ledger.members),
    ensures
        ledger.step(operation).wf(),
        conserved(ledger.step(operation).staking, ledger.step(operation).members),
{
    let i = operation.subject();
    let after = ledger.step(operation);
    match operation {
        Operation::ChangeConfig { new_reward_params, now } => {
            if change_config_error(ledger.config, ledger.history, new_reward_params, now)
                is None {
                lemma_reconfigured_is_well_formed(
                    ledger.config,
                    ledger.history,
                    new_reward_params,
                    now,
                );
            }
        },
        Operation::Register { .. } => {
            assert(after.members.drop_last() =~= ledger.members);
        },
        _ => {
            if 0 <= i < ledger.members.len() {
                if after.members != ledger.members {
                    lemma_total_staked_update(ledger.members, i, after.members[i]);
                }
            }
        },
    }
}

/// A pool that was just opened, without members and with no stake, is
/// conserved.
pub proof fn lemma_new_pool_conserves(staking: Staking)
    requires
        staking.stakes_sum == 0,
    ensures
        conserved(staking, Seq::<Member>::empty()),
{
}

/// Conservation: where the aggregate stake is the sum of the members' staked
/// balances, it still is after any sequence of instructions on the pool,
/// accepted or rejected.
pub proof fn lemma_conservation(ledger: Ledger, operations: Seq<Operation>)
    requires
        ledger.wf(),
        conserved(ledger.staking, ledger.members),
    ensures
        ledger.run(operations).wf(),
        conserved(ledger.run(operations).staking, ledger.run(operations).members),
    decreases operations.len(),
{
    if operations.len() > 0 {
        lemma_conservation(ledger, operations.drop_last());
        lemma_step_conserves(ledger.run(operations.drop_last()), operations.last());
    }
}

/// What a member holds in the pool, whatever its state.
pub open spec fn holdings(member: Member) -> int {
    member.available_amount + member.stake_amount + member.pending_amount
}

/// What a member holds changes by deposits and withdrawals only: staking,
/// unstaking and the settlement of rewards move it between balances.
pub proof fn lemma_holdings_follow_deposits(ledger: Ledger, operation: Operation, j: int)
    requires
        ledger.wf(),
        0 <= j < ledger.members.len(),
    ensures
        j < ledger.step(operation).members.len(),
        holdings(ledger.step(operation).members[j]) == holdings(ledger.members[j]) + (
        match operation {
            Operation::Deposit { member, amount } => if member == j && deposit_outcome(
                ledger.members[j],
                amount,
            ) is Ok {
                amount as int
            } else {
                0
            },
            Operation::Withdraw { member, amount } => if member == j && withdraw_outcome(
                ledger.members[j],
                amount,
            ) is Ok {
                -(amount as int)
            } else {
                0
            },
            _ => 0,
        }),
{
}

/// The unstake record agrees with the member: while an unstake is pending,
/// its amount is the member's pending balance; while none is, that balance
/// is empty.
pub open spec fn unstake_recorded(member: Member, withdrawal: PendingWithdrawal) -> bool {
    if withdrawal.active {
        member.pending_amount == withdrawal.amount
    } else {
        member.pending_amount == 0
    }
}

/// Every instruction keeps each member and its unstake record in agreement,
/// so the amount of a pending unstake is the one it was started with.
pub proof fn lemma_step_keeps_unstake_recorded(ledger: Ledger, operation: Operation, j: int)
    requires
        ledger.wf(),
        0 <= j < ledger.members.len(),
        unstake_recorded(ledger.members[j], ledger.withdrawals[j]),
    ensures
        j < ledger.step(operation).members.len(),
        j < ledger.step(operation).withdrawals.len(),
        unstake_recorded(ledger.step(operation).members[j], ledger.step(operation).withdrawals[j]),
        ledger.withdrawals[j].active && ledger.step(operation).withdrawals[j].active
            ==> ledger.step(operation).withdrawals[j] == ledger.withdrawals[j],
{
}

} // verus!
