//! The records of the ledger: the factory, a pool with its configuration
//! timeline and its snapshot store, a member and its unstake record.

use vstd::prelude::*;
use crate::reward::RewardParams;

verus! {

/// The registry of pools: who may create them and how many exist.
#[derive(Clone, Copy, Debug)]
pub struct Factory {
    pub authority: [u8; 32],
    pub stakings_count: u16,
}

/// A pool: its assets, its unstake delay, the formula in force and the
/// aggregate of all members' stakes.
#[derive(Clone, Copy, Debug)]
pub struct Staking {
    pub authority: [u8; 32],
    pub id: u16,
    pub unstake_timelock: u32,
    pub stake_mint: [u8; 32],
    pub reward_mint: [u8; 32],
    /// A copy of the last entry of the pool's configuration timeline.
    pub reward_params: RewardParams,
    pub stakes_sum: u64,
}

/// The configuration timeline of a pool: epoch `i` runs from
/// `start_timestamps[i]` to the start of epoch `i + 1`; the last one is open.
#[derive(Debug)]
pub struct ConfigHistory {
    pub reward_params: Vec<RewardParams>,
    pub start_timestamps: Vec<u32>,
}

/// The mathematical content of a [`ConfigHistory`].
pub ghost struct ConfigHistoryView {
    pub reward_params: Seq<RewardParams>,
    pub start_timestamps: Seq<u32>,
}

/// Aggregate stakes recorded per proportional period. A slot is `None` until
/// the first settlement that spans its period, and fixed from then on.
/// `offsets[i]` is the index of the first period of epoch `i`.
#[derive(Debug)]
pub struct StakesHistory {
    pub stakes_sums: Vec<Option<u64>>,
    pub offsets: Vec<usize>,
}

/// The mathematical content of a [`StakesHistory`].
pub ghost struct StakesHistoryView {
    pub stakes_sums: Seq<Option<u64>>,
    pub offsets: Seq<usize>,
}

/// A participant's balances and reward bookkeeping, with the pool it belongs
/// to and the key of its owner. A cursor of 0 means that the member was
/// never settled.
#[derive(Clone, Copy, Debug, PartialEq, Eq)]
pub struct Member {
    pub staking_id: u16,
    pub beneficiary: [u8; 32],
    pub available_amount: u64,
    pub stake_amount: u64,
    pub pending_amount: u64,
    pub rewards_amount: u64,
    pub last_reward_ts: u32,
}

/// The one unstake that a member may have under way, with the pool and the
/// owner of that member.
#[derive(Clone, Copy, Debug, PartialEq, Eq)]
pub struct PendingWithdrawal {
    pub staking_id: u16,
    pub beneficiary: [u8; 32],
    pub active: bool,
    pub end_ts: u32,
    pub amount: u64,
}

impl View for ConfigHistory {
    type V = ConfigHistoryView;

    open spec fn view(&self) -> ConfigHistoryView {
        ConfigHistoryView {
            reward_params: self.reward_params@,
            start_timestamps: self.start_timestamps@,
        }
    }
}

impl View for StakesHistory {
    type V = StakesHistoryView;

    open spec fn view(&self) -> StakesHistoryView {
        StakesHistoryView { stakes_sums: self.stakes_sums@, offsets: self.offsets@ }
    }
}

impl ConfigHistoryView {
    /// The number of epochs.
    pub open spec fn epochs(self) -> int {
        self.reward_params.len() as int
    }

    /// Where epoch `i` ends: at the start of the next one, or never.
    pub open spec fn epoch_end(self, i: int) -> u32 {
        if i + 1 < self.start_timestamps.len() {
            self.start_timestamps[i + 1]
        } else {
            u32::MAX
        }
    }

    /// At least one epoch, start times strictly increasing, every formula
    /// valid and all of one kind.
    pub open spec fn wf(self) -> bool {
        &&& self.reward_params.len() == self.start_timestamps.len()
        &&& self.reward_params.len() >= 1
        &&& forall|i: int|
            0 <= i < self.reward_params.len() ==> (#[trigger] self.reward_params[i]).is_valid()
        &&& forall|i: int|
            0 <= i < self.reward_params.len() ==> (#[trigger] self.reward_params[i]).same_kind(
                self.reward_params[0],
            )
        &&& forall|i: int, j: int|
            0 <= i < j < self.start_timestamps.len() ==> #[trigger] self.start_timestamps[i]
                < #[trigger] self.start_timestamps[j]
    }
}

impl StakesHistoryView {
    /// One offset per epoch of `config`.
    pub open spec fn wf_for(self, config: ConfigHistoryView) -> bool {
        self.offsets.len() == config.reward_params.len()
    }
}

impl Staking {
    /// The pool's formula is the last entry of its timeline.
    pub open spec fn follows(self, config: ConfigHistoryView) -> bool {
        config.reward_params.len() >= 1 && self.reward_params == config.reward_params.last()
    }
}

impl ConfigHistory {
    /// Whether the timeline is well formed.
    pub fn is_well_formed(&self) -> (ok: bool)
        ensures
            ok == self@.wf(),
    {
        let epochs: usize = self.reward_params.len();
        if epochs == 0 || self.start_timestamps.len() != epochs {
            return false;
        }
        let first: RewardParams = self.reward_params[0];
        let mut i: usize = 0;
        while i < epochs
            invariant
                i <= epochs,
                epochs == self.reward_params@.len(),
                epochs == self.start_timestamps@.len(),
                first == self.reward_params@[0],
                forall|k: int| 0 <= k < i ==> (#[trigger] self.reward_params@[k]).is_valid(),
                forall|k: int|
                    0 <= k < i ==> (#[trigger] self.reward_params@[k]).same_kind(first),
                forall|a: int, b: int|
                    0 <= a < b < i ==> #[trigger] self.start_timestamps@[a]
                        < #[trigger] self.start_timestamps@[b],
            decreases epochs - i,
        {
            let params: RewardParams = self.reward_params[i];
            if params.validate_fields().is_err() || !params.has_same_kind(&first) {
                return false;
            }
            if i > 0 && self.start_timestamps[i - 1] >= self.start_timestamps[i] {
                return false;
            }
            i += 1;
        }
        true
    }
}

impl StakesHistory {
    /// Whether the store has one offset for each epoch of `config`.
    pub fn fits(&self, config: &ConfigHistory) -> (ok: bool)
        ensures
            ok == self@.wf_for(config@),
    {
        self.offsets.len() == config.reward_params.len()
    }
}

} // verus!
