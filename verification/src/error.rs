//! The reasons for which an instruction is rejected.

use vstd::prelude::*;

verus! {

/// Why an instruction was rejected. A rejected instruction changes nothing.
#[derive(Clone, Copy, Debug, PartialEq, Eq, Structural)]
pub enum StakingError {
    /// A checked addition, subtraction or multiplication left the integer range.
    ArithmeticOverflow,
    /// A zero period or denominator, or a change of formula kind.
    InvalidConfiguration,
    /// The available or staked balance is smaller than the requested amount.
    InsufficientBalance,
    /// An unstake was started while another one is pending.
    UnstakeAlreadyActive,
    /// An unstake was ended while none is pending.
    UnstakeNotActive,
    /// An unstake was ended before its unlock time.
    UnstakeTimelockNotElapsed,
    /// A claim found no reward to pay out.
    NothingToClaim,
}

impl StakingError {
    /// The text of [`StakingError::message`].
    pub open spec fn message_text(self) -> Seq<char> {
        match self {
            StakingError::ArithmeticOverflow => "Overflow"@,
            StakingError::InvalidConfiguration => "Invalid reward configuration"@,
            StakingError::InsufficientBalance => "Not enough tokens for operation"@,
            StakingError::UnstakeAlreadyActive => "There is an unfinished unstake"@,
            StakingError::UnstakeNotActive => "Unstake is not started"@,
            StakingError::UnstakeTimelockNotElapsed => "The unstake timelock has not yet expired"@,
            StakingError::NothingToClaim => "There is no reward to claim"@,
        }
    }

    /// A short description for logs and user interfaces.
    pub fn message(&self) -> (text: &'static str)
        ensures
            text@ == self.message_text(),
    {
        match self {
            StakingError::ArithmeticOverflow => "Overflow",
            StakingError::InvalidConfiguration => "Invalid reward configuration",
            StakingError::InsufficientBalance => "Not enough tokens for operation",
            StakingError::UnstakeAlreadyActive => "There is an unfinished unstake",
            StakingError::UnstakeNotActive => "Unstake is not started",
            StakingError::UnstakeTimelockNotElapsed => "The unstake timelock has not yet expired",
            StakingError::NothingToClaim => "There is no reward to claim",
        }
    }
}

} // verus!
