//! Errors of the library's operations.
use vstd::prelude::*;

verus! {

/// Why a strategy gave no weight.
#[derive(Debug, Clone, Copy, PartialEq, Eq, Structural)]
pub enum StrategyError {
    /// The contract read failed.
    EvmCallFailed,
    /// The contract read returned something other than a hexadecimal number.
    ResultParseError,
}

/// Why a vote was refused.
#[derive(Debug, Clone, Copy, PartialEq, Eq, Structural)]
pub enum VoteError {
    InvalidSignature,
    SpaceNotFound,
    ProposalNotFound,
    OptionNotFound,
    VotingWindowClosed,
    InsufficientPower,
    AlreadyVoted,
    Strategy(StrategyError),
}

} // verus!
