use vstd::prelude::*;

verus! {

/// Every way in which a vault set-up or a round can be refused.
#[derive(Clone, Copy, Debug, PartialEq, Eq, Structural)]
pub enum SplitOrStealError {
    /// The player holds fewer tokens than the stake.
    InsufficientTokens,
    /// The creator does not hold exactly the amount the vault is opened with.
    InvalidInitialTokens,
    /// The mint's supply differs from the amount the vault is opened with.
    InvalidMintSupply,
    /// The mint does not use nine decimals.
    InvalidMintDecimals,
    /// Somebody can still mint.
    MintAuthorityNotRevoked,
    /// Somebody can still freeze accounts.
    FreezeAuthorityNotRevoked,
    /// No recent slot hash could be found.
    SlotHashNotFound,
    /// The stake is above one hundred.
    StakeAmountTooHigh,
    /// An instruction ahead of the round belongs to another program than
    /// the compute budget program.
    InvalidComputeBudgetProgramId,
    /// An instruction follows the round.
    UnexpectedInstruction,
    /// The running instruction does not belong to this program.
    InvalidActiveProgram,
    /// The vault has nothing left to pay out.
    MintOver,
    /// The player's last round is less than the cooldown ago.
    PlayedAgainTooSoon,
    /// The history's counts and slots contradict each other.
    InvariantViolation,
    /// A value does not fit the integer type that has to hold it.
    ArithmeticOverflow,
}

} // verus!
