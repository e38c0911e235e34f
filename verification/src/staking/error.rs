use vstd::prelude::*;

verus! {

/// Errors of the staking program's own.
#[derive(Clone, Copy, Debug, PartialEq, Eq, Structural)]
pub enum GambaError {
    /// Cant unstake before staking period ends
    CantUnstakeBeforeStakingPeriodEnds,
}

impl GambaError {
    /// The message that goes with the error.
    pub fn message(&self) -> (s: &'static str)
        ensures
            s@ == "Cant unstake before staking period ends"@,
    {
        match self {
            GambaError::CantUnstakeBeforeStakingPeriodEnds => "Cant unstake before staking period ends",
        }
    }
}

/// Why a withdrawal was refused.
#[derive(Clone, Copy, Debug, PartialEq, Eq, Structural)]
pub enum VaultError {
    /// The vault has issued no shares.
    DivideByZero,
    /// The tokens owed for the shares do not fit in an amount.
    CalculationFailure,
    /// The depositor or the vault holds fewer shares than asked for.
    InsufficientFunds,
}

} // verus!
