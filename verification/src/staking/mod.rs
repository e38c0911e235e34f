//! The staking vault: a vault holds one token; depositors receive shares
//! of the vault, counted in the vault and in each depositor's account, and
//! give shares back on withdrawal.
pub mod error;
pub mod instructions;
pub mod state;
