//! Account logic of two token programs: a multiplayer wager game and a
//! staking vault. Each instruction is a function from the accounts it
//! reads to the accounts it writes and the token actions it asks for.
pub mod actions;
pub mod multiplayer;
pub mod pubkey;
pub mod staking;
