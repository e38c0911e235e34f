//! The multiplayer wager game: a game maker opens a game, players join by
//! paying in a wager and fees, may leave while the game waits, and the game
//! is settled by paying creator fees, the winners and the house fee.
pub mod error;
pub mod instructions;
pub mod state;
