use vstd::prelude::*;

verus! {

/// Why a game instruction was refused.
#[derive(Clone, Copy, Debug, PartialEq, Eq, Structural)]
pub enum GambaError {
    /// Player is already in the game
    PlayerAlreadyInGame,
    /// Player is not in the game
    PlayerNotInGame,
    /// Game is already in progress
    GameInProgress,
    /// Invalid game account
    InvalidGameAccount,
    /// Cannot settle yet
    CannotSettleYet,
    /// Authority mismatch
    AuthorityMismatch,
}

impl GambaError {
    /// The message that goes with the error.
    pub fn message(&self) -> (s: &'static str)
        ensures
            s@ == match *self {
                GambaError::PlayerAlreadyInGame => "Player is already in the game"@,
                GambaError::PlayerNotInGame => "Player is not in the game"@,
                GambaError::GameInProgress => "Game is already in progress"@,
                GambaError::InvalidGameAccount => "Invalid game account"@,
                GambaError::CannotSettleYet => "Cannot settle yet"@,
                GambaError::AuthorityMismatch => "Authority mismatch"@,
            },
    {
        match self {
            GambaError::PlayerAlreadyInGame => "Player is already in the game",
            GambaError::PlayerNotInGame => "Player is not in the game",
            GambaError::GameInProgress => "Game is already in progress",
            GambaError::InvalidGameAccount => "Invalid game account",
            GambaError::CannotSettleYet => "Cannot settle yet",
            GambaError::AuthorityMismatch => "Authority mismatch",
        }
    }
}

} // verus!
