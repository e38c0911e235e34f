use crate::pubkey::Pubkey;
use vstd::prelude::*;

verus! {

/// What an instruction asks the token program and the runtime to do once
/// its checks have passed, in the order given.
#[derive(Clone, Copy, Debug, PartialEq, Eq)]
pub enum TokenAction {
    /// Move `amount` tokens from the token account `from` to the token
    /// account `to`, with `authority` signing.
    Transfer { from: Pubkey, to: Pubkey, authority: Pubkey, amount: u64 },
    /// Close the token account `account` and send its rent to `destination`,
    /// with `authority` signing.
    CloseAccount { account: Pubkey, destination: Pubkey, authority: Pubkey },
    /// Move every lamport held by the account `from` to the account `to`.
    DrainLamports { from: Pubkey, to: Pubkey },
}

} // verus!
