use crate::pubkey::Pubkey;
use vstd::prelude::*;

verus! {

/// A vault: the mint it holds, its token account, the number of shares it
/// has issued, and the bump of its address.
#[derive(Clone, Copy, Debug, PartialEq, Eq)]
pub struct Vault {
    pub mint: Pubkey,
    pub mint_token_account: Pubkey,
    pub total_lp: u64,
    pub bump: u8,
}

/// A depositor's account in a vault: who owns it, which vault it belongs
/// to, the shares it holds, and when its staking ends.
#[derive(Clone, Copy, Debug, PartialEq, Eq)]
pub struct UserAccount {
    pub owner: Pubkey,
    pub vault: Pubkey,
    pub lp: u64,
    pub staking_end: i64,
    pub initialized: bool,
    pub bump: u8,
}

/// The shares a depositor's account counts: none before it is set up.
pub open spec fn counted_lp(u: UserAccount) -> int {
    if u.initialized {
        u.lp as int
    } else {
        0
    }
}

/// The shares counted by a list of depositor accounts.
pub open spec fn lp_held(users: Seq<UserAccount>) -> int
    decreases users.len(),
{
    if users.len() == 0 {
        0
    } else {
        lp_held(users.drop_last()) + counted_lp(users.last())
    }
}

} // verus!
