use crate::pubkey::Pubkey;
use crate::staking::state::Vault;
use vstd::prelude::*;

verus! {

/// The accounts the vault-opening instruction works on: the mint, the new
/// vault, the bump of the vault's address, and the vault's token account.
#[derive(Clone, Copy, Debug, PartialEq, Eq)]
pub struct CreateVault {
    pub mint: Pubkey,
    pub vault: Vault,
    pub vault_bump: u8,
    pub vault_ta: Pubkey,
}

/// Records in the vault its mint, its token account and its bump.
pub fn create_vault_handler(ctx: &mut CreateVault)
    ensures
        final(ctx).vault == (Vault {
            mint: old(ctx).mint,
            mint_token_account: old(ctx).vault_ta,
            bump: old(ctx).vault_bump,
            ..old(ctx).vault
        }),
        final(ctx).mint == old(ctx).mint,
        final(ctx).vault_bump == old(ctx).vault_bump,
        final(ctx).vault_ta == old(ctx).vault_ta,
{
    ctx.vault.mint = ctx.mint;
    ctx.vault.mint_token_account = ctx.vault_ta;
    ctx.vault.bump = ctx.vault_bump;
}

} // verus!
