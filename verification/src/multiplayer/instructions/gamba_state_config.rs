use crate::multiplayer::error::GambaError;
use crate::multiplayer::state::GambaState;
use crate::pubkey::Pubkey;
use vstd::prelude::*;

verus! {

/// The accounts the configuration instruction works on: the configuration
/// itself, the address of the signer, and the bump of the configuration's
/// address.
#[derive(Clone, Copy, Debug, PartialEq, Eq)]
pub struct GambaConfig {
    pub gamba_state: GambaState,
    pub authority: Pubkey,
    pub gamba_state_bump: u8,
}

/// The configuration may be written by anyone until it is first written,
/// and afterwards by its authority only.
pub open spec fn may_configure(state: GambaState, signer: Pubkey) -> bool {
    !state.initialized || state.authority == signer
}

/// The configuration once `signer` has set the house fee and the randomness
/// account.
pub open spec fn configured(signer: Pubkey, gamba_fee: u32, rng: Pubkey, bump: u8) -> GambaState {
    GambaState { rng, authority: signer, gamba_fee_bps: gamba_fee, initialized: true, bump }
}

/// Sets the house fee (in basis points) and the randomness account, and
/// makes the signer the authority of the configuration.
///
/// Once the configuration is set, a signer other than its authority is
/// refused with `AuthorityMismatch` and nothing changes.
pub fn gamba_config_handler(ctx: &mut GambaConfig, gamba_fee: u32, rng: Pubkey) -> (r: Result<
    (),
    GambaError,
>)
    ensures
        final(ctx).authority == old(ctx).authority,
        final(ctx).gamba_state_bump == old(ctx).gamba_state_bump,
        may_configure(old(ctx).gamba_state, old(ctx).authority) ==> r is Ok
            && final(ctx).gamba_state == configured(
            old(ctx).authority,
            gamba_fee,
            rng,
            old(ctx).gamba_state_bump,
        ),
        !may_configure(old(ctx).gamba_state, old(ctx).authority) ==> r == Err::<(), GambaError>(
            GambaError::AuthorityMismatch,
        ) && final(ctx).gamba_state == old(ctx).gamba_state,
{
    if ctx.gamba_state.initialized {
        if !ctx.gamba_state.authority.same_as(&ctx.authority) {
            return Err(GambaError::AuthorityMismatch);
        }
    }
    ctx.gamba_state.rng = rng;
    ctx.gamba_state.authority = ctx.authority;
    ctx.gamba_state.gamba_fee_bps = gamba_fee;
    ctx.gamba_state.initialized = true;
    ctx.gamba_state.bump = ctx.gamba_state_bump;
    Ok(())
}

/// Once a signer has set the configuration, any other signer is refused and
/// the configuration stays as it was.
pub proof fn lemma_configuration_is_locked(
    before: GambaState,
    first: Pubkey,
    other: Pubkey,
    gamba_fee: u32,
    rng: Pubkey,
    bump: u8,
)
    requires
        may_configure(before, first),
        other != first,
    ensures
        !may_configure(configured(first, gamba_fee, rng, bump), other),
        may_configure(configured(first, gamba_fee, rng, bump), first),
{
}

/// What configuring does: the signer is refused exactly when the
/// configuration was already set by another authority; an accepted signer
/// becomes the authority, and the fee, the randomness account and the bump
/// passed are recorded, with the configuration marked as set.
pub proof fn lemma_configuration_fields(
    state: GambaState,
    signer: Pubkey,
    gamba_fee: u32,
    rng: Pubkey,
    bump: u8,
)
    ensures
        may_configure(state, signer) <==> (!state.initialized || state.authority == signer),
        configured(signer, gamba_fee, rng, bump).authority == signer,
        configured(signer, gamba_fee, rng, bump).gamba_fee_bps == gamba_fee,
        configured(signer, gamba_fee, rng, bump).rng == rng,
        configured(signer, gamba_fee, rng, bump).initialized,
        configured(signer, gamba_fee, rng, bump).bump == bump,
{
}

} // verus!
