use crate::actions::TokenAction;
use crate::pubkey::Pubkey;
use crate::staking::error::VaultError;
use crate::staking::instructions::deposit::{
    deposit_fits, deposit_lp, lp_for_deposit, user_before_deposit, Deposit,
};
use crate::staking::state::{counted_lp, lp_held, UserAccount, Vault};
use vstd::prelude::*;

verus! {

/// The accounts the withdrawal instruction works on: the signer, the
/// signer's account in the vault, the vault, the signer's token account,
/// and the vault's token account with the number of tokens it holds.
#[derive(Clone, Copy, Debug, PartialEq, Eq)]
pub struct Withdraw {
    pub signer: Pubkey,
    pub user_account: UserAccount,
    pub vault: Vault,
    pub signer_ata: Pubkey,
    pub vault_ta: Pubkey,
    pub vault_ta_amount: u64,
}

/// The tokens that `lp` shares stand for in a vault that holds
/// `vault_tokens` tokens and has issued `total_lp` shares, rounded down.
pub open spec fn tokens_for_lp(lp: u64, vault_tokens: u64, total_lp: u64) -> int {
    (lp * vault_tokens) / (total_lp as int)
}

/// The outcome of giving back `amount` shares: refused when the vault has
/// issued no shares, when the tokens they stand for do not fit in an amount,
/// or when the depositor or the vault holds fewer shares than that.
pub open spec fn withdraw_error(ctx: Withdraw, amount: u64) -> Option<VaultError> {
    if ctx.vault.total_lp == 0 {
        Some(VaultError::DivideByZero)
    } else if tokens_for_lp(amount, ctx.vault_ta_amount, ctx.vault.total_lp) > u64::MAX {
        Some(VaultError::CalculationFailure)
    } else if ctx.user_account.lp < amount || ctx.vault.total_lp < amount {
        Some(VaultError::InsufficientFunds)
    } else {
        None
    }
}

/// The accounts once `amount` shares are given back.
pub open spec fn after_withdraw(ctx: Withdraw, amount: u64) -> Withdraw {
    Withdraw {
        user_account: UserAccount { lp: (ctx.user_account.lp - amount) as u64, ..ctx.user_account },
        vault: Vault { total_lp: (ctx.vault.total_lp - amount) as u64, ..ctx.vault },
        ..ctx
    }
}

/// Gives back `amount` shares: both the signer's count and the vault's drop
/// by `amount`, and `amount` tokens move from the signer's token account to
/// the vault's token account with the signer signing.
///
/// A refused withdrawal changes nothing.
pub fn withdraw_handler(ctx: &mut Withdraw, amount: u64) -> (r: Result<
    Vec<TokenAction>,
    VaultError,
>)
    ensures
        withdraw_error(*old(ctx), amount) matches Some(e) ==> r == Err::<Vec<TokenAction>, VaultError>(e)
            && *final(ctx) == *old(ctx),
        withdraw_error(*old(ctx), amount) is None ==> {
            &&& r matches Ok(actions)
            &&& actions@ == seq![
                TokenAction::Transfer {
                    from: old(ctx).signer_ata,
                    to: old(ctx).vault_ta,
                    authority: old(ctx).signer,
                    amount,
                },
            ]
            &&& *final(ctx) == after_withdraw(*old(ctx), amount)
        },
{
    let total_vault_tokens = ctx.vault_ta_amount;
    let total_lp_issued = ctx.vault.total_lp;
    if total_lp_issued == 0 {
        return Err(VaultError::DivideByZero);
    }
    let a = amount as u128;
    let b = total_vault_tokens as u128;
    assert(a * b <= 0xffff_ffff_ffff_ffffu128 * 0xffff_ffff_ffff_ffffu128) by (nonlinear_arith)
        requires
            a <= 0xffff_ffff_ffff_ffffu128,
            b <= 0xffff_ffff_ffff_ffffu128,
    ;
    let amount_to_withdraw = (a * b) / (total_lp_issued as u128);
    if amount_to_withdraw > 0xffff_ffff_ffff_ffffu128 {
        return Err(VaultError::CalculationFailure);
    }
    if ctx.user_account.lp < amount {
        return Err(VaultError::InsufficientFunds);
    }
    if ctx.vault.total_lp < amount {
        return Err(VaultError::InsufficientFunds);
    }
    ctx.user_account.lp = ctx.user_account.lp - amount;
    ctx.vault.total_lp = ctx.vault.total_lp - amount;
    let mut actions: Vec<TokenAction> = Vec::new();
    actions.push(
        TokenAction::Transfer { from: ctx.signer_ata, to: ctx.vault_ta, authority: ctx.signer, amount },
    );
    Ok(actions)
}

/// Depositing and then giving back the shares the deposit earned never
/// yields more tokens than were deposited: rounding favours the vault.
pub proof fn lemma_no_profit_from_round_trip(amount: u64, total_lp: u64, vault_tokens: u64)
    requires
        total_lp > 0,
        vault_tokens > 0,
        total_lp + lp_for_deposit(amount, total_lp, vault_tokens) <= u64::MAX,
        vault_tokens + amount <= u64::MAX,
    ensures
        ({
            let minted = lp_for_deposit(amount, total_lp, vault_tokens) as u64;
            tokens_for_lp(minted, (vault_tokens + amount) as u64, (total_lp + minted) as u64)
                <= amount
        }),
{
    crate::staking::instructions::deposit::lemma_deposit_does_not_dilute(
        amount,
        total_lp,
        vault_tokens,
    );
    let m = lp_for_deposit(amount, total_lp, vault_tokens);
    let t = vault_tokens as int;
    let d = amount as int;
    let l = total_lp as int;
    assert(m * (t + d) <= d * (l + m)) by (nonlinear_arith)
        requires
            m * t <= d * l,
            m >= 0,
            d >= 0,
    ;
    let num = m * (t + d);
    let den = l + m;
    assert(num / den <= d) by (nonlinear_arith)
        requires
            num <= d * den,
            den > 0,
            num >= 0,
    {
        vstd::arithmetic::div_mod::lemma_div_is_ordered(num, d * den, den);
        vstd::arithmetic::div_mod::lemma_div_multiples_vanish(d, den);
    }
}

proof fn lemma_share_of_tokens_fits(lp: u64, vault_tokens: u64, total_lp: u64)
    requires
        0 < total_lp,
        lp <= total_lp,
    ensures
        0 <= tokens_for_lp(lp, vault_tokens, total_lp) <= vault_tokens,
{
    let num = lp * vault_tokens;
    assert(0 <= num <= total_lp * vault_tokens) by (nonlinear_arith)
        requires
            lp <= total_lp,
            num == lp * vault_tokens,
            lp >= 0,
            vault_tokens >= 0,
    ;
    vstd::arithmetic::div_mod::lemma_div_is_ordered(num, total_lp * vault_tokens, total_lp as int);
    vstd::arithmetic::div_mod::lemma_div_multiples_vanish(vault_tokens as int, total_lp as int);
    vstd::arithmetic::div_mod::lemma_div_pos_is_pos(num, total_lp as int);
}

/// No depositor holds more shares than the vault has issued: deposits and
/// withdrawals keep a depositor's count at most the vault's.
pub proof fn lemma_shares_within_issued(d: Deposit, amount: u64, w: Withdraw, back: u64)
    requires
        deposit_fits(d, amount),
        d.user_account.initialized ==> d.user_account.lp <= d.vault.total_lp,
        w.user_account.lp <= w.vault.total_lp,
        withdraw_error(w, back) is None,
    ensures
        user_before_deposit(d).lp + deposit_lp(d, amount) <= d.vault.total_lp + deposit_lp(d, amount),
        w.user_account.lp - back <= w.vault.total_lp - back,
{
}

/// Giving back the shares a deposit earned undoes the deposit's share
/// counts: the withdrawal is accepted and leaves the depositor's count and
/// the vault's as they were before the deposit. (A vault that has issued no
/// shares even after the deposit refuses the withdrawal.)
pub proof fn lemma_withdraw_undoes_deposit(d: Deposit, amount: u64, w: Withdraw)
    requires
        deposit_fits(d, amount),
        d.user_account.initialized,
        d.vault.total_lp + deposit_lp(d, amount) > 0,
        w.user_account == (UserAccount {
            lp: (d.user_account.lp + deposit_lp(d, amount)) as u64,
            ..d.user_account
        }),
        w.vault == (Vault { total_lp: (d.vault.total_lp + deposit_lp(d, amount)) as u64, ..d.vault }),
    ensures
        withdraw_error(w, deposit_lp(d, amount) as u64) is None,
        (UserAccount {
            lp: (w.user_account.lp - deposit_lp(d, amount)) as u64,
            ..w.user_account
        }) == d.user_account,
        (Vault { total_lp: (w.vault.total_lp - deposit_lp(d, amount)) as u64, ..w.vault }) == d.vault,
{
    let lp = deposit_lp(d, amount);
    if d.vault.total_lp > 0 {
        crate::staking::instructions::deposit::lemma_deposit_does_not_dilute(
            amount,
            d.vault.total_lp,
            d.vault_ta_amount,
        );
    }
    lemma_share_of_tokens_fits(lp as u64, w.vault_ta_amount, w.vault.total_lp);
}

/// A withdrawal keeps the vault's share count equal to the shares its
/// depositors hold: the vault's count and the depositor's drop by the same
/// number. (A refused withdrawal changes nothing.)
pub proof fn lemma_withdraw_keeps_ledger(ctx: Withdraw, amount: u64, others: Seq<UserAccount>)
    requires
        ctx.user_account.initialized,
        ctx.vault.total_lp == lp_held(others) + counted_lp(ctx.user_account),
        withdraw_error(ctx, amount) is None,
    ensures
        after_withdraw(ctx, amount).vault.total_lp == lp_held(others) + counted_lp(
            after_withdraw(ctx, amount).user_account,
        ),
{
}

/// When a withdrawal is refused, and what an accepted one does: refused with
/// `DivideByZero` when the vault has issued no shares; otherwise with
/// `CalculationFailure` when the tokens the shares stand for (their part of
/// the vault's tokens, rounded down) exceed an amount; otherwise with
/// `InsufficientFunds` when the depositor or the vault counts fewer shares.
/// An accepted withdrawal takes exactly `amount` shares from the depositor's
/// count and from the vault's, and changes nothing else.
pub proof fn lemma_withdraw_rules(ctx: Withdraw, amount: u64)
    ensures
        ctx.vault.total_lp == 0 ==> withdraw_error(ctx, amount) == Some(VaultError::DivideByZero),
        ctx.vault.total_lp > 0 && amount * ctx.vault_ta_amount >= (u64::MAX + 1) * ctx.vault.total_lp
            ==> withdraw_error(ctx, amount) == Some(VaultError::CalculationFailure),
        ctx.vault.total_lp > 0 && amount * ctx.vault_ta_amount < (u64::MAX + 1) * ctx.vault.total_lp
            && (ctx.user_account.lp < amount || ctx.vault.total_lp < amount) ==> withdraw_error(
            ctx,
            amount,
        ) == Some(VaultError::InsufficientFunds),
        ctx.vault.total_lp > 0 && amount * ctx.vault_ta_amount < (u64::MAX + 1) * ctx.vault.total_lp
            && ctx.user_account.lp >= amount && ctx.vault.total_lp >= amount ==> withdraw_error(
            ctx,
            amount,
        ) is None,
        withdraw_error(ctx, amount) is None ==> {
            let after = after_withdraw(ctx, amount);
            &&& after.user_account.lp == ctx.user_account.lp - amount
            &&& after.vault.total_lp == ctx.vault.total_lp - amount
            &&& after.user_account.owner == ctx.user_account.owner
            &&& after.user_account.initialized == ctx.user_account.initialized
            &&& after.vault.mint == ctx.vault.mint
            &&& after.vault_ta_amount == ctx.vault_ta_amount
            &&& after.signer == ctx.signer
        },
{
    if ctx.vault.total_lp > 0 {
        let p = amount * ctx.vault_ta_amount;
        let l = ctx.vault.total_lp as int;
        assert(p >= 0) by (nonlinear_arith)
            requires
                p == amount * ctx.vault_ta_amount,
                amount >= 0,
                ctx.vault_ta_amount >= 0,
        ;
        vstd::arithmetic::div_mod::lemma_fundamental_div_mod(p, l);
        vstd::arithmetic::div_mod::lemma_mod_bound(p, l);
        let q = p / l;
        assert(q > u64::MAX <==> p >= (u64::MAX + 1) * l) by (nonlinear_arith)
            requires
                p == l * q + p % l,
                0 <= p % l < l,
                l > 0,
        ;
    }
}

} // verus!
