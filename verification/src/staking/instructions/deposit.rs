use crate::actions::TokenAction;
use crate::pubkey::Pubkey;
use crate::staking::state::{counted_lp, lp_held, UserAccount, Vault};
use vstd::prelude::*;

verus! {

/// The accounts the deposit instruction works on: the depositing signer,
/// the signer's account in the vault and the bump of its address, the
/// vault and its address, the signer's token account, and the vault's
/// token account with the number of tokens it holds.
#[derive(Clone, Copy, Debug, PartialEq, Eq)]
pub struct Deposit {
    pub signer: Pubkey,
    pub user_account: UserAccount,
    pub user_account_bump: u8,
    pub vault: Vault,
    pub vault_key: Pubkey,
    pub signer_ata: Pubkey,
    pub vault_ta: Pubkey,
    pub vault_ta_amount: u64,
}

/// The shares a deposit of `amount` tokens earns from a vault that holds
/// `vault_tokens` tokens and has issued `total_lp` shares: the same part of
/// the shares as the deposit is of the tokens, rounded down; the first
/// deposit earns one share per token.
pub open spec fn lp_for_deposit(amount: u64, total_lp: u64, vault_tokens: u64) -> int {
    if total_lp > 0 {
        (amount * total_lp) / (vault_tokens as int)
    } else {
        amount as int
    }
}

/// The depositor's account as the deposit finds it: set up for the signer
/// and the vault on first use, as it was otherwise.
pub open spec fn user_before_deposit(ctx: Deposit) -> UserAccount {
    if !ctx.user_account.initialized {
        UserAccount {
            owner: ctx.signer,
            vault: ctx.vault_key,
            lp: 0,
            staking_end: 0,
            initialized: true,
            bump: ctx.user_account_bump,
        }
    } else {
        ctx.user_account
    }
}

/// The shares the deposit issues.
pub open spec fn deposit_lp(ctx: Deposit, amount: u64) -> int {
    lp_for_deposit(amount, ctx.vault.total_lp, ctx.vault_ta_amount)
}

/// The vault once the deposit's shares are issued.
pub open spec fn vault_after_deposit(ctx: Deposit, amount: u64) -> Vault {
    Vault { total_lp: (ctx.vault.total_lp + deposit_lp(ctx, amount)) as u64, ..ctx.vault }
}

/// The depositor's account once the deposit's shares are counted in it.
pub open spec fn user_after_deposit(ctx: Deposit, amount: u64) -> UserAccount {
    let user = user_before_deposit(ctx);
    UserAccount { lp: (user.lp + deposit_lp(ctx, amount)) as u64, ..user }
}

/// Depositing does not fail: a vault that has issued shares holds tokens,
/// and the shares issued fit in an amount, added to the vault's count and
/// to the depositor's.
pub open spec fn deposit_fits(ctx: Deposit, amount: u64) -> bool {
    &&& ctx.vault.total_lp > 0 ==> ctx.vault_ta_amount > 0
    &&& ctx.vault.total_lp + deposit_lp(ctx, amount) <= u64::MAX
    &&& user_before_deposit(ctx).lp + deposit_lp(ctx, amount) <= u64::MAX
}

/// Whether depositing `amount` would fail (see `deposit_fits`).
pub fn deposit_would_fail(ctx: &Deposit, amount: u64) -> (r: bool)
    ensures
        r == !deposit_fits(*ctx, amount),
{
    let total_lp = ctx.vault.total_lp as u128;
    let lp: u128 = if ctx.vault.total_lp > 0 {
        if ctx.vault_ta_amount == 0 {
            return true;
        }
        let a = amount as u128;
        assert(a * total_lp <= 0xffff_ffff_ffff_ffffu128 * 0xffff_ffff_ffff_ffffu128) by (nonlinear_arith)
            requires
                a <= 0xffff_ffff_ffff_ffffu128,
                total_lp <= 0xffff_ffff_ffff_ffffu128,
        ;
        let product = a * total_lp;
        assert(product / (ctx.vault_ta_amount as u128) <= product) by (nonlinear_arith)
            requires
                ctx.vault_ta_amount > 0,
                product >= 0,
        {
            vstd::arithmetic::div_mod::lemma_div_is_ordered_by_denominator(product as int, 1, ctx.vault_ta_amount as int);
        }
        product / (ctx.vault_ta_amount as u128)
    } else {
        amount as u128
    };
    let user_lp: u128 = if ctx.user_account.initialized {
        ctx.user_account.lp as u128
    } else {
        0
    };
    if lp > 0xffff_ffff_ffff_ffffu128 {
        return true;
    }
    total_lp + lp > 0xffff_ffff_ffff_ffffu128 || user_lp + lp > 0xffff_ffff_ffff_ffffu128
}

/// Deposits `amount` tokens: the signer's account is set up on first use,
/// the vault issues shares for the deposit to the signer, and the tokens
/// move from the signer's token account to the vault's.
pub fn deposit_handler(ctx: &mut Deposit, amount: u64) -> (actions: Vec<TokenAction>)
    requires
        deposit_fits(*old(ctx), amount),
    ensures
        final(ctx).vault == vault_after_deposit(*old(ctx), amount),
        final(ctx).user_account == user_after_deposit(*old(ctx), amount),
        final(ctx).signer == old(ctx).signer,
        final(ctx).user_account_bump == old(ctx).user_account_bump,
        final(ctx).vault_key == old(ctx).vault_key,
        final(ctx).signer_ata == old(ctx).signer_ata,
        final(ctx).vault_ta == old(ctx).vault_ta,
        final(ctx).vault_ta_amount == old(ctx).vault_ta_amount,
        actions@ == seq![
            TokenAction::Transfer {
                from: old(ctx).signer_ata,
                to: old(ctx).vault_ta,
                authority: old(ctx).signer,
                amount,
            },
        ],
{
    if !ctx.user_account.initialized {
        ctx.user_account.owner = ctx.signer;
        ctx.user_account.vault = ctx.vault_key;
        ctx.user_account.lp = 0;
        ctx.user_account.staking_end = 0;
        ctx.user_account.initialized = true;
        ctx.user_account.bump = ctx.user_account_bump;
    }
    let total_vault_tokens = ctx.vault_ta_amount;
    let total_lp_issued = ctx.vault.total_lp;
    let lp_tokens_for_deposit: u64 = if total_lp_issued > 0 {
        let a = amount as u128;
        let b = total_lp_issued as u128;
        assert(a * b <= 0xffff_ffff_ffff_ffffu128 * 0xffff_ffff_ffff_ffffu128) by (nonlinear_arith)
            requires
                a <= 0xffff_ffff_ffff_ffffu128,
                b <= 0xffff_ffff_ffff_ffffu128,
        ;
        let product = a * b;
        let shares = product / (total_vault_tokens as u128);
        shares as u64
    } else {
        amount
    };
    ctx.vault.total_lp = ctx.vault.total_lp + lp_tokens_for_deposit;
    ctx.user_account.lp = ctx.user_account.lp + lp_tokens_for_deposit;
    let mut actions: Vec<TokenAction> = Vec::new();
    actions.push(
        TokenAction::Transfer { from: ctx.signer_ata, to: ctx.vault_ta, authority: ctx.signer, amount },
    );
    actions
}

/// A deposit never dilutes the other holders: the shares it issues, set
/// against the tokens the vault held, are worth no more than the deposit.
pub proof fn lemma_deposit_does_not_dilute(amount: u64, total_lp: u64, vault_tokens: u64)
    requires
        total_lp > 0,
        vault_tokens > 0,
    ensures
        lp_for_deposit(amount, total_lp, vault_tokens) * vault_tokens <= amount * total_lp,
        lp_for_deposit(amount, total_lp, vault_tokens) >= 0,
{
    let p = amount * total_lp;
    let q = p / (vault_tokens as int);
    vstd::arithmetic::div_mod::lemma_fundamental_div_mod(p, vault_tokens as int);
    vstd::arithmetic::div_mod::lemma_mod_bound(p, vault_tokens as int);
    assert(p >= 0) by (nonlinear_arith)
        requires
            amount >= 0,
            total_lp >= 0,
            p == amount * total_lp,
    ;
    vstd::arithmetic::div_mod::lemma_div_pos_is_pos(p, vault_tokens as int);
    assert(q * vault_tokens <= p) by (nonlinear_arith)
        requires
            p == vault_tokens * q + p % (vault_tokens as int),
            p % (vault_tokens as int) >= 0,
    ;
}

/// A deposit keeps the vault's share count equal to the shares its
/// depositors hold: where the vault counted the shares of the other
/// depositor accounts `others` and of the depositor's own account, it does
/// so after the deposit too, the vault's count and the depositor's growing
/// by the same number.
pub proof fn lemma_deposit_keeps_ledger(ctx: Deposit, amount: u64, others: Seq<UserAccount>)
    requires
        deposit_fits(ctx, amount),
        ctx.vault.total_lp == lp_held(others) + counted_lp(ctx.user_account),
    ensures
        vault_after_deposit(ctx, amount).total_lp == lp_held(others) + counted_lp(
            user_after_deposit(ctx, amount),
        ),
{
}

/// How many shares a deposit earns: from a vault that has issued no shares,
/// one share per token whatever the vault holds; otherwise the largest
/// count whose worth against the vault's tokens does not exceed the deposit's
/// part of the issued shares. The vault's count and the depositor's both grow
/// by that many, the depositor's starting from zero on first use.
pub proof fn lemma_deposit_shares(ctx: Deposit, amount: u64)
    requires
        deposit_fits(ctx, amount),
    ensures
        ({
            let m = vault_after_deposit(ctx, amount).total_lp - ctx.vault.total_lp;
            &&& ctx.vault.total_lp == 0 ==> m == amount
            &&& ctx.vault.total_lp > 0 ==> m >= 0 && m * ctx.vault_ta_amount <= amount
                * ctx.vault.total_lp < (m + 1) * ctx.vault_ta_amount
            &&& user_after_deposit(ctx, amount).lp == counted_lp(ctx.user_account) + m
            &&& user_after_deposit(ctx, amount).owner == (if ctx.user_account.initialized {
                ctx.user_account.owner
            } else {
                ctx.signer
            })
            &&& user_after_deposit(ctx, amount).initialized
            &&& vault_after_deposit(ctx, amount).mint == ctx.vault.mint
        }),
{
    if ctx.vault.total_lp > 0 {
        let p = amount * ctx.vault.total_lp;
        let t = ctx.vault_ta_amount as int;
        assert(p >= 0) by (nonlinear_arith)
            requires
                p == amount * ctx.vault.total_lp,
                amount >= 0,
                ctx.vault.total_lp >= 0,
        ;
        vstd::arithmetic::div_mod::lemma_fundamental_div_mod(p, t);
        vstd::arithmetic::div_mod::lemma_mod_bound(p, t);
        vstd::arithmetic::div_mod::lemma_div_pos_is_pos(p, t);
        let q = p / t;
        assert(q * t <= p < (q + 1) * t) by (nonlinear_arith)
            requires
                p == t * q + p % t,
                0 <= p % t < t,
        ;
    }
}

} // verus!
