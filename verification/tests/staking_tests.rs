use gamba::actions::TokenAction;
use gamba::pubkey::Pubkey;
use gamba::staking::error::{GambaError, VaultError};
use gamba::staking::instructions::create_vault::{create_vault_handler, CreateVault};
use gamba::staking::instructions::deposit::{deposit_handler, Deposit};
use gamba::staking::instructions::withdraw::{withdraw_handler, Withdraw};
use gamba::staking::state::{UserAccount, Vault};

fn key(n: u8) -> Pubkey {
    Pubkey { bytes: [n; 32] }
}

fn fresh_user() -> UserAccount {
    UserAccount { owner: key(0), vault: key(0), lp: 0, staking_end: 0, initialized: false, bump: 0 }
}

fn vault(total_lp: u64) -> Vault {
    Vault { mint: key(2), mint_token_account: key(3), total_lp, bump: 250 }
}

fn deposit_ctx(user: UserAccount, v: Vault, tokens: u64) -> Deposit {
    Deposit {
        signer: key(7),
        user_account: user,
        user_account_bump: 249,
        vault: v,
        vault_key: key(4),
        signer_ata: key(8),
        vault_ta: key(3),
        vault_ta_amount: tokens,
    }
}

fn withdraw_ctx(user: UserAccount, v: Vault, tokens: u64) -> Withdraw {
    Withdraw { signer: key(7), user_account: user, vault: v, signer_ata: key(8), vault_ta: key(3), vault_ta_amount: tokens }
}

#[test]
fn create_vault_records_mint_and_token_account() {
    let mut ctx = CreateVault { mint: key(2), vault: vault(0), vault_bump: 200, vault_ta: key(9) };
    ctx.vault.mint = key(0);
    create_vault_handler(&mut ctx);
    assert_eq!(ctx.vault, Vault { mint: key(2), mint_token_account: key(9), total_lp: 0, bump: 200 });
}

#[test]
fn first_deposit_earns_one_share_per_token() {
    let mut ctx = deposit_ctx(fresh_user(), vault(0), 0);
    let actions = deposit_handler(&mut ctx, 500);
    assert_eq!(ctx.vault.total_lp, 500);
    assert_eq!(
        ctx.user_account,
        UserAccount { owner: key(7), vault: key(4), lp: 500, staking_end: 0, initialized: true, bump: 249 }
    );
    assert_eq!(actions, vec![TokenAction::Transfer { from: key(8), to: key(3), authority: key(7), amount: 500 }]);
}

#[test]
fn later_deposit_earns_its_share() {
    let user = UserAccount { owner: key(7), vault: key(4), lp: 100, staking_end: 5, initialized: true, bump: 1 };
    let mut ctx = deposit_ctx(user, vault(1_000), 2_000);
    deposit_handler(&mut ctx, 500);
    assert_eq!(ctx.vault.total_lp, 1_250);
    assert_eq!(ctx.user_account.lp, 350);
    assert_eq!(ctx.user_account.staking_end, 5);
}

#[test]
fn deposit_rounds_shares_down() {
    let mut ctx = deposit_ctx(fresh_user(), vault(1_000), 3_000);
    deposit_handler(&mut ctx, 10);
    // 10 * 1000 / 3000 = 3.33.., and 3 * 3000 <= 10 * 1000
    assert_eq!(ctx.user_account.lp, 3);
    assert_eq!(ctx.vault.total_lp, 1_003);
}

#[test]
fn withdraw_burns_shares() {
    let user = UserAccount { owner: key(7), vault: key(4), lp: 300, staking_end: 0, initialized: true, bump: 1 };
    let mut ctx = withdraw_ctx(user, vault(1_000), 2_000);
    let actions = withdraw_handler(&mut ctx, 200).unwrap();
    assert_eq!(ctx.user_account.lp, 100);
    assert_eq!(ctx.vault.total_lp, 800);
    assert_eq!(actions, vec![TokenAction::Transfer { from: key(8), to: key(3), authority: key(7), amount: 200 }]);
}

#[test]
fn withdraw_from_empty_vault_is_refused() {
    let mut ctx = withdraw_ctx(fresh_user(), vault(0), 100);
    assert_eq!(withdraw_handler(&mut ctx, 0), Err(VaultError::DivideByZero));
}

#[test]
fn withdraw_too_many_shares_is_refused() {
    let user = UserAccount { owner: key(7), vault: key(4), lp: 10, staking_end: 0, initialized: true, bump: 1 };
    let mut ctx = withdraw_ctx(user, vault(1_000), 1_000);
    assert_eq!(withdraw_handler(&mut ctx, 11), Err(VaultError::InsufficientFunds));
    assert_eq!(ctx.user_account.lp, 10);
    assert_eq!(ctx.vault.total_lp, 1_000);
    let rich = UserAccount { owner: key(7), vault: key(4), lp: 5_000, staking_end: 0, initialized: true, bump: 1 };
    let mut ctx = withdraw_ctx(rich, vault(1_000), 1_000);
    assert_eq!(withdraw_handler(&mut ctx, 2_000), Err(VaultError::InsufficientFunds));
    assert_eq!(ctx.user_account.lp, 5_000);
}

#[test]
fn withdraw_worth_more_than_an_amount_is_refused() {
    let user = UserAccount { owner: key(7), vault: key(4), lp: u64::MAX, staking_end: 0, initialized: true, bump: 1 };
    let mut ctx = withdraw_ctx(user, vault(1), u64::MAX);
    assert_eq!(withdraw_handler(&mut ctx, 2), Err(VaultError::CalculationFailure));
    assert_eq!(ctx.vault.total_lp, 1);
}

#[test]
fn withdraw_undoes_deposit_shares() {
    let user = UserAccount { owner: key(7), vault: key(4), lp: 40, staking_end: 0, initialized: true, bump: 1 };
    let mut d = deposit_ctx(user, vault(1_000), 4_000);
    deposit_handler(&mut d, 1_000);
    let minted = d.user_account.lp - 40;
    assert_eq!(minted, 250);
    let mut w = withdraw_ctx(d.user_account, d.vault, 5_000);
    withdraw_handler(&mut w, minted).unwrap();
    assert_eq!(w.user_account, user);
    assert_eq!(w.vault, vault(1_000));
}

#[test]
fn staking_error_message() {
    assert_eq!(
        GambaError::CantUnstakeBeforeStakingPeriodEnds.message(),
        "Cant unstake before staking period ends"
    );
}

#[test]
fn vault_count_matches_depositor_counts() {
    let mut v = vault(0);
    let mut alice = fresh_user();
    let mut bob = fresh_user();
    let mut tokens = 0u64;
    for (who, amount) in [(0, 500u64), (1, 300), (0, 200)] {
        let user = if who == 0 { alice } else { bob };
        let mut d = deposit_ctx(user, v, tokens);
        deposit_handler(&mut d, amount);
        v = d.vault;
        tokens += amount;
        if who == 0 { alice = d.user_account } else { bob = d.user_account }
        assert_eq!(v.total_lp, alice.lp + bob.lp);
    }
    let mut w = withdraw_ctx(bob, v, tokens);
    withdraw_handler(&mut w, 100).unwrap();
    assert_eq!(w.vault.total_lp, alice.lp + w.user_account.lp);
}
