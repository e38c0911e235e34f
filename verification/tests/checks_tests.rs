use gamba::multiplayer::instructions::join_game::{join_would_overflow, may_join_game, JoinGame};
use gamba::multiplayer::instructions::leave_game::{leave_would_overflow, seat_of, LeaveGame};
use gamba::multiplayer::instructions::settle_game::{
    balance_would_overflow, settle_totals, winners_to_pay, SettleGame,
};
use gamba::multiplayer::state::{GambaState, Game, GameState, Player, WagerType};
use gamba::pubkey::Pubkey;
use gamba::staking::instructions::deposit::{deposit_would_fail, Deposit};
use gamba::staking::state::{UserAccount, Vault};

fn key(n: u8) -> Pubkey {
    Pubkey { bytes: [n; 32] }
}

fn seat(n: u8, wager: u64, creator_fee: u64, house_fee: u64) -> Player {
    Player { creator_address_ata: key(50), user_ata: key(n), creator_fee_amount: creator_fee, gamba_fee_amount: house_fee, wager }
}

fn game(players: Vec<Player>, wager_type: WagerType, wager: u64) -> Game {
    Game {
        game_maker: key(1),
        state: GameState::Waiting,
        mint: key(2),
        max_players: 10,
        players,
        winners: 3,
        game_id: 0,
        game_expiration_timestamp: 0,
        unique_identifier: 0,
        wager_type,
        wager,
        bump: 0,
    }
}

#[test]
fn seats_are_found_by_token_account() {
    let g = game(vec![seat(3, 1, 0, 0), seat(4, 1, 0, 0)], WagerType::SameWager, 1);
    assert_eq!(seat_of(&g, &key(4)), Some(1));
    assert_eq!(seat_of(&g, &key(5)), None);
    assert!(!may_join_game(&g, &key(3)));
    assert!(may_join_game(&g, &key(5)));
}

#[test]
fn join_overflow_is_detected() {
    let gs = GambaState { rng: key(0), authority: key(0), gamba_fee_bps: 100, initialized: true, bump: 0 };
    let ctx = JoinGame {
        game_account: game(vec![], WagerType::CustomWager, 0),
        gamba_state: gs,
        game_account_ta: key(30),
        player_account: key(9),
        player_ata: key(10),
        creator_ata: key(11),
    };
    assert!(!join_would_overflow(&ctx, 100, 1_000));
    assert!(join_would_overflow(&ctx, u32::MAX, u64::MAX / 2));
    assert!(join_would_overflow(&ctx, 0, u64::MAX));
}

#[test]
fn leave_overflow_is_detected() {
    let ctx = LeaveGame {
        game_account: game(vec![seat(10, u64::MAX, 1, 0)], WagerType::SameWager, 1),
        game_account_key: key(31),
        game_account_ta: key(30),
        player_account: key(9),
        player_ata: key(10),
    };
    assert!(leave_would_overflow(&ctx));
    let fine = LeaveGame { game_account: game(vec![seat(10, 5, 1, 1)], WagerType::SameWager, 1), ..ctx };
    assert!(!leave_would_overflow(&fine));
}

#[test]
fn settle_totals_and_winner_count() {
    let g = game(vec![seat(3, 100, 1, 2), seat(4, 200, 3, 4)], WagerType::CustomWager, 0);
    assert_eq!(settle_totals(&g), Some((300, 6)));
    let huge = game(vec![seat(3, u64::MAX, 0, 0), seat(4, 1, 0, 0)], WagerType::CustomWager, 0);
    assert_eq!(settle_totals(&huge), None);
    let ctx = SettleGame {
        game_account: g,
        game_account_key: key(31),
        game_account_ta: key(30),
        gamba_fee_ata: key(40),
        player_atas: vec![Some(key(3)), None, Some(key(4))],
        creator_atas: vec![],
    };
    assert_eq!(winners_to_pay(&ctx), 2);
}

#[test]
fn balance_overflow_is_detected() {
    assert!(!balance_would_overflow(&vec![1, 2, 3], 10));
    assert!(balance_would_overflow(&vec![u64::MAX, 1], 0));
    assert!(balance_would_overflow(&vec![], 5));
    assert!(!balance_would_overflow(&vec![], 0));
}

#[test]
fn deposit_failure_is_detected() {
    let user = UserAccount { owner: key(0), vault: key(0), lp: 0, staking_end: 0, initialized: false, bump: 0 };
    let vault = Vault { mint: key(2), mint_token_account: key(3), total_lp: 10, bump: 0 };
    let ctx = Deposit {
        signer: key(7),
        user_account: user,
        user_account_bump: 0,
        vault,
        vault_key: key(4),
        signer_ata: key(8),
        vault_ta: key(3),
        vault_ta_amount: 0,
    };
    assert!(deposit_would_fail(&ctx, 5));
    let ok = Deposit { vault_ta_amount: 20, ..ctx };
    assert!(!deposit_would_fail(&ok, 5));
    let full = Deposit { vault: Vault { total_lp: u64::MAX, ..vault }, vault_ta_amount: 1, ..ctx };
    assert!(deposit_would_fail(&full, 1));
}
