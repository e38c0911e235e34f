use gamba::actions::TokenAction;
use gamba::multiplayer::error::GambaError;
use gamba::multiplayer::instructions::create_game::{create_game_handler, CreateGame};
use gamba::multiplayer::instructions::gamba_state_config::{gamba_config_handler, GambaConfig};
use gamba::multiplayer::instructions::join_game::{join_game_handler, JoinGame};
use gamba::multiplayer::instructions::leave_game::{leave_game_handler, LeaveGame};
use gamba::multiplayer::state::{GambaState, Game, GameState, Player, WagerType};
use gamba::pubkey::Pubkey;

fn key(n: u8) -> Pubkey {
    Pubkey { bytes: [n; 32] }
}

fn empty_game() -> Game {
    Game {
        game_maker: key(0),
        state: GameState::Waiting,
        mint: key(0),
        max_players: 0,
        players: Vec::new(),
        winners: 0,
        game_id: 7,
        game_expiration_timestamp: 0,
        unique_identifier: 0,
        wager_type: WagerType::SameWager,
        wager: 0,
        bump: 0,
    }
}

fn waiting_game(max_players: u8, wager_type: WagerType, wager: u64) -> Game {
    Game {
        game_maker: key(1),
        state: GameState::Waiting,
        mint: key(2),
        max_players,
        players: Vec::new(),
        winners: 1,
        game_id: 0,
        game_expiration_timestamp: 1_000,
        unique_identifier: 5,
        wager_type,
        wager,
        bump: 254,
    }
}

fn config(fee_bps: u32) -> GambaState {
    GambaState { rng: key(9), authority: key(8), gamba_fee_bps: fee_bps, initialized: true, bump: 1 }
}

fn join_ctx(game: Game, player: u8) -> JoinGame {
    JoinGame {
        game_account: game,
        gamba_state: config(100),
        game_account_ta: key(30),
        player_account: key(player),
        player_ata: key(player + 100),
        creator_ata: key(50),
    }
}

#[test]
fn pubkey_same_as_compares_every_byte() {
    let a = key(3);
    let mut bytes = [3u8; 32];
    bytes[31] = 4;
    let b = Pubkey::new(bytes);
    assert!(a.same_as(&key(3)));
    assert!(!a.same_as(&b));
}

#[test]
fn first_configuration_sets_everything() {
    let uninit = GambaState { rng: key(0), authority: key(0), gamba_fee_bps: 0, initialized: false, bump: 0 };
    let mut ctx = GambaConfig { gamba_state: uninit, authority: key(4), gamba_state_bump: 253 };
    assert_eq!(gamba_config_handler(&mut ctx, 150, key(6)), Ok(()));
    assert_eq!(
        ctx.gamba_state,
        GambaState { rng: key(6), authority: key(4), gamba_fee_bps: 150, initialized: true, bump: 253 }
    );
}

#[test]
fn authority_may_reconfigure() {
    let mut ctx = GambaConfig { gamba_state: config(100), authority: key(8), gamba_state_bump: 7 };
    assert_eq!(gamba_config_handler(&mut ctx, 300, key(10)), Ok(()));
    assert_eq!(ctx.gamba_state.gamba_fee_bps, 300);
    assert_eq!(ctx.gamba_state.rng, key(10));
    assert_eq!(ctx.gamba_state.bump, 7);
}

#[test]
fn configuration_is_locked_to_its_authority() {
    let uninit = GambaState { rng: key(0), authority: key(0), gamba_fee_bps: 0, initialized: false, bump: 0 };
    let mut ctx = GambaConfig { gamba_state: uninit, authority: key(4), gamba_state_bump: 2 };
    gamba_config_handler(&mut ctx, 150, key(6)).unwrap();
    let before = ctx.gamba_state;
    let mut other = GambaConfig { gamba_state: before, authority: key(5), gamba_state_bump: 2 };
    assert_eq!(gamba_config_handler(&mut other, 9999, key(7)), Err(GambaError::AuthorityMismatch));
    assert_eq!(other.gamba_state, before);
}

#[test]
fn create_game_opens_a_waiting_game() {
    let mut ctx = CreateGame { game_account: empty_game(), mint: key(2), game_maker: key(1), game_account_bump: 250 };
    create_game_handler(&mut ctx, 4, 2, 3_600, 77, 0, 1_000, 1_700_000_000);
    let g = &ctx.game_account;
    assert_eq!(g.game_maker, key(1));
    assert_eq!(g.mint, key(2));
    assert_eq!(g.state, GameState::Waiting);
    assert_eq!(g.max_players, 4);
    assert_eq!(g.winners, 2);
    assert!(g.players.is_empty());
    assert_eq!(g.game_id, 0);
    assert_eq!(g.game_expiration_timestamp, 1_700_003_600);
    assert_eq!(g.unique_identifier, 77);
    assert_eq!(g.wager_type, WagerType::SameWager);
    assert_eq!(g.wager, 1_000);
    assert_eq!(g.bump, 250);
}

#[test]
fn any_positive_wager_code_is_a_custom_wager() {
    let mut ctx = CreateGame { game_account: empty_game(), mint: key(2), game_maker: key(1), game_account_bump: 1 };
    create_game_handler(&mut ctx, 2, 1, -10, 1, 3, 5, 100);
    assert_eq!(ctx.game_account.wager_type, WagerType::CustomWager);
    assert_eq!(ctx.game_account.game_expiration_timestamp, 90);
}

#[test]
fn join_same_wager_pays_game_wager_and_fees() {
    let mut ctx = join_ctx(waiting_game(3, WagerType::SameWager, 1_000), 1);
    let actions = join_game_handler(&mut ctx, 250, 5).unwrap();
    let expected = Player {
        creator_address_ata: key(50),
        user_ata: key(101),
        creator_fee_amount: 25,
        gamba_fee_amount: 10,
        wager: 1_000,
    };
    assert_eq!(ctx.game_account.players, vec![expected]);
    assert_eq!(ctx.game_account.state, GameState::Waiting);
    assert_eq!(
        actions,
        vec![TokenAction::Transfer { from: key(101), to: key(30), authority: key(1), amount: 1_035 }]
    );
}

#[test]
fn join_custom_wager_uses_player_wager() {
    let mut ctx = join_ctx(waiting_game(3, WagerType::CustomWager, 1_000), 1);
    let actions = join_game_handler(&mut ctx, 100, 20_000).unwrap();
    assert_eq!(ctx.game_account.players[0].wager, 20_000);
    assert_eq!(ctx.game_account.players[0].creator_fee_amount, 200);
    assert_eq!(ctx.game_account.players[0].gamba_fee_amount, 200);
    assert_eq!(
        actions,
        vec![TokenAction::Transfer { from: key(101), to: key(30), authority: key(1), amount: 20_400 }]
    );
}

#[test]
fn fees_round_down() {
    let mut ctx = join_ctx(waiting_game(3, WagerType::CustomWager, 0), 1);
    join_game_handler(&mut ctx, 3, 999).unwrap();
    assert_eq!(ctx.game_account.players[0].creator_fee_amount, 0);
    assert_eq!(ctx.game_account.players[0].gamba_fee_amount, 9);
}

#[test]
fn taking_last_seat_starts_the_game() {
    let mut ctx = join_ctx(waiting_game(2, WagerType::SameWager, 100), 1);
    join_game_handler(&mut ctx, 0, 0).unwrap();
    assert_eq!(ctx.game_account.state, GameState::Waiting);
    let mut ctx2 = join_ctx(ctx.game_account, 2);
    join_game_handler(&mut ctx2, 0, 0).unwrap();
    assert_eq!(ctx2.game_account.state, GameState::Playing);
    assert_eq!(ctx2.game_account.players.len(), 2);
}

#[test]
fn joining_twice_is_refused() {
    let mut ctx = join_ctx(waiting_game(3, WagerType::SameWager, 100), 1);
    join_game_handler(&mut ctx, 0, 0).unwrap();
    let before = ctx.game_account.players.clone();
    assert_eq!(join_game_handler(&mut ctx, 0, 0), Err(GambaError::PlayerAlreadyInGame));
    assert_eq!(ctx.game_account.players, before);
}

#[test]
fn joining_a_playing_game_is_refused() {
    let mut game = waiting_game(3, WagerType::SameWager, 100);
    game.state = GameState::Playing;
    let mut ctx = join_ctx(game, 1);
    assert_eq!(join_game_handler(&mut ctx, 0, 0), Err(GambaError::PlayerAlreadyInGame));
    assert!(ctx.game_account.players.is_empty());
}

fn leave_ctx(game: Game, player: u8) -> LeaveGame {
    LeaveGame {
        game_account: game,
        game_account_key: key(31),
        game_account_ta: key(30),
        player_account: key(player),
        player_ata: key(player + 100),
    }
}

#[test]
fn leave_refunds_wager_and_fees() {
    let mut ctx = join_ctx(waiting_game(4, WagerType::SameWager, 1_000), 1);
    join_game_handler(&mut ctx, 250, 0).unwrap();
    let mut ctx = join_ctx(ctx.game_account, 2);
    join_game_handler(&mut ctx, 500, 0).unwrap();
    let mut leave = leave_ctx(ctx.game_account, 1);
    let actions = leave_game_handler(&mut leave).unwrap();
    assert_eq!(
        actions,
        vec![TokenAction::Transfer { from: key(30), to: key(101), authority: key(31), amount: 1_035 }]
    );
    assert_eq!(leave.game_account.players.len(), 1);
    assert_eq!(leave.game_account.players[0].user_ata, key(102));
}

#[test]
fn leave_undoes_join() {
    let mut game = waiting_game(4, WagerType::SameWager, 1_000);
    game.players.push(Player {
        creator_address_ata: key(51),
        user_ata: key(140),
        creator_fee_amount: 1,
        gamba_fee_amount: 2,
        wager: 1_000,
    });
    let original = game.players.clone();
    let mut ctx = join_ctx(game, 1);
    let paid = join_game_handler(&mut ctx, 250, 0).unwrap();
    let mut leave = leave_ctx(ctx.game_account, 1);
    let refund = leave_game_handler(&mut leave).unwrap();
    assert_eq!(leave.game_account.players, original);
    assert_eq!(leave.game_account.state, GameState::Waiting);
    match (paid[0], refund[0]) {
        (TokenAction::Transfer { amount: a, .. }, TokenAction::Transfer { amount: b, .. }) => assert_eq!(a, b),
        _ => panic!("expected transfers"),
    }
}

#[test]
fn leaving_a_playing_game_is_refused() {
    let mut ctx = join_ctx(waiting_game(1, WagerType::SameWager, 10), 1);
    join_game_handler(&mut ctx, 0, 0).unwrap();
    assert_eq!(ctx.game_account.state, GameState::Playing);
    let mut leave = leave_ctx(ctx.game_account, 1);
    assert_eq!(leave_game_handler(&mut leave), Err(GambaError::GameInProgress));
    assert_eq!(leave.game_account.players.len(), 1);
}

#[test]
fn leaving_without_a_seat_is_refused() {
    let mut ctx = join_ctx(waiting_game(3, WagerType::SameWager, 10), 1);
    join_game_handler(&mut ctx, 0, 0).unwrap();
    let mut leave = leave_ctx(ctx.game_account, 2);
    assert_eq!(leave_game_handler(&mut leave), Err(GambaError::PlayerNotInGame));
    assert_eq!(leave.game_account.players.len(), 1);
}

#[test]
fn error_messages() {
    assert_eq!(GambaError::PlayerAlreadyInGame.message(), "Player is already in the game");
    assert_eq!(GambaError::PlayerNotInGame.message(), "Player is not in the game");
    assert_eq!(GambaError::GameInProgress.message(), "Game is already in progress");
    assert_eq!(GambaError::InvalidGameAccount.message(), "Invalid game account");
    assert_eq!(GambaError::CannotSettleYet.message(), "Cannot settle yet");
    assert_eq!(GambaError::AuthorityMismatch.message(), "Authority mismatch");
}

#[test]
fn same_wager_ignores_the_offer() {
    let mut a = join_ctx(waiting_game(3, WagerType::SameWager, 1_000), 1);
    let mut b = join_ctx(waiting_game(3, WagerType::SameWager, 1_000), 1);
    let ra = join_game_handler(&mut a, 250, 1);
    let rb = join_game_handler(&mut b, 250, 999_999);
    assert_eq!(ra, rb);
    assert_eq!(a.game_account.players, b.game_account.players);
}
