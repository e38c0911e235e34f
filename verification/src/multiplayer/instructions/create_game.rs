use crate::multiplayer::state::{Game, GameState, GameView, WagerType};
use crate::pubkey::Pubkey;
use vstd::prelude::*;

verus! {

/// The accounts the game-opening instruction works on: the new game, the
/// mint it is played in, the signer who opens it, and the bump of the
/// game's address.
#[derive(Debug)]
pub struct CreateGame {
    pub game_account: Game,
    pub mint: Pubkey,
    pub game_maker: Pubkey,
    pub game_account_bump: u8,
}

/// The kind of wager a code stands for: any code above zero asks every
/// player for a wager of their own.
pub open spec fn wager_type_of(code: u8) -> WagerType {
    if code > 0 {
        WagerType::CustomWager
    } else {
        WagerType::SameWager
    }
}

/// The game that `ctx` opens at time `now`: waiting, without players, and
/// expiring `duration_seconds` after `now`.
pub open spec fn opened_game(
    ctx: CreateGame,
    max_players: u8,
    winners: u8,
    duration_seconds: i64,
    unique_identifier: u32,
    wager_type: u8,
    wager: u64,
    now: i64,
) -> GameView {
    GameView {
        game_maker: ctx.game_maker,
        state: GameState::Waiting,
        mint: ctx.mint,
        max_players,
        players: Seq::empty(),
        winners,
        game_id: 0,
        game_expiration_timestamp: (now + duration_seconds) as i64,
        unique_identifier,
        wager_type: wager_type_of(wager_type),
        wager,
        bump: ctx.game_account_bump,
    }
}

/// Opens a game at time `current_timestamp`.
pub fn create_game_handler(
    ctx: &mut CreateGame,
    max_players: u8,
    winners: u8,
    duration_seconds: i64,
    unique_identifier: u32,
    wager_type: u8,
    wager: u64,
    current_timestamp: i64,
)
    requires
        i64::MIN <= current_timestamp + duration_seconds <= i64::MAX,
    ensures
        final(ctx).game_account@ == opened_game(
            *old(ctx),
            max_players,
            winners,
            duration_seconds,
            unique_identifier,
            wager_type,
            wager,
            current_timestamp,
        ),
        final(ctx).mint == old(ctx).mint,
        final(ctx).game_maker == old(ctx).game_maker,
        final(ctx).game_account_bump == old(ctx).game_account_bump,
{
    let wager_type = if wager_type > 0 {
        WagerType::CustomWager
    } else {
        WagerType::SameWager
    };
    ctx.game_account.game_maker = ctx.game_maker;
    ctx.game_account.state = GameState::Waiting;
    ctx.game_account.mint = ctx.mint;
    ctx.game_account.max_players = max_players;
    ctx.game_account.players = Vec::new();
    ctx.game_account.winners = winners;
    ctx.game_account.game_id = 0;
    ctx.game_account.game_expiration_timestamp = current_timestamp + duration_seconds;
    ctx.game_account.unique_identifier = unique_identifier;
    ctx.game_account.wager_type = wager_type;
    ctx.game_account.wager = wager;
    ctx.game_account.bump = ctx.game_account_bump;
}

/// A game opened with at least one seat is well formed.
pub proof fn lemma_opened_game_well_formed(
    ctx: CreateGame,
    max_players: u8,
    winners: u8,
    duration_seconds: i64,
    unique_identifier: u32,
    wager_type: u8,
    wager: u64,
    now: i64,
)
    requires
        max_players > 0,
    ensures
        opened_game(
            ctx,
            max_players,
            winners,
            duration_seconds,
            unique_identifier,
            wager_type,
            wager,
            now,
        ).well_formed(),
{
}

/// What opening a game does, field by field: the game waits, has no
/// players and id 0, belongs to the signer and the mint passed, expires
/// `duration_seconds` after the opening time, keeps the seats, winners,
/// identifier and wager asked for, and asks every player for a wager of
/// their own exactly when the wager code is above zero.
pub proof fn lemma_opened_game_fields(
    ctx: CreateGame,
    max_players: u8,
    winners: u8,
    duration_seconds: i64,
    unique_identifier: u32,
    wager_type: u8,
    wager: u64,
    now: i64,
)
    requires
        i64::MIN <= now + duration_seconds <= i64::MAX,
    ensures
        ({
            let g = opened_game(
                ctx,
                max_players,
                winners,
                duration_seconds,
                unique_identifier,
                wager_type,
                wager,
                now,
            );
            &&& wager_type > 0 ==> g.wager_type == WagerType::CustomWager
            &&& wager_type == 0 ==> g.wager_type == WagerType::SameWager
            &&& g.state == GameState::Waiting
            &&& g.players.len() == 0
            &&& g.game_id == 0
            &&& g.game_maker == ctx.game_maker
            &&& g.mint == ctx.mint
            &&& g.game_expiration_timestamp == now + duration_seconds
            &&& g.max_players == max_players
            &&& g.winners == winners
            &&& g.unique_identifier == unique_identifier
            &&& g.wager == wager
            &&& g.bump == ctx.game_account_bump
        }),
{
}

} // verus!
