use crate::actions::TokenAction;
use crate::multiplayer::error::GambaError;
use crate::multiplayer::instructions::join_game::{game_after_join, may_join, paid_in};
use crate::multiplayer::state::{Game, GameState, GameView, Player};
use crate::pubkey::Pubkey;
use vstd::prelude::*;

verus! {

/// The accounts the leaving instruction works on: the game, its address,
/// its token account, the leaving signer and the signer's token account.
#[derive(Debug)]
pub struct LeaveGame {
    pub game_account: Game,
    pub game_account_key: Pubkey,
    pub game_account_ta: Pubkey,
    pub player_account: Pubkey,
    pub player_ata: Pubkey,
}

/// Seat `i` is the first one held by the token account `ata`.
pub open spec fn is_first_seat(players: Seq<Player>, ata: Pubkey, i: int) -> bool {
    &&& 0 <= i < players.len()
    &&& players[i].user_ata == ata
    &&& forall|k: int| 0 <= k < i ==> #[trigger] players[k].user_ata != ata
}

/// Whether the token account `ata` holds a seat.
pub open spec fn seated(players: Seq<Player>, ata: Pubkey) -> bool {
    exists|i: int| 0 <= i < players.len() && #[trigger] players[i].user_ata == ata
}

/// The first seat held by `ata`, where there is one.
pub open spec fn first_seat(players: Seq<Player>, ata: Pubkey) -> int {
    choose|i: int| is_first_seat(players, ata, i)
}

/// The game once seat `i` is given up: the other players keep their order.
pub open spec fn game_after_leave(g: GameView, i: int) -> GameView {
    GameView { players: g.players.remove(i), ..g }
}

/// Leaving does not overflow: what the leaving player paid in fits in an
/// amount.
pub open spec fn leave_fits(ctx: LeaveGame) -> bool {
    let g = ctx.game_account@;
    g.state == GameState::Waiting && seated(g.players, ctx.player_ata) ==> paid_in(
        g.players[first_seat(g.players, ctx.player_ata)],
    ) <= u64::MAX
}

proof fn lemma_first_seat_unique(players: Seq<Player>, ata: Pubkey, i: int)
    requires
        is_first_seat(players, ata, i),
    ensures
        first_seat(players, ata) == i,
        seated(players, ata),
{
    let j = first_seat(players, ata);
    assert(is_first_seat(players, ata, j));
    if j < i {
        assert(players[j].user_ata != ata);
    }
    if i < j {
        assert(players[i].user_ata != ata);
    }
}

/// The first seat held by the token account `player_ata`, if any.
pub fn seat_of(game: &Game, player_ata: &Pubkey) -> (r: Option<usize>)
    ensures
        seated(game@.players, *player_ata) <==> r is Some,
        r matches Some(i) ==> i == first_seat(game@.players, *player_ata) && is_first_seat(
            game@.players,
            *player_ata,
            i as int,
        ),
{
    let mut i: usize = 0;
    while i < game.players.len()
        invariant
            i <= game@.players.len(),
            forall|k: int| 0 <= k < i ==> #[trigger] game@.players[k].user_ata != *player_ata,
        decreases game@.players.len() - i,
    {
        if game.players[i].user_ata.same_as(player_ata) {
            proof {
                lemma_first_seat_unique(game@.players, *player_ata, i as int);
            }
            return Some(i);
        }
        i = i + 1;
    }
    None
}

/// Whether leaving would overflow (see `leave_fits`).
pub fn leave_would_overflow(ctx: &LeaveGame) -> (r: bool)
    ensures
        r == !leave_fits(*ctx),
{
    if ctx.game_account.state != GameState::Waiting {
        return false;
    }
    match seat_of(&ctx.game_account, &ctx.player_ata) {
        None => false,
        Some(i) => {
            let p = ctx.game_account.players[i];
            (p.wager as u128) + (p.creator_fee_amount as u128) + (p.gamba_fee_amount as u128)
                > 0xffff_ffff_ffff_ffffu128
        },
    }
}

/// Gives the signer's seat back while the game waits, refunding the wager and
/// both fees from the game's token account.
///
/// A game that no longer waits is refused with `GameInProgress`, and a token
/// account that holds no seat with `PlayerNotInGame`.
pub fn leave_game_handler(ctx: &mut LeaveGame) -> (r: Result<Vec<TokenAction>, GambaError>)
    requires
        leave_fits(*old(ctx)),
    ensures
        final(ctx).game_account_key == old(ctx).game_account_key,
        final(ctx).game_account_ta == old(ctx).game_account_ta,
        final(ctx).player_account == old(ctx).player_account,
        final(ctx).player_ata == old(ctx).player_ata,
        ({
            let g = old(ctx).game_account@;
            let ata = old(ctx).player_ata;
            &&& g.state != GameState::Waiting ==> r == Err::<Vec<TokenAction>, GambaError>(
                GambaError::GameInProgress,
            ) && final(ctx).game_account@ == g
            &&& g.state == GameState::Waiting && !seated(g.players, ata) ==> r == Err::<
                Vec<TokenAction>,
                GambaError,
            >(GambaError::PlayerNotInGame) && final(ctx).game_account@ == g
            &&& g.state == GameState::Waiting && seated(g.players, ata) ==> {
                let i = first_seat(g.players, ata);
                &&& r matches Ok(actions)
                &&& final(ctx).game_account@ == game_after_leave(g, i)
                &&& actions@ == seq![
                    TokenAction::Transfer {
                        from: old(ctx).game_account_ta,
                        to: ata,
                        authority: old(ctx).game_account_key,
                        amount: paid_in(g.players[i]) as u64,
                    },
                ]
            }
        }),
{
    if ctx.game_account.state != GameState::Waiting {
        return Err(GambaError::GameInProgress);
    }
    let ghost g = ctx.game_account@;
    match seat_of(&ctx.game_account, &ctx.player_ata) {
        None => Err(GambaError::PlayerNotInGame),
        Some(i) => {
            let player = ctx.game_account.players[i];
            let total_amount = player.wager + player.creator_fee_amount + player.gamba_fee_amount;
            let action = TokenAction::Transfer {
                from: ctx.game_account_ta,
                to: ctx.player_ata,
                authority: ctx.game_account_key,
                amount: total_amount,
            };
            ctx.game_account.players.remove(i);
            let mut actions: Vec<TokenAction> = Vec::new();
            actions.push(action);
            assert(ctx.game_account@ =~= game_after_leave(g, i as int));
            assert(actions@ =~= seq![action]);
            Ok(actions)
        },
    }
}

/// Leaving, which only a waiting game allows, keeps a game well formed.
pub proof fn lemma_leave_keeps_well_formed(g: GameView, i: int)
    requires
        g.well_formed(),
        g.state == GameState::Waiting,
        0 <= i < g.players.len(),
    ensures
        game_after_leave(g, i).well_formed(),
{
    let g2 = game_after_leave(g, i);
    assert forall|a: int, b: int| 0 <= a < b < g2.players.len() implies #[trigger] g2.players[a].user_ata
        != #[trigger] g2.players[b].user_ata by {
        let a0 = if a < i { a } else { a + 1 };
        let b0 = if b < i { b } else { b + 1 };
        assert(g2.players[a] == g.players[a0]);
        assert(g2.players[b] == g.players[b0]);
        assert(g.players[a0].user_ata != g.players[b0].user_ata);
    }
}

/// Leaving undoes joining: a player who joins a waiting game without taking
/// its last seat, and then leaves, finds the game as it was before, and is
/// refunded exactly what joining took.
pub proof fn lemma_leave_undoes_join(g: GameView, p: Player)
    requires
        may_join(g, p.user_ata),
        g.players.len() + 1 != g.max_players,
    ensures
        ({
            let g1 = game_after_join(g, p);
            &&& g1.state == GameState::Waiting
            &&& seated(g1.players, p.user_ata)
            &&& first_seat(g1.players, p.user_ata) == g.players.len()
            &&& game_after_leave(g1, first_seat(g1.players, p.user_ata)) == g
            &&& paid_in(g1.players[first_seat(g1.players, p.user_ata)]) == paid_in(p)
        }),
{
    let g1 = game_after_join(g, p);
    let n = g.players.len() as int;
    assert(is_first_seat(g1.players, p.user_ata, n));
    lemma_first_seat_unique(g1.players, p.user_ata, n);
    assert(g1.players.remove(n) =~= g.players);
    assert(game_after_leave(g1, n) =~= g);
}

/// What leaving does to the seats: the seat given up disappears, the
/// players before it keep their seats, the players after it move up by one
/// in their previous order, and nothing else about the game changes.
pub proof fn lemma_leave_keeps_order(g: GameView, i: int)
    requires
        0 <= i < g.players.len(),
    ensures
        ({
            let g2 = game_after_leave(g, i);
            &&& g2.players.len() == g.players.len() - 1
            &&& forall|k: int| 0 <= k < i ==> g2.players[k] == g.players[k]
            &&& forall|k: int| i <= k < g2.players.len() ==> g2.players[k] == g.players[k + 1]
            &&& g2.state == g.state && g2.game_maker == g.game_maker && g2.mint == g.mint
                && g2.max_players == g.max_players && g2.winners == g.winners && g2.game_id
                == g.game_id && g2.game_expiration_timestamp == g.game_expiration_timestamp
                && g2.unique_identifier == g.unique_identifier && g2.wager_type == g.wager_type
                && g2.wager == g.wager && g2.bump == g.bump
        }),
{
}

} // verus!
