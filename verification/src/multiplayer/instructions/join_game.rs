use crate::actions::TokenAction;
use crate::multiplayer::error::GambaError;
use crate::multiplayer::state::{GambaState, Game, GameState, GameView, Player, WagerType};
use crate::pubkey::Pubkey;
use vstd::prelude::*;

verus! {

/// The accounts the joining instruction works on: the game, the program
/// configuration, the game's token account, the joining signer, the
/// signer's token account, and the token account of the creator the player
/// came through.
#[derive(Debug)]
pub struct JoinGame {
    pub game_account: Game,
    pub gamba_state: GambaState,
    pub game_account_ta: Pubkey,
    pub player_account: Pubkey,
    pub player_ata: Pubkey,
    pub creator_ata: Pubkey,
}

/// The wager a joining player pays: the game's wager when every player pays
/// the same, else the wager the player offers.
pub open spec fn final_wager(g: GameView, wager: u64) -> u64 {
    if g.wager_type == WagerType::SameWager {
        g.wager
    } else {
        wager
    }
}

/// A fee of `bps` basis points on `amount`, rounded down.
pub open spec fn fee_amount(amount: u64, bps: u32) -> int {
    (amount * bps) / 10000
}

/// Whether the token account `ata` may take a seat: the game waits and no
/// player holds that account yet.
pub open spec fn may_join(g: GameView, ata: Pubkey) -> bool {
    &&& g.state == GameState::Waiting
    &&& forall|i: int| 0 <= i < g.players.len() ==> #[trigger] g.players[i].user_ata != ata
}

/// The seat a joining player takes.
pub open spec fn joining_player(ctx: JoinGame, creator_fee: u32, wager: u64) -> Player {
    let w = final_wager(ctx.game_account@, wager);
    Player {
        creator_address_ata: ctx.creator_ata,
        user_ata: ctx.player_ata,
        creator_fee_amount: fee_amount(w, creator_fee) as u64,
        gamba_fee_amount: fee_amount(w, ctx.gamba_state.gamba_fee_bps) as u64,
        wager: w,
    }
}

/// What a player pays in: the wager and both fees.
pub open spec fn paid_in(p: Player) -> int {
    p.wager + p.creator_fee_amount + p.gamba_fee_amount
}

/// The game once `p` has taken a seat: the game starts playing when its
/// last seat is taken.
pub open spec fn game_after_join(g: GameView, p: Player) -> GameView {
    GameView {
        players: g.players.push(p),
        state: if g.players.len() + 1 == g.max_players {
            GameState::Playing
        } else {
            g.state
        },
        ..g
    }
}

/// Joining does not overflow: both fees fit in an amount, and so does what
/// an admitted player pays in.
pub open spec fn join_fits(ctx: JoinGame, creator_fee: u32, wager: u64) -> bool {
    let w = final_wager(ctx.game_account@, wager);
    &&& w * creator_fee <= u64::MAX
    &&& w * ctx.gamba_state.gamba_fee_bps <= u64::MAX
    &&& may_join(ctx.game_account@, ctx.player_ata) ==> paid_in(
        joining_player(ctx, creator_fee, wager),
    ) <= u64::MAX
}

/// Whether the token account `player_ata` may take a seat in `game`.
pub fn may_join_game(game: &Game, player_ata: &Pubkey) -> (r: bool)
    ensures
        r == may_join(game@, *player_ata),
{
    if game.state != GameState::Waiting {
        return false;
    }
    let mut i: usize = 0;
    while i < game.players.len()
        invariant
            i <= game@.players.len(),
            forall|k: int| 0 <= k < i ==> #[trigger] game@.players[k].user_ata != *player_ata,
        decreases game@.players.len() - i,
    {
        if game.players[i].user_ata.same_as(player_ata) {
            return false;
        }
        i = i + 1;
    }
    true
}

/// Whether joining with these arguments would overflow (see `join_fits`).
pub fn join_would_overflow(ctx: &JoinGame, creator_fee: u32, wager: u64) -> (r: bool)
    ensures
        r == !join_fits(*ctx, creator_fee, wager),
{
    let final_wager = if ctx.game_account.wager_type == WagerType::SameWager {
        ctx.game_account.wager
    } else {
        wager
    };
    let w = final_wager as u128;
    let cf = creator_fee as u128;
    let gf = ctx.gamba_state.gamba_fee_bps as u128;
    assert(w * cf <= 0xffff_ffff_ffff_ffffu128 * 0xffff_ffff_ffff_ffffu128) by (nonlinear_arith)
        requires
            w <= 0xffff_ffff_ffff_ffffu128,
            cf <= 0xffff_ffff_ffff_ffffu128,
    ;
    assert(w * gf <= 0xffff_ffff_ffff_ffffu128 * 0xffff_ffff_ffff_ffffu128) by (nonlinear_arith)
        requires
            w <= 0xffff_ffff_ffff_ffffu128,
            gf <= 0xffff_ffff_ffff_ffffu128,
    ;
    let creator_product = w * cf;
    let house_product = w * gf;
    if creator_product > 0xffff_ffff_ffff_ffffu128 || house_product > 0xffff_ffff_ffff_ffffu128 {
        return true;
    }
    if !may_join_game(&ctx.game_account, &ctx.player_ata) {
        return false;
    }
    let total = w + creator_product / 10000 + house_product / 10000;
    total > 0xffff_ffff_ffff_ffffu128
}

/// Seats the signer in the game, with a wager of `wager` (used only where
/// every player brings a wager of their own) and a creator fee of
/// `creator_fee` basis points; the house fee comes from the configuration.
///
/// A game that does not wait, or that already seats the signer's token
/// account, is refused with `PlayerAlreadyInGame`. Otherwise the player pays
/// the wager and both fees into the game's token account.
pub fn join_game_handler(ctx: &mut JoinGame, creator_fee: u32, wager: u64) -> (r: Result<
    Vec<TokenAction>,
    GambaError,
>)
    requires
        join_fits(*old(ctx), creator_fee, wager),
    ensures
        final(ctx).gamba_state == old(ctx).gamba_state,
        final(ctx).game_account_ta == old(ctx).game_account_ta,
        final(ctx).player_account == old(ctx).player_account,
        final(ctx).player_ata == old(ctx).player_ata,
        final(ctx).creator_ata == old(ctx).creator_ata,
        !may_join(old(ctx).game_account@, old(ctx).player_ata) ==> r == Err::<
            Vec<TokenAction>,
            GambaError,
        >(GambaError::PlayerAlreadyInGame) && final(ctx).game_account@ == old(
            ctx,
        ).game_account@,
        may_join(old(ctx).game_account@, old(ctx).player_ata) ==> ({
            let p = joining_player(*old(ctx), creator_fee, wager);
            &&& r matches Ok(actions)
            &&& final(ctx).game_account@ == game_after_join(old(ctx).game_account@, p)
            &&& actions@ == seq![
                TokenAction::Transfer {
                    from: old(ctx).player_ata,
                    to: old(ctx).game_account_ta,
                    authority: old(ctx).player_account,
                    amount: paid_in(p) as u64,
                },
            ]
        }),
{
    let mut final_wager = wager;
    if ctx.game_account.wager_type == WagerType::SameWager {
        final_wager = ctx.game_account.wager;
    }
    let creator_fee_amount = (final_wager * creator_fee as u64) / 10000;
    let gamba_fee_amount = (final_wager * ctx.gamba_state.gamba_fee_bps as u64) / 10000;
    let player = Player {
        creator_address_ata: ctx.creator_ata,
        user_ata: ctx.player_ata,
        creator_fee_amount: creator_fee_amount,
        gamba_fee_amount: gamba_fee_amount,
        wager: final_wager,
    };
    if !may_join_game(&ctx.game_account, &player.user_ata) {
        return Err(GambaError::PlayerAlreadyInGame);
    }
    let amount = final_wager + creator_fee_amount + gamba_fee_amount;
    ctx.game_account.players.push(player);
    let action = TokenAction::Transfer {
        from: ctx.player_ata,
        to: ctx.game_account_ta,
        authority: ctx.player_account,
        amount,
    };
    if ctx.game_account.players.len() == ctx.game_account.max_players as usize {
        ctx.game_account.state = GameState::Playing;
    }
    let mut actions: Vec<TokenAction> = Vec::new();
    actions.push(action);
    assert(ctx.game_account@ =~= game_after_join(old(ctx).game_account@, player));
    assert(actions@ =~= seq![action]);
    Ok(actions)
}

/// Joining keeps one seat per token account: a player is seated only with
/// a token account no seated player holds. (A refused join leaves the game
/// as it was.)
pub proof fn lemma_join_keeps_players_unique(g: GameView, p: Player)
    requires
        g.players_unique(),
        may_join(g, p.user_ata),
    ensures
        game_after_join(g, p).players_unique(),
{
    let g2 = game_after_join(g, p);
    assert forall|i: int, j: int| 0 <= i < j < g2.players.len() implies #[trigger] g2.players[i].user_ata
        != #[trigger] g2.players[j].user_ata by {
        if j == g.players.len() {
            assert(g.players[i].user_ata != p.user_ata);
        } else {
            assert(g.players[i].user_ata != g.players[j].user_ata);
        }
    }
}

/// Joining keeps the seats: a waiting game keeps a free seat, the game that
/// takes its last seat plays with all seats taken, and so the player count
/// never exceeds `max_players`. (A refused join leaves the game as it was.)
pub proof fn lemma_join_keeps_seats(g: GameView, p: Player)
    requires
        g.seats_respected(),
        may_join(g, p.user_ata),
    ensures
        game_after_join(g, p).seats_respected(),
{
}

/// Joining keeps a game well formed.
pub proof fn lemma_join_keeps_well_formed(g: GameView, p: Player)
    requires
        g.well_formed(),
        may_join(g, p.user_ata),
    ensures
        game_after_join(g, p).well_formed(),
{
    lemma_join_keeps_players_unique(g, p);
    lemma_join_keeps_seats(g, p);
}

/// Where every player pays the game's wager, the wager offered by the
/// joining player changes nothing: the seat taken, the amount paid, and
/// whether the join fits are the same for any offer.
pub proof fn lemma_same_wager_ignores_offer(ctx: JoinGame, creator_fee: u32, offer1: u64, offer2: u64)
    requires
        ctx.game_account@.wager_type == WagerType::SameWager,
    ensures
        joining_player(ctx, creator_fee, offer1) == joining_player(ctx, creator_fee, offer2),
        joining_player(ctx, creator_fee, offer1).wager == ctx.game_account@.wager,
        join_fits(ctx, creator_fee, offer1) == join_fits(ctx, creator_fee, offer2),
{
}

/// What a joining player pays: in a game where everyone brings a wager of
/// their own, exactly the wager offered; in a same-wager game, the game's
/// wager. The creator fee and the house fee are that wager times their
/// basis points, divided by 10 000 and rounded down, and the transfer is the
/// wager plus both fees.
pub proof fn lemma_joining_player_pays(ctx: JoinGame, creator_fee: u32, offer: u64)
    requires
        join_fits(ctx, creator_fee, offer),
    ensures
        ({
            let p = joining_player(ctx, creator_fee, offer);
            let g = ctx.game_account@;
            let w: int = if g.wager_type == WagerType::CustomWager {
                offer as int
            } else {
                g.wager as int
            };
            &&& p.wager == w
            &&& p.creator_fee_amount * 10000 <= w * creator_fee < (p.creator_fee_amount + 1)
                * 10000
            &&& p.gamba_fee_amount * 10000 <= w * ctx.gamba_state.gamba_fee_bps < (
            p.gamba_fee_amount + 1) * 10000
            &&& p.user_ata == ctx.player_ata
            &&& p.creator_address_ata == ctx.creator_ata
            &&& paid_in(p) == p.wager + p.creator_fee_amount + p.gamba_fee_amount
        }),
{
    let g = ctx.game_account@;
    let w = final_wager(g, offer);
    let c = w * creator_fee;
    let h = w * ctx.gamba_state.gamba_fee_bps;
    assert(c >= 0 && h >= 0) by (nonlinear_arith)
        requires
            c == w * creator_fee,
            h == w * ctx.gamba_state.gamba_fee_bps,
            w >= 0,
            creator_fee >= 0,
            ctx.gamba_state.gamba_fee_bps >= 0,
    ;
    vstd::arithmetic::div_mod::lemma_fundamental_div_mod(c, 10000);
    vstd::arithmetic::div_mod::lemma_fundamental_div_mod(h, 10000);
    vstd::arithmetic::div_mod::lemma_mod_bound(c, 10000);
    vstd::arithmetic::div_mod::lemma_mod_bound(h, 10000);
    vstd::arithmetic::div_mod::lemma_div_pos_is_pos(c, 10000);
    vstd::arithmetic::div_mod::lemma_div_pos_is_pos(h, 10000);
    vstd::arithmetic::div_mod::lemma_div_is_ordered(c, 0xffff_ffff_ffff_ffff, 10000);
    vstd::arithmetic::div_mod::lemma_div_is_ordered(h, 0xffff_ffff_ffff_ffff, 10000);
}

/// What joining does to the seats: an admitted player is added after the
/// seated players, who keep their seats; the game starts exactly when the
/// seat count reaches `max_players`; nothing else about the game changes.
pub proof fn lemma_join_appends_player(g: GameView, p: Player)
    ensures
        ({
            let g2 = game_after_join(g, p);
            &&& g2.players.len() == g.players.len() + 1
            &&& g2.players[g.players.len() as int] == p
            &&& forall|k: int| 0 <= k < g.players.len() ==> g2.players[k] == g.players[k]
            &&& g.players.len() + 1 == g.max_players ==> g2.state == GameState::Playing
            &&& g.players.len() + 1 != g.max_players ==> g2.state == g.state
            &&& g2.game_maker == g.game_maker && g2.mint == g.mint && g2.max_players
                == g.max_players && g2.winners == g.winners && g2.game_id == g.game_id
                && g2.game_expiration_timestamp == g.game_expiration_timestamp
                && g2.unique_identifier == g.unique_identifier && g2.wager_type == g.wager_type
                && g2.wager == g.wager && g2.bump == g.bump
        }),
{
}

} // verus!
