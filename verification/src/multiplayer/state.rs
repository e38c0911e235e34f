use crate::pubkey::Pubkey;
use vstd::prelude::*;

verus! {

/// The program-wide configuration: who may change it, the randomness
/// account, and the house fee in basis points.
#[derive(Clone, Copy, Debug, PartialEq, Eq)]
pub struct GambaState {
    pub rng: Pubkey,
    pub authority: Pubkey,
    pub gamba_fee_bps: u32,
    pub initialized: bool,
    pub bump: u8,
}

/// One game: its maker, its phase, the token it is played in, its seats,
/// the players who joined, and how many of them win.
#[derive(Debug)]
pub struct Game {
    pub game_maker: Pubkey,
    pub state: GameState,
    pub mint: Pubkey,
    pub max_players: u8,
    pub players: Vec<Player>,
    pub winners: u8,
    pub game_id: u64,
    pub game_expiration_timestamp: i64,
    pub unique_identifier: u32,
    pub wager_type: WagerType,
    pub wager: u64,
    pub bump: u8,
}

/// A game seen as a value: its fields, with the players as a sequence.
pub struct GameView {
    pub game_maker: Pubkey,
    pub state: GameState,
    pub mint: Pubkey,
    pub max_players: u8,
    pub players: Seq<Player>,
    pub winners: u8,
    pub game_id: u64,
    pub game_expiration_timestamp: i64,
    pub unique_identifier: u32,
    pub wager_type: WagerType,
    pub wager: u64,
    pub bump: u8,
}

impl View for Game {
    type V = GameView;

    open spec fn view(&self) -> GameView {
        GameView {
            game_maker: self.game_maker,
            state: self.state,
            mint: self.mint,
            max_players: self.max_players,
            players: self.players@,
            winners: self.winners,
            game_id: self.game_id,
            game_expiration_timestamp: self.game_expiration_timestamp,
            unique_identifier: self.unique_identifier,
            wager_type: self.wager_type,
            wager: self.wager,
            bump: self.bump,
        }
    }
}

/// A seat taken in a game: the player's token account, the token account of
/// the creator the player came through, and what the player paid in.
#[derive(Clone, Copy, Debug, PartialEq, Eq)]
pub struct Player {
    pub creator_address_ata: Pubkey,
    pub user_ata: Pubkey,
    /// Fee owed to the creator, in tokens.
    pub creator_fee_amount: u64,
    /// Fee owed to the house, in tokens.
    pub gamba_fee_amount: u64,
    pub wager: u64,
}

/// The phase of a game.
#[derive(Clone, Copy, Debug, PartialEq, Eq, Structural)]
pub enum GameState {
    Waiting,
    Playing,
}

/// Whether every player pays the game's wager or a wager of their own.
#[derive(Clone, Copy, Debug, PartialEq, Eq, Structural)]
pub enum WagerType {
    SameWager,
    CustomWager,
}

impl GameView {
    /// No two players of the game hold the same token account.
    pub open spec fn players_unique(self) -> bool {
        forall|i: int, j: int|
            0 <= i < j < self.players.len() ==> #[trigger] self.players[i].user_ata
                != #[trigger] self.players[j].user_ata
    }

    /// The seats of a game: a game that still waits has a free seat, and a
    /// game that plays has all its seats taken; so no game holds more
    /// players than it has seats.
    pub open spec fn seats_respected(self) -> bool {
        &&& self.players.len() <= self.max_players
        &&& self.state == GameState::Waiting ==> self.players.len() < self.max_players
        &&& self.state == GameState::Playing ==> self.players.len() == self.max_players
    }

    /// What every reachable game satisfies.
    pub open spec fn well_formed(self) -> bool {
        self.players_unique() && self.seats_respected()
    }
}

} // verus!
