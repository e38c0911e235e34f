# gamba

Verified account logic of two token programs:

- `multiplayer`: a wager game. A game maker opens a game (`create_game`),
  players join by paying a wager plus a creator fee and a house fee
  (`join_game`), may leave while the game waits (`leave_game`), and the game
  is settled by paying the creator fees, the winners drawn by a seeded
  shuffle, and the house fee (`settle_game`). `gamba_state_config` sets the
  house fee and is locked to its first authority.
- `staking`: a vault that issues shares for deposits (`deposit`) and takes
  them back (`withdraw`).

Each instruction in `src/` is a function from the accounts it reads to the
accounts it writes and the token actions (`actions::TokenAction`) it asks
for, with a contract proved by Verus. `app/` holds the Anchor programs that
load the accounts, read the clock, perform the token actions, and split the
pot in floating point.
