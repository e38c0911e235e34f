use crate::actions::TokenAction;
use crate::multiplayer::error::GambaError;
use crate::multiplayer::state::{Game, GameState, GameView, Player};
use crate::pubkey::Pubkey;
use vstd::prelude::*;

verus! {

/// The accounts the settling instruction reads: the game, its address, its
/// token account, the house fee account, and the optional player and creator
/// token accounts, one slot per seat in the order the slots were passed.
#[derive(Debug)]
pub struct SettleGame {
    pub game_account: Game,
    pub game_account_key: Pubkey,
    pub game_account_ta: Pubkey,
    pub gamba_fee_ata: Pubkey,
    pub player_atas: Vec<Option<Pubkey>>,
    pub creator_atas: Vec<Option<Pubkey>>,
}

/// The sum of a sequence of amounts.
pub open spec fn sum_of(s: Seq<u64>) -> int
    decreases s.len(),
{
    if s.len() == 0 {
        0
    } else {
        sum_of(s.drop_last()) + s.last()
    }
}

/// The wagers of the players, in seat order.
pub open spec fn wagers(players: Seq<Player>) -> Seq<u64> {
    players.map_values(|p: Player| p.wager)
}

/// The house fees of the players, in seat order.
pub open spec fn house_fees(players: Seq<Player>) -> Seq<u64> {
    players.map_values(|p: Player| p.gamba_fee_amount)
}

/// The keys present in a list of optional keys, in order.
pub open spec fn somes(s: Seq<Option<Pubkey>>) -> Seq<Pubkey>
    decreases s.len(),
{
    if s.len() == 0 {
        Seq::empty()
    } else {
        match s.last() {
            Some(k) => somes(s.drop_last()).push(k),
            None => somes(s.drop_last()),
        }
    }
}

/// A game may be settled once it plays, or once its time has run out.
pub open spec fn can_settle_spec(g: GameView, now: i64) -> bool {
    g.state == GameState::Playing || now > g.game_expiration_timestamp
}

/// How many players win: as many as the game asks for, but no more than
/// there are player accounts.
pub open spec fn winner_count(winners: u8, num_players: int) -> int {
    if winners as int > num_players {
        num_players
    } else {
        winners as int
    }
}

/// The order in which the player accounts are ranked: `0..n` shuffled with
/// the seed. The first `winner_count` of them win, best first.
pub open spec fn winner_order(n: int, seed: u64) -> Seq<usize> {
    shuffled(indices(n as nat), seed)
}

/// What settling asks for: each player's creator fee to the creator account
/// in the same slot (as far as there are creator accounts), each payout to
/// its winner, the house fees to the house, then the game's token account
/// closed and the game account emptied, both to the game maker.
pub open spec fn settle_actions(ctx: SettleGame, now: i64, payouts: Seq<u64>) -> Seq<TokenAction> {
    let g = ctx.game_account@;
    let players = somes(ctx.player_atas@);
    let creators = somes(ctx.creator_atas@);
    let n_creator = if g.players.len() < creators.len() {
        g.players.len()
    } else {
        creators.len()
    };
    let order = winner_order(players.len() as int, #[verifier::truncate] (now as u64));
    let w = winner_count(g.winners, players.len() as int);
    Seq::new(
        n_creator,
        |i: int|
            TokenAction::Transfer {
                from: ctx.game_account_ta,
                to: creators[i],
                authority: ctx.game_account_key,
                amount: g.players[i].creator_fee_amount,
            },
    ) + Seq::new(
        w as nat,
        |k: int|
            TokenAction::Transfer {
                from: ctx.game_account_ta,
                to: players[order[k] as int],
                authority: ctx.game_account_key,
                amount: payouts[k],
            },
    ) + seq![
        TokenAction::Transfer {
            from: ctx.game_account_ta,
            to: ctx.gamba_fee_ata,
            authority: ctx.game_account_key,
            amount: sum_of(house_fees(g.players)) as u64,
        },
        TokenAction::CloseAccount {
            account: ctx.game_account_ta,
            destination: g.game_maker,
            authority: ctx.game_account_key,
        },
        TokenAction::DrainLamports { from: ctx.game_account_key, to: g.game_maker },
    ]
}

/// The pot of a game: the sum of its wagers.
pub open spec fn wager_pot(ctx: SettleGame) -> int {
    sum_of(wagers(ctx.game_account@.players))
}

/// What the winners are paid: the shares of the pot with the rounding put
/// on the last share.
pub open spec fn settle_payouts(ctx: SettleGame, shares: Seq<u64>) -> Seq<u64> {
    balanced(shares, wager_pot(ctx) as u64)
}

/// Settling does not fail: where the game may be settled, the wagers and
/// the house fees each fit in an amount, one share is given per winner, and
/// the shares can be balanced over the pot. In particular a pot above zero
/// needs at least one winner.
pub open spec fn settle_fits(ctx: SettleGame, now: i64, shares: Seq<u64>) -> bool {
    let g = ctx.game_account@;
    can_settle_spec(g, now) ==> {
        &&& wager_pot(ctx) <= u64::MAX
        &&& sum_of(house_fees(g.players)) <= u64::MAX
        &&& shares.len() == winner_count(g.winners, somes(ctx.player_atas@).len() as int)
        &&& can_balance(shares, wager_pot(ctx) as u64)
    }
}

/// The seed after `seed`, by the linear congruential step used to pick
/// winners: `seed * 0x5DEECE66D + 0xB`, modulo 2^64.
pub open spec fn next_seed(seed: u64) -> u64 {
    ((seed as nat * 0x5DEECE66Dnat + 0xBnat) % 0x1_0000_0000_0000_0000nat) as u64
}

/// `s` with the entries at `i` and `j` exchanged.
pub open spec fn swap_at(s: Seq<usize>, i: int, j: int) -> Seq<usize> {
    s.update(i, s[j]).update(j, s[i])
}

/// The shuffle, from position `i` down to position 1: each step draws the
/// next seed and exchanges position `i` with position `seed % (i + 1)`.
pub open spec fn shuffle_down(s: Seq<usize>, seed: u64, i: int) -> Seq<usize>
    decreases i,
{
    if i < 1 {
        s
    } else {
        let seed2 = next_seed(seed);
        let j = ((#[verifier::truncate] (seed2 as usize)) % ((i + 1) as usize)) as int;
        shuffle_down(swap_at(s, i, j), seed2, i - 1)
    }
}

/// `s` shuffled with the given seed.
pub open spec fn shuffled(s: Seq<usize>, seed: u64) -> Seq<usize> {
    shuffle_down(s, seed, s.len() - 1)
}

proof fn lemma_swap_keeps_multiset(s: Seq<usize>, i: int, j: int)
    requires
        0 <= i < s.len(),
        0 <= j < s.len(),
    ensures
        swap_at(s, i, j).to_multiset() =~= s.to_multiset(),
        swap_at(s, i, j).len() == s.len(),
{
    broadcast use vstd::seq_lib::group_to_multiset_ensures;
    broadcast use vstd::multiset::group_multiset_axioms;
    vstd::seq_lib::to_multiset_update(s, i, s[j]);
    let s1 = s.update(i, s[j]);
    vstd::seq_lib::to_multiset_update(s1, j, s[i]);
    assert(s1[j] == s[j]);
}

/// The shuffle keeps the entries of the sequence, each as often as before.
pub proof fn lemma_shuffle_down_is_permutation(s: Seq<usize>, seed: u64, i: int)
    requires
        i < s.len(),
        s.len() <= usize::MAX,
    ensures
        shuffle_down(s, seed, i).to_multiset() =~= s.to_multiset(),
        shuffle_down(s, seed, i).len() == s.len(),
    decreases i,
{
    if i >= 1 {
        let seed2 = next_seed(seed);
        let j = ((#[verifier::truncate] (seed2 as usize)) % ((i + 1) as usize)) as int;
        vstd::arithmetic::div_mod::lemma_mod_bound((seed2 as usize) as int, i + 1);
        lemma_swap_keeps_multiset(s, i, j);
        lemma_shuffle_down_is_permutation(swap_at(s, i, j), seed2, i - 1);
    }
}

/// The positions `0, 1, .., n - 1`.
pub open spec fn indices(n: nat) -> Seq<usize> {
    Seq::new(n, |i: int| i as usize)
}

/// The entries of `s` at the positions listed in `q`.
pub open spec fn pick(s: Seq<usize>, q: Seq<usize>) -> Seq<usize> {
    Seq::new(q.len(), |k: int| s[q[k] as int])
}

proof fn lemma_shuffle_down_commutes_with_pick(s: Seq<usize>, q: Seq<usize>, seed: u64, i: int)
    requires
        i < q.len(),
        q.len() <= usize::MAX,
    ensures
        shuffle_down(pick(s, q), seed, i) =~= pick(s, shuffle_down(q, seed, i)),
    decreases i,
{
    if i >= 1 {
        let seed2 = next_seed(seed);
        let j = ((#[verifier::truncate] (seed2 as usize)) % ((i + 1) as usize)) as int;
        vstd::arithmetic::div_mod::lemma_mod_bound((#[verifier::truncate] (seed2 as usize)) as int, i + 1);
        assert(swap_at(pick(s, q), i, j) =~= pick(s, swap_at(q, i, j)));
        lemma_shuffle_down_commutes_with_pick(s, swap_at(q, i, j), seed2, i - 1);
    }
}

/// The shuffle moves entries by a permutation that depends on the length and
/// the seed alone, never on the entries: the shuffled sequence holds at
/// position `k` the entry that was at the position the shuffle of
/// `0, 1, .., n - 1` holds at `k`.
pub proof fn lemma_shuffle_depends_on_length_and_seed(s: Seq<usize>, seed: u64)
    requires
        s.len() <= usize::MAX,
    ensures
        shuffled(s, seed).len() == s.len(),
        forall|k: int|
            0 <= k < s.len() ==> shuffled(s, seed)[k] == s[#[trigger] shuffled(
                indices(s.len()),
                seed,
            )[k] as int],
{
    let range = indices(s.len());
    assert(pick(s, range) =~= s);
    if s.len() > 0 {
        lemma_shuffle_down_commutes_with_pick(s, range, seed, s.len() - 1);
        lemma_shuffle_down_is_permutation(range, seed, s.len() - 1);
    }
}

fn step_seed(seed: u64) -> (r: u64)
    ensures
        r == next_seed(seed),
{
    let r = seed.wrapping_mul(0x5DEECE66D).wrapping_add(0xB);
    proof {
        let a = seed as nat * 0x5DEECE66Dnat;
        let m = 0x1_0000_0000_0000_0000nat;
        vstd::arithmetic::div_mod::lemma_add_mod_noop(a as int, 0xB, m as int);
        vstd::arithmetic::div_mod::lemma_small_mod(0xB, m);
        vstd::arithmetic::div_mod::lemma_mod_bound(a as int, m as int);
        let w = (a % m) as int;
        if w + 0xB >= m {
            let x = w + 0xB;
            assert(x % (m as int) == x - m) by (nonlinear_arith)
                requires
                    m as int <= x < 2 * m,
                    m > 0,
            {
                vstd::arithmetic::div_mod::lemma_fundamental_div_mod(x, m as int);
            }
        } else {
            vstd::arithmetic::div_mod::lemma_small_mod((w + 0xB) as nat, m);
        }
    }
    r
}

/// Reorders `vec` by a fixed pseudo-random walk from the last position down
/// to the second: the same seed always gives the same order.
pub fn pseudo_shuffle(vec: &mut [usize], seed: u64)
    ensures
        final(vec)@ == shuffled(old(vec)@, seed),
        final(vec)@.to_multiset() == old(vec)@.to_multiset(),
{
    let mut rng_seed = seed;
    let mut i: usize = vec.len();
    proof {
        if old(vec)@.len() > 0 {
            lemma_shuffle_down_is_permutation(old(vec)@, seed, old(vec)@.len() - 1);
        }
    }
    while i >= 2
        invariant
            i <= vec@.len(),
            vec@.len() == old(vec)@.len(),
            shuffle_down(vec@, rng_seed, i - 1) == shuffled(old(vec)@, seed),
        decreases i,
    {
        let idx = i - 1;
        rng_seed = step_seed(rng_seed);
        let j = (#[verifier::truncate] (rng_seed as usize)) % (idx + 1);
        let ghost prev = vec@;
        let a = vec[idx];
        let b = vec[j];
        vec[idx] = b;
        vec[j] = a;
        assert(vec@ =~= swap_at(prev, idx as int, j as int));
        i = idx;
    }
}

proof fn lemma_sum_of_take_step(s: Seq<u64>, i: int)
    requires
        0 <= i < s.len(),
    ensures
        sum_of(s.take(i + 1)) == sum_of(s.take(i)) + s[i],
{
    assert(s.take(i + 1).drop_last() =~= s.take(i));
}

proof fn lemma_sum_of_nonneg(s: Seq<u64>)
    ensures
        sum_of(s) >= 0,
    decreases s.len(),
{
    if s.len() > 0 {
        lemma_sum_of_nonneg(s.drop_last());
    }
}

proof fn lemma_sum_of_take_le(s: Seq<u64>, i: int)
    requires
        0 <= i <= s.len(),
    ensures
        0 <= sum_of(s.take(i)) <= sum_of(s),
    decreases s.len() - i,
{
    lemma_sum_of_nonneg(s.take(i));
    if i == s.len() {
        assert(s.take(i) =~= s);
    } else {
        lemma_sum_of_take_le(s, i + 1);
        lemma_sum_of_take_step(s, i);
    }
}

proof fn lemma_sum_of_update_last(s: Seq<u64>, v: u64)
    requires
        s.len() > 0,
    ensures
        sum_of(s.update(s.len() - 1, v)) == sum_of(s) - s.last() + v,
{
    assert(s.update(s.len() - 1, v).drop_last() =~= s.drop_last());
}

/// `payouts` once the rounding left by the split is put on the last share:
/// when the shares do not add up to the pot, the last share is moved by
/// the difference, computed and applied in signed 64-bit arithmetic.
pub open spec fn balanced(raw: Seq<u64>, total_pot: u64) -> Seq<u64> {
    if sum_of(raw) == total_pot {
        raw
    } else {
        let diff = (total_pot as i64) - ((sum_of(raw) as u64) as i64);
        raw.update(raw.len() - 1, ((raw.last() as i64) + diff) as u64)
    }
}

/// Balancing does not overflow: the shares add up to an amount, and where
/// they miss the pot there is a last share and the signed difference and
/// the moved share stay within 64 bits.
pub open spec fn can_balance(raw: Seq<u64>, total_pot: u64) -> bool {
    &&& sum_of(raw) <= u64::MAX
    &&& sum_of(raw) != total_pot ==> {
        let diff = (total_pot as i64) - ((sum_of(raw) as u64) as i64);
        &&& raw.len() > 0
        &&& i64::MIN <= diff <= i64::MAX
        &&& i64::MIN <= (raw.last() as i64) + diff <= i64::MAX
    }
}

/// The shares, the pot and the moved share stay within signed 64 bits, so
/// the casts of the balancing step change no value.
pub open spec fn balance_in_range(raw: Seq<u64>, total_pot: u64) -> bool {
    &&& total_pot <= i64::MAX
    &&& sum_of(raw) <= i64::MAX
    &&& raw.len() > 0 ==> raw.last() <= i64::MAX
    &&& sum_of(raw) != total_pot ==> raw.last() + total_pot - sum_of(raw) >= 0
}

/// Balanced shares add up to the pot, where the values stay in range.
pub proof fn lemma_balanced_sums_to_pot(raw: Seq<u64>, total_pot: u64)
    requires
        can_balance(raw, total_pot),
        balance_in_range(raw, total_pot),
    ensures
        sum_of(balanced(raw, total_pot)) == total_pot,
{
    lemma_sum_of_nonneg(raw);
    if sum_of(raw) != total_pot {
        let sum = sum_of(raw) as u64;
        let last = raw.last();
        lemma_small_casts(total_pot, 0);
        lemma_small_casts(sum, 0);
        lemma_small_casts(last, 0);
        let diff = (total_pot as i64) - (sum as i64);
        assert(diff == total_pot - sum_of(raw));
        let moved = ((last as i64) + diff) as i64;
        assert(moved == last + total_pot - sum_of(raw));
        lemma_small_casts(last, moved);
        assert(((last as i64) + diff) as u64 == moved as u64);
        lemma_sum_of_update_last(raw, moved as u64);
    }
}

proof fn lemma_small_casts(x: u64, v: i64)
    ensures
        x <= 0x7fff_ffff_ffff_ffff ==> (x as i64) as int == x as int,
        v >= 0 ==> (v as u64) as int == v as int,
{
    assert(x <= 0x7fff_ffff_ffff_ffff ==> (x as i64) as int == x as int) by (bit_vector);
    assert(v >= 0 ==> (v as u64) as int == v as int) by (bit_vector);
}

/// Whether balancing `payouts` over `total_pot` would overflow (see
/// `can_balance`).
pub fn balance_would_overflow(payouts: &Vec<u64>, total_pot: u64) -> (r: bool)
    ensures
        r == !can_balance(payouts@, total_pot),
{
    let ghost raw = payouts@;
    let mut sum: u64 = 0;
    let mut i: usize = 0;
    while i < payouts.len()
        invariant
            payouts@ == raw,
            i <= raw.len(),
            sum == sum_of(raw.take(i as int)),
        decreases raw.len() - i,
    {
        proof {
            lemma_sum_of_take_step(raw, i as int);
            lemma_sum_of_take_le(raw, i as int + 1);
        }
        if payouts[i] > u64::MAX - sum {
            return true;
        }
        sum = sum + payouts[i];
        i = i + 1;
    }
    assert(raw.take(raw.len() as int) =~= raw);
    if sum == total_pot {
        return false;
    }
    if payouts.len() == 0 {
        return true;
    }
    let diff = (total_pot as i64 as i128) - (sum as i64 as i128);
    if diff < i64::MIN as i128 || diff > i64::MAX as i128 {
        return true;
    }
    let moved = (payouts[payouts.len() - 1] as i64 as i128) + diff;
    moved < i64::MIN as i128 || moved > i64::MAX as i128
}

/// Puts the rounding left over by a split of `total_pot` on the last share,
/// so that the shares add up to the pot.
pub fn balance_payouts(payouts: &mut Vec<u64>, total_pot: u64)
    requires
        can_balance(old(payouts)@, total_pot),
    ensures
        final(payouts)@ == balanced(old(payouts)@, total_pot),
        balance_in_range(old(payouts)@, total_pot) ==> sum_of(final(payouts)@) == total_pot,
{
    let ghost raw = payouts@;
    let mut sum: u64 = 0;
    let mut i: usize = 0;
    while i < payouts.len()
        invariant
            payouts@ == raw,
            can_balance(raw, total_pot),
            i <= raw.len(),
            sum == sum_of(raw.take(i as int)),
        decreases raw.len() - i,
    {
        proof {
            lemma_sum_of_take_step(raw, i as int);
            lemma_sum_of_take_le(raw, i as int + 1);
        }
        sum = sum + payouts[i];
        i = i + 1;
    }
    assert(raw.take(raw.len() as int) =~= raw);
    if sum != total_pot {
        let diff = (total_pot as i64) - (sum as i64);
        let n = payouts.len();
        let signed = (payouts[n - 1] as i64) + diff;
        let moved = signed as u64;
        payouts.set(n - 1, moved);
    }
    proof {
        if balance_in_range(raw, total_pot) {
            lemma_balanced_sums_to_pot(raw, total_pot);
        }
    }
}

/// The keys present in `slots`, in order.
pub fn present_keys(slots: &Vec<Option<Pubkey>>) -> (keys: Vec<Pubkey>)
    ensures
        keys@ == somes(slots@),
{
    let mut keys: Vec<Pubkey> = Vec::new();
    let mut i: usize = 0;
    while i < slots.len()
        invariant
            i <= slots@.len(),
            keys@ == somes(slots@.take(i as int)),
        decreases slots@.len() - i,
    {
        assert(slots@.take(i as int + 1).drop_last() =~= slots@.take(i as int));
        match slots[i] {
            Some(k) => keys.push(k),
            None => {},
        }
        i = i + 1;
    }
    assert(slots@.take(slots@.len() as int) =~= slots@);
    keys
}

/// Whether the game may be settled at time `current_timestamp`.
pub fn can_settle(game: &Game, current_timestamp: i64) -> (r: bool)
    ensures
        r == can_settle_spec(game@, current_timestamp),
{
    game.state == GameState::Playing || current_timestamp > game.game_expiration_timestamp
}

/// The pot of wagers and the total of house fees of a game, where both fit
/// in an amount.
pub fn settle_totals(game: &Game) -> (r: Option<(u64, u64)>)
    ensures
        ({
            let w = sum_of(wagers(game@.players));
            let h = sum_of(house_fees(game@.players));
            &&& w <= u64::MAX && h <= u64::MAX ==> r == Some((w as u64, h as u64))
            &&& !(w <= u64::MAX && h <= u64::MAX) ==> r is None
        }),
{
    let ghost ws = wagers(game@.players);
    let ghost hs = house_fees(game@.players);
    let mut total_wager: u64 = 0;
    let mut total_fee: u64 = 0;
    let mut i: usize = 0;
    while i < game.players.len()
        invariant
            ws == wagers(game@.players),
            hs == house_fees(game@.players),
            i <= game@.players.len(),
            total_wager == sum_of(ws.take(i as int)),
            total_fee == sum_of(hs.take(i as int)),
        decreases game@.players.len() - i,
    {
        proof {
            lemma_sum_of_take_step(ws, i as int);
            lemma_sum_of_take_le(ws, i as int + 1);
            lemma_sum_of_take_step(hs, i as int);
            lemma_sum_of_take_le(hs, i as int + 1);
        }
        let p = game.players[i];
        if p.wager > u64::MAX - total_wager || p.gamba_fee_amount > u64::MAX - total_fee {
            return None;
        }
        total_wager = total_wager + p.wager;
        total_fee = total_fee + p.gamba_fee_amount;
        i = i + 1;
    }
    assert(ws.take(ws.len() as int) =~= ws);
    assert(hs.take(hs.len() as int) =~= hs);
    Some((total_wager, total_fee))
}

/// How many winners settling pays.
pub fn winners_to_pay(ctx: &SettleGame) -> (n: usize)
    ensures
        n == winner_count(ctx.game_account.winners, somes(ctx.player_atas@).len() as int),
{
    let num_players = present_keys(&ctx.player_atas).len();
    let intended_winners = ctx.game_account.winners as usize;
    if intended_winners > num_players {
        num_players
    } else {
        intended_winners
    }
}

/// The winners drawn from `n` player accounts are distinct accounts.
pub proof fn lemma_winners_distinct(n: int, seed: u64, w: int)
    requires
        0 <= w <= n <= usize::MAX,
    ensures
        winner_order(n, seed).len() == n,
        winner_order(n, seed).take(w).no_duplicates(),
        forall|k: int| 0 <= k < n ==> #[trigger] winner_order(n, seed)[k] < n,
{
    broadcast use vstd::seq_lib::group_to_multiset_ensures;
    let range = Seq::new(n as nat, |i: int| i as usize);
    let order = winner_order(n, seed);
    if n > 0 {
        lemma_shuffle_down_is_permutation(range, seed, n - 1);
    }
    assert(order.to_multiset() =~= range.to_multiset());
    assert(range.no_duplicates());
    range.lemma_multiset_has_no_duplicates();
    assert forall|x: usize| order.to_multiset().contains(x) implies order.to_multiset().count(x)
        == 1 by {
    }
    order.lemma_multiset_has_no_duplicates_conv();
    assert forall|k: int| 0 <= k < n implies #[trigger] order[k] < n by {
        assert(order.contains(order[k]));
        assert(range.to_multiset().count(order[k]) > 0);
        assert(range.contains(order[k]));
    }
}

/// Settles a game at time `current_timestamp`. `shares` is the split of the
/// pot among the winners, best first; the rounding it leaves is put on the
/// last share, and the `k`-th winner is paid the `k`-th balanced share.
///
/// A game that neither plays nor has run out of time is refused. Otherwise
/// the creator fees, the payouts and the house fee are asked for, then the
/// game's token account is closed and the game account emptied.
pub fn settle_game_handler(ctx: &SettleGame, current_timestamp: i64, shares: Vec<u64>) -> (r:
    Result<Vec<TokenAction>, GambaError>)
    requires
        settle_fits(*ctx, current_timestamp, shares@),
    ensures
        !can_settle_spec(ctx.game_account@, current_timestamp) ==> r == Err::<
            Vec<TokenAction>,
            GambaError,
        >(GambaError::CannotSettleYet),
        can_settle_spec(ctx.game_account@, current_timestamp) ==> (r matches Ok(actions)
            && actions@ == settle_actions(
            *ctx,
            current_timestamp,
            settle_payouts(*ctx, shares@),
        )),
        r is Ok && wager_pot(*ctx) > 0 ==> winner_count(
            ctx.game_account.winners,
            somes(ctx.player_atas@).len() as int,
        ) >= 1,
        r is Ok && balance_in_range(shares@, wager_pot(*ctx) as u64) ==> sum_of(
            settle_payouts(*ctx, shares@),
        ) == wager_pot(*ctx),
{
    let game = &ctx.game_account;
    if !can_settle(game, current_timestamp) {
        return Err(GambaError::CannotSettleYet);
    }
    let player_atas = present_keys(&ctx.player_atas);
    let creator_atas = present_keys(&ctx.creator_atas);
    let ghost g = game@;
    let ghost n_creator = if g.players.len() < creator_atas@.len() {
        g.players.len()
    } else {
        creator_atas@.len()
    };
    let mut actions: Vec<TokenAction> = Vec::new();
    let mut total_wager: u64 = 0;
    let mut total_gamba_fee: u64 = 0;
    let mut i: usize = 0;
    while i < game.players.len()
        invariant
            g == game@,
            creator_atas@ == somes(ctx.creator_atas@),
            sum_of(wagers(g.players)) <= u64::MAX,
            sum_of(house_fees(g.players)) <= u64::MAX,
            i <= g.players.len(),
            total_wager == sum_of(wagers(g.players).take(i as int)),
            total_gamba_fee == sum_of(house_fees(g.players).take(i as int)),
            actions@.len() == if i < creator_atas@.len() {
                i as int
            } else {
                creator_atas@.len() as int
            },
            forall|k: int|
                0 <= k < actions@.len() ==> actions@[k] == (TokenAction::Transfer {
                    from: ctx.game_account_ta,
                    to: creator_atas@[k],
                    authority: ctx.game_account_key,
                    amount: g.players[k].creator_fee_amount,
                }),
        decreases g.players.len() - i,
    {
        let player = game.players[i];
        if i < creator_atas.len() {
            actions.push(
                TokenAction::Transfer {
                    from: ctx.game_account_ta,
                    to: creator_atas[i],
                    authority: ctx.game_account_key,
                    amount: player.creator_fee_amount,
                },
            );
        }
        proof {
            lemma_sum_of_take_step(wagers(g.players), i as int);
            lemma_sum_of_take_le(wagers(g.players), i as int + 1);
            lemma_sum_of_take_step(house_fees(g.players), i as int);
            lemma_sum_of_take_le(house_fees(g.players), i as int + 1);
        }
        total_wager = total_wager + player.wager;
        total_gamba_fee = total_gamba_fee + player.gamba_fee_amount;
        i = i + 1;
    }
    assert(house_fees(g.players).take(g.players.len() as int) =~= house_fees(g.players));
    assert(wagers(g.players).take(g.players.len() as int) =~= wagers(g.players));
    let mut payouts = shares;
    balance_payouts(&mut payouts, total_wager);
    let num_players = player_atas.len();
    let intended_winners = game.winners as usize;
    let effective_num_winners = if intended_winners > num_players {
        num_players
    } else {
        intended_winners
    };
    let mut player_indices: Vec<usize> = Vec::new();
    let mut k: usize = 0;
    while k < num_players
        invariant
            k <= num_players,
            player_indices@ =~= Seq::new(k as nat, |i: int| i as usize),
        decreases num_players - k,
    {
        player_indices.push(k);
        k = k + 1;
    }
    let seed = #[verifier::truncate] (current_timestamp as u64);
    pseudo_shuffle(player_indices.as_mut_slice(), seed);
    let ghost order = player_indices@;
    proof {
        lemma_winners_distinct(num_players as int, seed, effective_num_winners as int);
        assert(order == winner_order(num_players as int, seed));
    }
    let ghost before = actions@;
    let mut w: usize = 0;
    while w < effective_num_winners
        invariant
            w <= effective_num_winners <= num_players,
            num_players == player_atas@.len(),
            payouts@.len() == effective_num_winners,
            player_indices@ == order,
            order.len() == num_players,
            forall|j: int| 0 <= j < num_players ==> #[trigger] order[j] < num_players,
            actions@.len() == before.len() + w,
            forall|j: int| 0 <= j < before.len() ==> actions@[j] == before[j],
            forall|j: int|
                0 <= j < w ==> actions@[before.len() + j] == (TokenAction::Transfer {
                    from: ctx.game_account_ta,
                    to: player_atas@[order[j] as int],
                    authority: ctx.game_account_key,
                    amount: payouts@[j],
                }),
        decreases effective_num_winners - w,
    {
        let winner_index = player_indices[w];
        assert(order[w as int] < num_players);
        actions.push(
            TokenAction::Transfer {
                from: ctx.game_account_ta,
                to: player_atas[winner_index],
                authority: ctx.game_account_key,
                amount: payouts[w],
            },
        );
        w = w + 1;
    }
    actions.push(
        TokenAction::Transfer {
            from: ctx.game_account_ta,
            to: ctx.gamba_fee_ata,
            authority: ctx.game_account_key,
            amount: total_gamba_fee,
        },
    );
    actions.push(
        TokenAction::CloseAccount {
            account: ctx.game_account_ta,
            destination: game.game_maker,
            authority: ctx.game_account_key,
        },
    );
    actions.push(TokenAction::DrainLamports { from: ctx.game_account_key, to: game.game_maker });
    proof {
        let creators = creator_atas@;
        let players = player_atas@;
        let part_a = Seq::new(
            n_creator,
            |i: int|
                TokenAction::Transfer {
                    from: ctx.game_account_ta,
                    to: creators[i],
                    authority: ctx.game_account_key,
                    amount: g.players[i].creator_fee_amount,
                },
        );
        let part_b = Seq::new(
            effective_num_winners as nat,
            |k: int|
                TokenAction::Transfer {
                    from: ctx.game_account_ta,
                    to: players[order[k] as int],
                    authority: ctx.game_account_key,
                    amount: payouts@[k],
                },
        );
        assert(before =~= part_a);
        assert(effective_num_winners as int == winner_count(g.winners, players.len() as int));
        assert(actions@ =~= part_a + part_b + seq![
            TokenAction::Transfer {
                from: ctx.game_account_ta,
                to: ctx.gamba_fee_ata,
                authority: ctx.game_account_key,
                amount: sum_of(house_fees(g.players)) as u64,
            },
            TokenAction::CloseAccount {
                account: ctx.game_account_ta,
                destination: g.game_maker,
                authority: ctx.game_account_key,
            },
            TokenAction::DrainLamports { from: ctx.game_account_key, to: g.game_maker },
        ]);
    }
    assert(actions@ =~= settle_actions(*ctx, current_timestamp, payouts@));
    Ok(actions)
}

/// What settling asks for is determined by the game, the token accounts
/// involved, the player and creator accounts passed (in order, whatever
/// empty slots lie between them), the settle time and the shares: nothing
/// else, such as who signs as the randomness account, plays a part. The
/// winners are the first `winner_count` entries of
/// `winner_order(n, now as u64)`, computable by anyone who knows the time.
pub proof fn lemma_settle_is_determined(c1: SettleGame, c2: SettleGame, now: i64, shares: Seq<u64>)
    requires
        c1.game_account@ == c2.game_account@,
        c1.game_account_key == c2.game_account_key,
        c1.game_account_ta == c2.game_account_ta,
        c1.gamba_fee_ata == c2.gamba_fee_ata,
        somes(c1.player_atas@) == somes(c2.player_atas@),
        somes(c1.creator_atas@) == somes(c2.creator_atas@),
    ensures
        settle_payouts(c1, shares) == settle_payouts(c2, shares),
        settle_actions(c1, now, settle_payouts(c1, shares)) == settle_actions(
            c2,
            now,
            settle_payouts(c2, shares),
        ),
{
}

/// What settling asks for, in order: the creator fee of each seat to the
/// creator account passed in the same position (as far as there are
/// creator accounts); then, for `k` below the smaller of the game's winner
/// count and the number of player accounts passed, the `k`-th payout to the
/// player account at position `k` of the draw, that is of `0, 1, .., n - 1`
/// shuffled with the settle time as seed; then the house fees to the house,
/// the game's token account closed to the game maker and the game account
/// emptied to the game maker.
pub proof fn lemma_settle_pays_winners_drawn_at_settle_time(
    ctx: SettleGame,
    now: i64,
    payouts: Seq<u64>,
)
    ensures
        ({
            let g = ctx.game_account@;
            let players = somes(ctx.player_atas@);
            let creators = somes(ctx.creator_atas@);
            let n = players.len() as int;
            let nc = if g.players.len() < creators.len() {
                g.players.len() as int
            } else {
                creators.len() as int
            };
            let w = if g.winners as int > n {
                n
            } else {
                g.winners as int
            };
            let draw = shuffled(indices(n as nat), #[verifier::truncate] (now as u64));
            let a = settle_actions(ctx, now, payouts);
            &&& a.len() == nc + w + 3
            &&& forall|i: int|
                0 <= i < nc ==> a[i] == (TokenAction::Transfer {
                    from: ctx.game_account_ta,
                    to: creators[i],
                    authority: ctx.game_account_key,
                    amount: g.players[i].creator_fee_amount,
                })
            &&& forall|k: int|
                0 <= k < w ==> a[nc + k] == (TokenAction::Transfer {
                    from: ctx.game_account_ta,
                    to: players[draw[k] as int],
                    authority: ctx.game_account_key,
                    amount: payouts[k],
                })
            &&& a[nc + w] == (TokenAction::Transfer {
                from: ctx.game_account_ta,
                to: ctx.gamba_fee_ata,
                authority: ctx.game_account_key,
                amount: sum_of(house_fees(g.players)) as u64,
            })
            &&& a[nc + w + 1] == (TokenAction::CloseAccount {
                account: ctx.game_account_ta,
                destination: g.game_maker,
                authority: ctx.game_account_key,
            })
            &&& a[nc + w + 2] == (TokenAction::DrainLamports {
                from: ctx.game_account_key,
                to: g.game_maker,
            })
        }),
{
}

/// The draw follows the settle time: where two settle times shuffle the
/// player accounts so that a different one comes first, and the accounts
/// passed are distinct, settling at those times pays the first payout to
/// different accounts.
pub proof fn lemma_settle_time_changes_winner(ctx: SettleGame, t1: i64, t2: i64, payouts: Seq<u64>)
    requires
        somes(ctx.player_atas@).no_duplicates(),
        somes(ctx.player_atas@).len() <= usize::MAX,
        ctx.game_account@.winners >= 1,
        somes(ctx.player_atas@).len() >= 1,
        shuffled(indices(somes(ctx.player_atas@).len()), #[verifier::truncate] (t1 as u64))[0]
            != shuffled(indices(somes(ctx.player_atas@).len()), #[verifier::truncate] (t2 as u64))[0],
    ensures
        ({
            let g = ctx.game_account@;
            let creators = somes(ctx.creator_atas@);
            let nc = if g.players.len() < creators.len() {
                g.players.len() as int
            } else {
                creators.len() as int
            };
            settle_actions(ctx, t1, payouts)[nc] != settle_actions(ctx, t2, payouts)[nc]
        }),
{
    let players = somes(ctx.player_atas@);
    let n = players.len() as int;
    lemma_settle_pays_winners_drawn_at_settle_time(ctx, t1, payouts);
    lemma_settle_pays_winners_drawn_at_settle_time(ctx, t2, payouts);
    lemma_winners_distinct(n, #[verifier::truncate] (t1 as u64), 0);
    lemma_winners_distinct(n, #[verifier::truncate] (t2 as u64), 0);
    let d1 = shuffled(indices(n as nat), #[verifier::truncate] (t1 as u64))[0] as int;
    let d2 = shuffled(indices(n as nat), #[verifier::truncate] (t2 as u64))[0] as int;
    assert(winner_order(n, #[verifier::truncate] (t1 as u64))[0] < n);
    assert(winner_order(n, #[verifier::truncate] (t2 as u64))[0] < n);
    assert(players[d1] != players[d2]);
}

/// When a game may be settled: as soon as it plays, and otherwise only
/// strictly after its expiration time.
pub proof fn lemma_settle_time_rule(g: GameView, now: i64)
    ensures
        g.state == GameState::Playing ==> can_settle_spec(g, now),
        now > g.game_expiration_timestamp ==> can_settle_spec(g, now),
        g.state == GameState::Waiting && now <= g.game_expiration_timestamp ==> !can_settle_spec(
            g,
            now,
        ),
{
}

/// Balancing only touches the last share: the number of shares and every
/// other share stay, and shares that already add up to the pot stay whole.
pub proof fn lemma_balancing_touches_last_share(raw: Seq<u64>, total_pot: u64)
    requires
        can_balance(raw, total_pot),
    ensures
        balanced(raw, total_pot).len() == raw.len(),
        forall|k: int| 0 <= k < raw.len() - 1 ==> balanced(raw, total_pot)[k] == raw[k],
        sum_of(raw) == total_pot ==> balanced(raw, total_pot) == raw,
{
}

/// The creator fees of the players, in seat order.
pub open spec fn creator_fees(players: Seq<Player>) -> Seq<u64> {
    players.map_values(|p: Player| p.creator_fee_amount)
}

/// The tokens that a list of actions moves by transfers.
pub open spec fn transferred(actions: Seq<TokenAction>) -> int
    decreases actions.len(),
{
    if actions.len() == 0 {
        0
    } else {
        transferred(actions.drop_last()) + match actions.last() {
            TokenAction::Transfer { amount, .. } => amount as int,
            _ => 0,
        }
    }
}

proof fn lemma_transferred_concat(a: Seq<TokenAction>, b: Seq<TokenAction>)
    ensures
        transferred(a + b) == transferred(a) + transferred(b),
    decreases b.len(),
{
    if b.len() == 0 {
        assert(a + b =~= a);
    } else {
        assert((a + b).drop_last() =~= a + b.drop_last());
        lemma_transferred_concat(a, b.drop_last());
    }
}

proof fn lemma_transferred_amounts(s: Seq<TokenAction>, amounts: Seq<u64>)
    requires
        s.len() == amounts.len(),
        forall|i: int|
            0 <= i < s.len() ==> (#[trigger] s[i] matches TokenAction::Transfer { amount, .. } && amount
                == amounts[i]),
    ensures
        transferred(s) == sum_of(amounts),
    decreases s.len(),
{
    if s.len() > 0 {
        lemma_transferred_amounts(s.drop_last(), amounts.drop_last());
    }
}

/// Settling pays out in full: where every seat has its creator account and
/// the balancing stays within signed 64 bits, the transfers out of the
/// game's token account add up to everything the players paid in: the
/// creator fees, the whole pot of wagers (winners or not), and the house
/// fees.
pub proof fn lemma_settle_pays_in_full(ctx: SettleGame, now: i64, shares: Seq<u64>)
    requires
        can_settle_spec(ctx.game_account@, now),
        settle_fits(ctx, now, shares),
        somes(ctx.creator_atas@).len() >= ctx.game_account@.players.len(),
        balance_in_range(shares, wager_pot(ctx) as u64),
    ensures
        transferred(settle_actions(ctx, now, settle_payouts(ctx, shares))) == sum_of(
            creator_fees(ctx.game_account@.players),
        ) + sum_of(wagers(ctx.game_account@.players)) + sum_of(
            house_fees(ctx.game_account@.players),
        ),
{
    let payouts = settle_payouts(ctx, shares);
    lemma_balanced_sums_to_pot(shares, wager_pot(ctx) as u64);
    lemma_sum_of_nonneg(wagers(ctx.game_account@.players));
    let g = ctx.game_account@;
    let players = somes(ctx.player_atas@);
    let creators = somes(ctx.creator_atas@);
    let order = winner_order(players.len() as int, #[verifier::truncate] (now as u64));
    let w = winner_count(g.winners, players.len() as int);
    let part_a = Seq::new(
        g.players.len(),
        |i: int|
            TokenAction::Transfer {
                from: ctx.game_account_ta,
                to: creators[i],
                authority: ctx.game_account_key,
                amount: g.players[i].creator_fee_amount,
            },
    );
    let part_b = Seq::new(
        w as nat,
        |k: int|
            TokenAction::Transfer {
                from: ctx.game_account_ta,
                to: players[order[k] as int],
                authority: ctx.game_account_key,
                amount: payouts[k],
            },
    );
    let part_c = seq![
        TokenAction::Transfer {
            from: ctx.game_account_ta,
            to: ctx.gamba_fee_ata,
            authority: ctx.game_account_key,
            amount: sum_of(house_fees(g.players)) as u64,
        },
        TokenAction::CloseAccount {
            account: ctx.game_account_ta,
            destination: g.game_maker,
            authority: ctx.game_account_key,
        },
        TokenAction::DrainLamports { from: ctx.game_account_key, to: g.game_maker },
    ];
    assert(settle_actions(ctx, now, payouts) == part_a + part_b + part_c);
    lemma_transferred_concat(part_a + part_b, part_c);
    lemma_transferred_concat(part_a, part_b);
    lemma_transferred_amounts(part_a, creator_fees(g.players));
    lemma_transferred_amounts(part_b, payouts);
    assert(part_c.drop_last().drop_last().drop_last() =~= Seq::<TokenAction>::empty());
    assert(part_c.drop_last().drop_last().last() == part_c[0]);
    assert(transferred(part_c) == sum_of(house_fees(g.players))) by {
        reveal_with_fuel(transferred, 4);
        lemma_sum_of_nonneg(house_fees(g.players));
    }
}

} // verus!
