//! The commands, as executable functions on a game record.

use crate::context::{DeclareWinner, InitializeGame, JoinGame, SubmitMove, TriggerCollapse};
use crate::error::IgniteError;
use crate::identity::Identity;
use crate::rules::{
    collapse_rejection, collapsed, collapsed_grid, create_rejection, created, enrolled,
    entry_rejection, has_sole_survivor, is_seat_of, is_sole_survivor, join_rejection, joined,
    manhattan, move_rejection, moved, payout_of, seat_of, settle_rejection, settled,
    sole_survivor, survivors, ACTIVATION_THRESHOLD,
};
use crate::state::{
    in_bounds, lemma_tile_index_in_range, tile_index, GameState, GameStatus, GameView, Payout,
    PlayerState, Tile, MAX_GRID_SIZE, MAX_PLAYERS,
};
use vstd::prelude::*;

verus! {

/// The place of tile `(x, y)` in the grid vector.
fn tile_offset(size: u8, x: u8, y: u8) -> (r: usize)
    requires
        size <= MAX_GRID_SIZE,
        in_bounds(size as nat, x, y),
    ensures
        r == tile_index(size as nat, x, y),
        r < size * size,
{
    proof {
        lemma_tile_index_in_range(size as nat, x, y);
        assert(size * size <= 100) by (nonlinear_arith)
            requires
                0 <= size <= 10,
        ;
        assert(0 <= y * size <= 100) by (nonlinear_arith)
            requires
                0 <= y < size <= 10,
        ;
    }
    (y as usize) * (size as usize) + (x as usize)
}

/// Whether a living player stands at `(x, y)`.
fn tile_taken(players: &Vec<PlayerState>, x: u8, y: u8) -> (r: bool)
    ensures
        r == (exists|i: int|
            0 <= i < players.len() && (#[trigger] players[i]).alive && players[i].x == x
                && players[i].y == y),
{
    let mut i: usize = 0;
    while i < players.len()
        invariant
            i <= players.len(),
            forall|k: int|
                0 <= k < i ==> !((#[trigger] players[k]).alive && players[k].x == x && players[k].y
                    == y),
        decreases players.len() - i,
    {
        let p = players[i];
        if p.alive && p.x == x && p.y == y {
            return true;
        }
        i += 1;
    }
    false
}

/// Runs the checks that decide whether anyone may enter at `(x, y)`.
fn entry_check(game: &GameState, x: u8, y: u8) -> (r: Option<IgniteError>)
    requires
        game.wf(),
    ensures
        r == entry_rejection(game@, x, y),
{
    if game.status != GameStatus::Waiting {
        return Some(IgniteError::GameNotJoinable);
    }
    if game.players.len() >= MAX_PLAYERS {
        return Some(IgniteError::GameFull);
    }
    if x >= game.grid_size || y >= game.grid_size {
        return Some(IgniteError::OutOfBounds);
    }
    let idx = tile_offset(game.grid_size, x, y);
    if game.grid[idx] != Tile::Safe {
        return Some(IgniteError::TileIsLava);
    }
    if tile_taken(&game.players, x, y) {
        return Some(IgniteError::TileOccupied);
    }
    None
}

/// Says what a newcomer at `(x, y)` owes before any money moves: the buy-in, or the reason for
/// which the join would be turned down even with the buy-in collected.
pub fn join_due(game: &GameState, x: u8, y: u8) -> (res: Result<u64, IgniteError>)
    requires
        game.wf(),
    ensures
        res == match join_rejection(game@, x, y, true) {
            Some(e) => Err::<u64, IgniteError>(e),
            None => Ok(game.buy_in),
        },
{
    match entry_check(game, x, y) {
        Some(e) => Err(e),
        None => match game.prize_pool.checked_add(game.buy_in) {
            None => Err(IgniteError::ArithmeticOverflow),
            Some(_) => Ok(game.buy_in),
        },
    }
}

/// Enters `player_pubkey` into the game at `(start_x, start_y)`.
///
/// `ctx` says whether the buy-in has reached custody (see [`join_due`] for the amount). The
/// checks run in the order of [`join_rejection`]; a join that fails any of them changes
/// nothing. An accepted join appends the player, alive, to the roster, adds the buy-in to the
/// pool and makes the game active as soon as the roster holds two players. The roster is not
/// searched for the identity: a party that joins twice holds two entries.
pub fn join_game(
    game: &mut GameState,
    ctx: JoinGame,
    player_pubkey: Identity,
    start_x: u8,
    start_y: u8,
) -> (res: Result<(), IgniteError>)
    requires
        old(game).wf(),
    ensures
        final(game).wf(),
        match join_rejection(old(game)@, start_x, start_y, ctx.payment_collected) {
            Some(e) => res == Err::<(), IgniteError>(e) && *final(game) == *old(game),
            None => res is Ok && final(game)@ == joined(
                old(game)@,
                player_pubkey,
                start_x,
                start_y,
            ),
        },
{
    if let Some(e) = entry_check(game, start_x, start_y) {
        return Err(e);
    }
    if !ctx.payment_collected {
        return Err(IgniteError::CollaboratorFailure);
    }
    let pool = match game.prize_pool.checked_add(game.buy_in) {
        None => {
            return Err(IgniteError::ArithmeticOverflow);
        },
        Some(pool) => pool,
    };
    game.players.push(PlayerState { pubkey: player_pubkey, x: start_x, y: start_y, alive: true });
    game.prize_pool = pool;
    if game.players.len() >= ACTIVATION_THRESHOLD {
        game.status = GameStatus::Active;
    }
    proof {
        crate::laws::join_keeps_consistent(
            old(game)@,
            player_pubkey,
            start_x,
            start_y,
            ctx.payment_collected,
        );
    }
    Ok(())
}

/// Finds the earliest roster entry of `who`.
fn find_seat(players: &Vec<PlayerState>, who: Identity) -> (r: Option<usize>)
    ensures
        match r {
            Some(i) => is_seat_of(players@, who, i as int) && seat_of(players@, who) == i,
            None => !enrolled(players@, who),
        },
{
    let mut i: usize = 0;
    while i < players.len()
        invariant
            i <= players.len(),
            forall|k: int| 0 <= k < i ==> (#[trigger] players[k]).pubkey != who,
        decreases players.len() - i,
    {
        if players[i].pubkey == who {
            proof {
                crate::laws::lemma_seat_is_unique(players@, who, i as int);
            }
            return Some(i);
        }
        i += 1;
    }
    None
}

/// Finds the one living player, if there is exactly one.
fn find_sole_survivor(players: &Vec<PlayerState>) -> (r: Option<usize>)
    ensures
        match r {
            Some(i) => is_sole_survivor(players@, i as int) && sole_survivor(players@)
                == players[i as int],
            None => !has_sole_survivor(players@),
        },
{
    let mut found: Option<usize> = None;
    let mut i: usize = 0;
    while i < players.len()
        invariant
            i <= players.len(),
            match found {
                Some(f) => f < i && players[f as int].alive && forall|k: int|
                    0 <= k < i && (#[trigger] players[k]).alive ==> k == f,
                None => forall|k: int| 0 <= k < i ==> !(#[trigger] players[k]).alive,
            },
        decreases players.len() - i,
    {
        if players[i].alive {
            if let Some(f) = found {
                proof {
                    assert forall|s: int| !is_sole_survivor(players@, s) by {
                        if is_sole_survivor(players@, s) {
                            assert(players[f as int].alive);
                            assert(players[i as int].alive);
                        }
                    }
                }
                return None;
            }
            found = Some(i);
        }
        i += 1;
    }
    proof {
        match found {
            Some(f) => {
                crate::laws::lemma_sole_survivor_is_unique(players@, f as int);
            },
            None => {
                assert forall|s: int| !is_sole_survivor(players@, s) by {}
            },
        }
    }
    found
}

/// Says what a settlement ordered by `authority` would pay before any money moves: the whole
/// pool to the one survivor, or the reason for which the settlement would be turned down even
/// with the payout confirmed.
pub fn settlement_due(game: &GameState, authority: Identity) -> (res: Result<Payout, IgniteError>)
    requires
        game.wf(),
    ensures
        res == match settle_rejection(game@, authority, true) {
            Some(e) => Err::<Payout, IgniteError>(e),
            None => Ok(payout_of(game@)),
        },
{
    if authority != game.authority {
        return Err(IgniteError::Unauthorized);
    }
    if game.status != GameStatus::Active {
        return Err(IgniteError::GameNotActive);
    }
    match find_sole_survivor(&game.players) {
        None => Err(IgniteError::GameNotResolved),
        Some(i) => Ok(Payout { recipient: game.players[i].pubkey, amount: game.prize_pool }),
    }
}

/// Settles the game in favour of its one survivor.
///
/// `ctx` says who signed for the settlement and whether the pool has reached the survivor
/// (see [`settlement_due`] for whom to pay, and how much). The checks run in the order of
/// [`settle_rejection`]; a settlement that fails any of them changes nothing. An accepted
/// settlement names the survivor as winner, ends the game and empties the pool; the result
/// tells who was paid and how much.
pub fn declare_winner(game: &mut GameState, ctx: DeclareWinner) -> (res: Result<
    Payout,
    IgniteError,
>)
    requires
        old(game).wf(),
    ensures
        final(game).wf(),
        match settle_rejection(old(game)@, ctx.authority, ctx.payout_confirmed) {
            Some(e) => res == Err::<Payout, IgniteError>(e) && *final(game) == *old(game),
            None => res == Ok::<Payout, IgniteError>(payout_of(old(game)@)) && final(game)@
                == settled(old(game)@),
        },
{
    let payout = match settlement_due(game, ctx.authority) {
        Err(e) => {
            return Err(e);
        },
        Ok(payout) => payout,
    };
    if !ctx.payout_confirmed {
        return Err(IgniteError::CollaboratorFailure);
    }
    game.winner = Some(payout.recipient);
    game.status = GameStatus::Resolved;
    game.prize_pool = 0;
    proof {
        crate::laws::settle_keeps_consistent(old(game)@, ctx.authority, ctx.payout_confirmed);
    }
    Ok(payout)
}

/// The number of cardinal steps between two tiles.
fn steps_between(x1: u8, y1: u8, x2: u8, y2: u8) -> (r: u16)
    ensures
        r == manhattan(x1, y1, x2, y2),
{
    let dx: u8 = if x1 <= x2 {
        x2 - x1
    } else {
        x1 - x2
    };
    let dy: u8 = if y1 <= y2 {
        y2 - y1
    } else {
        y1 - y2
    };
    dx as u16 + dy as u16
}

/// Moves the player who signed, `ctx.player`, to `(new_x, new_y)`.
///
/// The checks run in the order of [`move_rejection`]; a move that fails any of them changes
/// nothing. An accepted move changes the position of the player's roster entry and nothing
/// else. Other players on the destination do not stand in the way.
pub fn submit_move(game: &mut GameState, ctx: SubmitMove, new_x: u8, new_y: u8) -> (res: Result<
    (),
    IgniteError,
>)
    requires
        old(game).wf(),
    ensures
        final(game).wf(),
        match move_rejection(old(game)@, ctx.player, new_x, new_y) {
            Some(e) => res == Err::<(), IgniteError>(e) && *final(game) == *old(game),
            None => res is Ok && final(game)@ == moved(old(game)@, ctx.player, new_x, new_y),
        },
{
    if game.status != GameStatus::Active {
        return Err(IgniteError::GameNotActive);
    }
    let seat = match find_seat(&game.players, ctx.player) {
        None => {
            return Err(IgniteError::PlayerNotInGame);
        },
        Some(seat) => seat,
    };
    let entry = game.players[seat];
    if !entry.alive {
        return Err(IgniteError::PlayerEliminated);
    }
    if steps_between(entry.x, entry.y, new_x, new_y) != 1 {
        return Err(IgniteError::InvalidMove);
    }
    if new_x >= game.grid_size || new_y >= game.grid_size {
        return Err(IgniteError::OutOfBounds);
    }
    let idx = tile_offset(game.grid_size, new_x, new_y);
    if game.grid[idx] != Tile::Safe {
        return Err(IgniteError::TileIsLava);
    }
    game.players.set(seat, PlayerState { x: new_x, y: new_y, ..entry });
    proof {
        crate::laws::move_keeps_consistent(old(game)@, ctx.player, new_x, new_y);
    }
    Ok(())
}

/// Collapses the listed tiles and eliminates whoever stands on a hazard afterwards.
///
/// The checks run in the order of [`collapse_rejection`]; a collapse that fails any of them
/// changes nothing. In an accepted collapse every listed tile that lies on the grid becomes a
/// hazard, entries off the grid are passed over, every living player on a hazard is
/// eliminated, and the round counter goes up by one.
pub fn trigger_collapse(game: &mut GameState, ctx: TriggerCollapse, tiles: Vec<(u8, u8)>) -> (res:
    Result<(), IgniteError>)
    requires
        old(game).wf(),
    ensures
        final(game).wf(),
        match collapse_rejection(old(game)@, ctx.authority) {
            Some(e) => res == Err::<(), IgniteError>(e) && *final(game) == *old(game),
            None => res is Ok && final(game)@ == collapsed(old(game)@, tiles@),
        },
{
    if ctx.authority != game.authority {
        return Err(IgniteError::Unauthorized);
    }
    if game.status != GameStatus::Active {
        return Err(IgniteError::GameNotActive);
    }
    let round = match game.collapse_round.checked_add(1) {
        None => {
            return Err(IgniteError::ArithmeticOverflow);
        },
        Some(round) => round,
    };
    let ghost before = game@;
    let size = game.grid_size;

    let mut k: usize = 0;
    while k < tiles.len()
        invariant
            k <= tiles.len(),
            before.consistent(),
            size == before.grid_size,
            game@ == (GameView { grid: game.grid@, ..before }),
            game.grid@ == collapsed_grid(size as nat, before.grid, tiles@.take(k as int)),
        decreases tiles.len() - k,
    {
        let (tx, ty) = tiles[k];
        if tx < size && ty < size {
            let idx = tile_offset(size, tx, ty);
            game.grid.set(idx, Tile::Hazard);
        }
        proof {
            crate::laws::lemma_collapse_one_more(size as nat, before.grid, tiles@, k as int);
        }
        k += 1;
    }
    proof {
        assert(tiles@.take(tiles.len() as int) == tiles@);
    }

    let ghost grid = game.grid@;
    let mut i: usize = 0;
    while i < game.players.len()
        invariant
            i <= game.players.len(),
            before.consistent(),
            size == before.grid_size,
            grid == collapsed_grid(size as nat, before.grid, tiles@),
            game@ == (GameView { grid, players: game.players@, ..before }),
            game.players@.len() == before.players.len(),
            forall|j: int|
                0 <= j < i ==> game.players@[j] == survivors(size as nat, grid, before.players)[j],
            forall|j: int| i <= j < before.players.len() ==> game.players@[j] == before.players[j],
        decreases game.players.len() - i,
    {
        let entry = game.players[i];
        proof {
            assert(before.seated(before.players[i as int]));
        }
        let idx = tile_offset(size, entry.x, entry.y);
        if entry.alive && game.grid[idx] == Tile::Hazard {
            game.players.set(i, PlayerState { alive: false, ..entry });
        }
        i += 1;
    }
    game.collapse_round = round;
    proof {
        assert(game.players@ =~= survivors(size as nat, grid, before.players));
        crate::laws::collapse_keeps_consistent(before, ctx.authority, tiles@);
    }
    Ok(())
}

/// Creates the record of a new game, with the signer of `ctx` as its authority.
///
/// The game is refused exactly when `grid_size` is not between 1 and 10. A new game waits for
/// players on a grid of safe tiles, with an empty roster, an empty pool and no round played.
pub fn initialize_game(ctx: InitializeGame, game_id: [u8; 16], buy_in: u64, grid_size: u8) -> (res:
    Result<GameState, IgniteError>)
    ensures
        match create_rejection(grid_size) {
            Some(e) => res == Err::<GameState, IgniteError>(e),
            None => res is Ok && res->Ok_0.wf() && res->Ok_0@ == created(
                game_id@,
                ctx.authority,
                buy_in as nat,
                grid_size as nat,
                ctx.created_at as int,
            ),
        },
{
    if grid_size < 1 || grid_size > MAX_GRID_SIZE {
        return Err(IgniteError::InvalidConfig);
    }
    proof {
        assert(grid_size * grid_size <= 100) by (nonlinear_arith)
            requires
                0 <= grid_size <= 10,
        ;
    }
    let tiles: usize = (grid_size as usize) * (grid_size as usize);
    let mut grid: Vec<Tile> = Vec::new();
    while grid.len() < tiles
        invariant
            grid.len() <= tiles,
            forall|i: int| 0 <= i < grid.len() ==> grid[i] == Tile::Safe,
        decreases tiles - grid.len(),
    {
        grid.push(Tile::Safe);
    }
    let game = GameState {
        game_id,
        authority: ctx.authority,
        status: GameStatus::Waiting,
        grid_size,
        grid,
        players: Vec::new(),
        buy_in,
        prize_pool: 0,
        winner: None,
        created_at: ctx.created_at,
        collapse_round: 0,
    };
    proof {
        assert(game@.grid =~= Seq::new((grid_size * grid_size) as nat, |i: int| Tile::Safe));
        assert(game@.players =~= Seq::empty());
        crate::laws::create_is_consistent(
            game_id@,
            ctx.authority,
            buy_in as nat,
            grid_size,
            ctx.created_at as int,
        );
    }
    Ok(game)
}

impl GameState {
    /// Tells whether the record is consistent. A record that was put together from stored
    /// fields rather than by the commands has to pass this before a command may take it.
    pub fn is_well_formed(&self) -> (r: bool)
        ensures
            r == self.wf(),
    {
        if self.grid_size < 1 || self.grid_size > MAX_GRID_SIZE {
            return false;
        }
        proof {
            assert(self.grid_size * self.grid_size <= 100) by (nonlinear_arith)
                requires
                    0 <= self.grid_size <= 10,
            ;
        }
        if self.grid.len() != (self.grid_size as usize) * (self.grid_size as usize) {
            return false;
        }
        if self.players.len() > MAX_PLAYERS {
            return false;
        }
        let mut i: usize = 0;
        while i < self.players.len()
            invariant
                i <= self.players.len(),
                1 <= self.grid_size <= MAX_GRID_SIZE,
                self.grid.len() == self.grid_size * self.grid_size,
                forall|j: int| 0 <= j < i ==> self@.seated(#[trigger] self.players[j]),
            decreases self.players.len() - i,
        {
            let entry = self.players[i];
            if entry.x >= self.grid_size || entry.y >= self.grid_size {
                assert(!self@.seated(self.players[i as int]));
                return false;
            }
            let idx = tile_offset(self.grid_size, entry.x, entry.y);
            if entry.alive && self.grid[idx] != Tile::Safe {
                assert(!self@.seated(self.players[i as int]));
                return false;
            }
            i += 1;
        }
        match self.status {
            GameStatus::Resolved => self.prize_pool == 0 && self.winner.is_some(),
            _ => {
                proof {
                    assert(0 <= self.buy_in * self.players.len() <= u64::MAX * 10)
                        by (nonlinear_arith)
                        requires
                            0 <= self.buy_in <= u64::MAX,
                            0 <= self.players.len() <= 10,
                    ;
                }
                let owed: u128 = (self.buy_in as u128) * (self.players.len() as u128);
                self.winner.is_none() && self.prize_pool as u128 == owed
            },
        }
    }
}

} // verus!
