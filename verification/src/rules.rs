//! The rules of the game, stated on the mathematical value of a record.
//!
//! Each command has a rejection function, which names the first check that
//! fails (the checks run in a fixed order), and an effect function, which
//! gives the record after a command that passed them all.

use crate::error::IgniteError;
use crate::identity::Identity;
use crate::state::{
    in_bounds, tile_index, GameStatus, GameView, Payout, PlayerState, Tile, MAX_GRID_SIZE,
    MAX_PLAYERS,
};
use vstd::prelude::*;

verus! {

/// Number of players at which a waiting game becomes active.
pub const ACTIVATION_THRESHOLD: usize = 2;

// ---------------------------------------------------------------- create

/// A new game is refused exactly when its grid size is out of range.
pub open spec fn create_rejection(grid_size: u8) -> Option<IgniteError> {
    if 1 <= grid_size <= MAX_GRID_SIZE {
        None
    } else {
        Some(IgniteError::InvalidConfig)
    }
}

/// The record of a game that has just been created.
pub open spec fn created(
    game_id: Seq<u8>,
    authority: Identity,
    buy_in: nat,
    grid_size: nat,
    created_at: int,
) -> GameView {
    GameView {
        game_id,
        authority,
        status: GameStatus::Waiting,
        grid_size,
        grid: Seq::new(grid_size * grid_size, |i: int| Tile::Safe),
        players: Seq::empty(),
        buy_in,
        prize_pool: 0,
        winner: None,
        created_at,
        collapse_round: 0,
    }
}

// ---------------------------------------------------------------- join

/// The first reason, if any, for which nobody may enter the game at `(x, y)`.
pub open spec fn entry_rejection(g: GameView, x: u8, y: u8) -> Option<IgniteError> {
    if g.status != GameStatus::Waiting {
        Some(IgniteError::GameNotJoinable)
    } else if g.players.len() >= MAX_PLAYERS {
        Some(IgniteError::GameFull)
    } else if !in_bounds(g.grid_size, x, y) {
        Some(IgniteError::OutOfBounds)
    } else if g.tile_at(x, y) != Tile::Safe {
        Some(IgniteError::TileIsLava)
    } else if g.occupied(x, y) {
        Some(IgniteError::TileOccupied)
    } else {
        None
    }
}

/// The first reason, if any, for which a join at `(x, y)` is turned down: the entry is
/// refused, or the buy-in was not collected, or the pool cannot hold one more buy-in.
pub open spec fn join_rejection(g: GameView, x: u8, y: u8, payment_collected: bool) -> Option<
    IgniteError,
> {
    if entry_rejection(g, x, y) is Some {
        entry_rejection(g, x, y)
    } else if !payment_collected {
        Some(IgniteError::CollaboratorFailure)
    } else if g.prize_pool + g.buy_in > u64::MAX {
        Some(IgniteError::ArithmeticOverflow)
    } else {
        None
    }
}

/// The record after `player` has joined at `(x, y)`: one more living player at the end of the
/// roster, one more buy-in in the pool, and the game active once the roster holds two.
pub open spec fn joined(g: GameView, player: Identity, x: u8, y: u8) -> GameView {
    GameView {
        players: g.players.push(PlayerState { pubkey: player, x, y, alive: true }),
        prize_pool: g.prize_pool + g.buy_in,
        status: if g.players.len() + 1 >= ACTIVATION_THRESHOLD {
            GameStatus::Active
        } else {
            g.status
        },
        ..g
    }
}

// ---------------------------------------------------------------- move

/// `who` has an entry on the roster.
pub open spec fn enrolled(players: Seq<PlayerState>, who: Identity) -> bool {
    exists|i: int| 0 <= i < players.len() && (#[trigger] players[i]).pubkey == who
}

/// Entry `i` is the earliest entry of `who` on the roster.
pub open spec fn is_seat_of(players: Seq<PlayerState>, who: Identity, i: int) -> bool {
    &&& 0 <= i < players.len()
    &&& players[i].pubkey == who
    &&& forall|j: int| 0 <= j < i ==> (#[trigger] players[j]).pubkey != who
}

/// The place of the earliest entry of `who` on the roster, for a party that is enrolled.
pub open spec fn seat_of(players: Seq<PlayerState>, who: Identity) -> int {
    choose|i: int| is_seat_of(players, who, i)
}

/// The number of cardinal steps between two tiles.
pub open spec fn manhattan(x1: u8, y1: u8, x2: u8, y2: u8) -> int {
    (if x1 <= x2 {
        x2 - x1
    } else {
        x1 - x2
    }) + (if y1 <= y2 {
        y2 - y1
    } else {
        y1 - y2
    })
}

/// The first reason, if any, for which a move of `who` to `(x, y)` is turned down.
pub open spec fn move_rejection(g: GameView, who: Identity, x: u8, y: u8) -> Option<IgniteError> {
    if g.status != GameStatus::Active {
        Some(IgniteError::GameNotActive)
    } else if !enrolled(g.players, who) {
        Some(IgniteError::PlayerNotInGame)
    } else {
        let p = g.players[seat_of(g.players, who)];
        if !p.alive {
            Some(IgniteError::PlayerEliminated)
        } else if manhattan(p.x, p.y, x, y) != 1 {
            Some(IgniteError::InvalidMove)
        } else if !in_bounds(g.grid_size, x, y) {
            Some(IgniteError::OutOfBounds)
        } else if g.tile_at(x, y) != Tile::Safe {
            Some(IgniteError::TileIsLava)
        } else {
            None
        }
    }
}

/// The record after `who` has moved to `(x, y)`: only that player's position differs.
pub open spec fn moved(g: GameView, who: Identity, x: u8, y: u8) -> GameView {
    let seat = seat_of(g.players, who);
    GameView { players: g.players.update(seat, PlayerState { x, y, ..g.players[seat] }), ..g }
}

// ---------------------------------------------------------------- collapse

/// The list names a tile of the grid whose place is `i`.
pub open spec fn struck(size: nat, tiles: Seq<(u8, u8)>, i: int) -> bool {
    exists|k: int|
        0 <= k < tiles.len() && in_bounds(size, (#[trigger] tiles[k]).0, tiles[k].1) && tile_index(
            size,
            tiles[k].0,
            tiles[k].1,
        ) == i
}

/// The grid after the listed tiles have collapsed. Entries off the grid count for nothing.
pub open spec fn collapsed_grid(size: nat, grid: Seq<Tile>, tiles: Seq<(u8, u8)>) -> Seq<Tile> {
    Seq::new(
        grid.len(),
        |i: int|
            if struck(size, tiles, i) {
                Tile::Hazard
            } else {
                grid[i]
            },
    )
}

/// The roster after everyone standing on a hazard has been eliminated.
pub open spec fn survivors(size: nat, grid: Seq<Tile>, players: Seq<PlayerState>) -> Seq<
    PlayerState,
> {
    Seq::new(
        players.len(),
        |i: int|
            PlayerState {
                alive: players[i].alive && grid[tile_index(size, players[i].x, players[i].y)]
                    == Tile::Safe,
                ..players[i]
            },
    )
}

/// The first reason, if any, for which a collapse ordered by `caller` is turned down.
pub open spec fn collapse_rejection(g: GameView, caller: Identity) -> Option<IgniteError> {
    if caller != g.authority {
        Some(IgniteError::Unauthorized)
    } else if g.status != GameStatus::Active {
        Some(IgniteError::GameNotActive)
    } else if g.collapse_round + 1 > u8::MAX {
        Some(IgniteError::ArithmeticOverflow)
    } else {
        None
    }
}

/// The record after the listed tiles have collapsed: the tiles are hazards, whoever stood on a
/// hazard is out, and one more round is counted.
pub open spec fn collapsed(g: GameView, tiles: Seq<(u8, u8)>) -> GameView {
    let grid = collapsed_grid(g.grid_size, g.grid, tiles);
    GameView {
        grid,
        players: survivors(g.grid_size, grid, g.players),
        collapse_round: g.collapse_round + 1,
        ..g
    }
}

// ---------------------------------------------------------------- settle

/// Entry `i` is alive and no other entry is.
pub open spec fn is_sole_survivor(players: Seq<PlayerState>, i: int) -> bool {
    &&& 0 <= i < players.len()
    &&& players[i].alive
    &&& forall|j: int| 0 <= j < players.len() && (#[trigger] players[j]).alive ==> j == i
}

/// Exactly one player is alive.
pub open spec fn has_sole_survivor(players: Seq<PlayerState>) -> bool {
    exists|i: int| is_sole_survivor(players, i)
}

/// The one living player, where there is exactly one.
pub open spec fn sole_survivor(players: Seq<PlayerState>) -> PlayerState {
    players[choose|i: int| is_sole_survivor(players, i)]
}

/// The first reason, if any, for which a settlement ordered by `caller` is turned down.
pub open spec fn settle_rejection(g: GameView, caller: Identity, payout_confirmed: bool) -> Option<
    IgniteError,
> {
    if caller != g.authority {
        Some(IgniteError::Unauthorized)
    } else if g.status != GameStatus::Active {
        Some(IgniteError::GameNotActive)
    } else if !has_sole_survivor(g.players) {
        Some(IgniteError::GameNotResolved)
    } else if !payout_confirmed {
        Some(IgniteError::CollaboratorFailure)
    } else {
        None
    }
}

/// What a settlement pays: the whole pool, to the one survivor.
pub open spec fn payout_of(g: GameView) -> Payout {
    Payout { recipient: sole_survivor(g.players).pubkey, amount: g.prize_pool as u64 }
}

/// The record after settlement: the survivor is the winner, the game is over, the pool is empty.
pub open spec fn settled(g: GameView) -> GameView {
    GameView {
        winner: Some(sole_survivor(g.players).pubkey),
        status: GameStatus::Resolved,
        prize_pool: 0,
        ..g
    }
}

// ---------------------------------------------------------------- commands

/// A command against a game record, with the outcome of the money transfer that goes with it.
pub ghost enum Command {
    Join { player: Identity, x: u8, y: u8, payment_collected: bool },
    Move { player: Identity, x: u8, y: u8 },
    Collapse { caller: Identity, tiles: Seq<(u8, u8)> },
    Settle { caller: Identity, payout_confirmed: bool },
}

/// The reason, if any, for which a command is turned down.
pub open spec fn rejection(g: GameView, c: Command) -> Option<IgniteError> {
    match c {
        Command::Join { player, x, y, payment_collected } => join_rejection(
            g,
            x,
            y,
            payment_collected,
        ),
        Command::Move { player, x, y } => move_rejection(g, player, x, y),
        Command::Collapse { caller, tiles } => collapse_rejection(g, caller),
        Command::Settle { caller, payout_confirmed } => settle_rejection(
            g,
            caller,
            payout_confirmed,
        ),
    }
}

/// The record after a command: changed as the command says if it was accepted, untouched if it
/// was turned down.
pub open spec fn step(g: GameView, c: Command) -> GameView {
    if rejection(g, c) is Some {
        g
    } else {
        match c {
            Command::Join { player, x, y, payment_collected } => joined(g, player, x, y),
            Command::Move { player, x, y } => moved(g, player, x, y),
            Command::Collapse { caller, tiles } => collapsed(g, tiles),
            Command::Settle { caller, payout_confirmed } => settled(g),
        }
    }
}

} // verus!
