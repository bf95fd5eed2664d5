//! What the rules guarantee, proved from their statement alone.
//!
//! The first part holds of every command: a record stays consistent, its
//! configuration never changes, its status only moves forward, hazards and
//! eliminations are permanent, and the pool is paid out at most once. The
//! second part holds of single commands.

use crate::error::IgniteError;
use crate::identity::Identity;
use crate::rules::{
    collapse_rejection, collapsed, collapsed_grid, create_rejection, created, enrolled,
    has_sole_survivor, is_seat_of, is_sole_survivor, join_rejection, joined, manhattan,
    move_rejection, moved, payout_of, rejection, seat_of, settle_rejection, settled,
    sole_survivor, step, struck, Command, ACTIVATION_THRESHOLD,
};
use crate::state::{
    in_bounds, lemma_tile_index_in_range, lemma_tile_index_injective, tile_index, GameStatus,
    GameView, PlayerState, Tile, MAX_PLAYERS,
};
use vstd::prelude::*;

verus! {

// ------------------------------------------------------------ roster lookups

/// Below any roster entry of `who` lies an earliest one.
proof fn lemma_earliest_entry(players: Seq<PlayerState>, who: Identity, i: int) -> (j: int)
    requires
        0 <= i < players.len(),
        players[i].pubkey == who,
    ensures
        is_seat_of(players, who, j),
    decreases i,
{
    if exists|k: int| 0 <= k < i && (#[trigger] players[k]).pubkey == who {
        let k = choose|k: int| 0 <= k < i && (#[trigger] players[k]).pubkey == who;
        lemma_earliest_entry(players, who, k)
    } else {
        i
    }
}

/// A party that is enrolled has an earliest roster entry, and `seat_of` names it.
pub proof fn lemma_enrolled_has_seat(players: Seq<PlayerState>, who: Identity)
    requires
        enrolled(players, who),
    ensures
        is_seat_of(players, who, seat_of(players, who)),
{
    let i = choose|i: int| 0 <= i < players.len() && (#[trigger] players[i]).pubkey == who;
    let j = lemma_earliest_entry(players, who, i);
}

/// A party has at most one earliest roster entry, and `seat_of` names it.
pub proof fn lemma_seat_is_unique(players: Seq<PlayerState>, who: Identity, i: int)
    requires
        is_seat_of(players, who, i),
    ensures
        enrolled(players, who),
        seat_of(players, who) == i,
{
    let j = seat_of(players, who);
    assert(is_seat_of(players, who, j));
    if j < i {
        assert(players[j].pubkey != who);
    } else if i < j {
        assert(players[i].pubkey != who);
    }
}

/// Where exactly one player is alive, `sole_survivor` is that player.
pub proof fn lemma_sole_survivor_is_unique(players: Seq<PlayerState>, i: int)
    requires
        is_sole_survivor(players, i),
    ensures
        has_sole_survivor(players),
        sole_survivor(players) == players[i],
{
    let j = choose|j: int| is_sole_survivor(players, j);
    assert(is_sole_survivor(players, j));
    assert(players[j].alive);
}

/// Collapsing one more listed tile turns that tile, if it lies on the grid, into a hazard and
/// leaves the rest as the shorter list left it.
pub proof fn lemma_collapse_one_more(size: nat, grid: Seq<Tile>, tiles: Seq<(u8, u8)>, k: int)
    requires
        0 <= k < tiles.len(),
    ensures
        collapsed_grid(size, grid, tiles.take(k + 1)) == if in_bounds(size, tiles[k].0, tiles[k].1)
            && tile_index(size, tiles[k].0, tiles[k].1) < grid.len() {
            collapsed_grid(size, grid, tiles.take(k)).update(
                tile_index(size, tiles[k].0, tiles[k].1),
                Tile::Hazard,
            )
        } else {
            collapsed_grid(size, grid, tiles.take(k))
        },
{
    let shorter = tiles.take(k);
    let longer = tiles.take(k + 1);
    let on_grid = in_bounds(size, tiles[k].0, tiles[k].1);
    let place = tile_index(size, tiles[k].0, tiles[k].1);
    assert forall|i: int| struck(size, longer, i) <==> struck(size, shorter, i) || (on_grid
        && place == i) by {
        if struck(size, longer, i) {
            let w = choose|w: int|
                0 <= w < longer.len() && in_bounds(size, (#[trigger] longer[w]).0, longer[w].1)
                    && tile_index(size, longer[w].0, longer[w].1) == i;
            if w < k {
                assert(shorter[w] == longer[w]);
            }
        }
        if struck(size, shorter, i) {
            let w = choose|w: int|
                0 <= w < shorter.len() && in_bounds(size, (#[trigger] shorter[w]).0, shorter[w].1)
                    && tile_index(size, shorter[w].0, shorter[w].1) == i;
            assert(longer[w] == shorter[w]);
        }
        if on_grid && place == i {
            assert(longer[k] == tiles[k]);
        }
    }
    if on_grid && place < grid.len() {
        lemma_tile_index_in_range(size, tiles[k].0, tiles[k].1);
        assert(collapsed_grid(size, grid, longer) =~= collapsed_grid(size, grid, shorter).update(
            place,
            Tile::Hazard,
        ));
    } else {
        if on_grid {
            lemma_tile_index_in_range(size, tiles[k].0, tiles[k].1);
        }
        assert(collapsed_grid(size, grid, longer) =~= collapsed_grid(size, grid, shorter));
    }
}

// ------------------------------------------------------------ consistency

/// A game created with a grid size between 1 and 10 starts out consistent.
pub proof fn create_is_consistent(
    game_id: Seq<u8>,
    authority: Identity,
    buy_in: nat,
    grid_size: u8,
    created_at: int,
)
    requires
        create_rejection(grid_size) is None,
    ensures
        created(game_id, authority, buy_in, grid_size as nat, created_at).consistent(),
{
    assert(buy_in * 0 == 0) by (nonlinear_arith);
}

/// An accepted join leaves the record consistent.
pub proof fn join_keeps_consistent(
    g: GameView,
    player: Identity,
    x: u8,
    y: u8,
    payment_collected: bool,
)
    requires
        g.consistent(),
        join_rejection(g, x, y, payment_collected) is None,
    ensures
        joined(g, player, x, y).consistent(),
{
    let h = joined(g, player, x, y);
    assert(g.buy_in * g.players.len() + g.buy_in == g.buy_in * (g.players.len() + 1))
        by (nonlinear_arith);
    assert forall|i: int| 0 <= i < h.players.len() implies h.seated(#[trigger] h.players[i]) by {
        if i < g.players.len() {
            assert(h.players[i] == g.players[i]);
            assert(g.seated(g.players[i]));
        }
    }
}

/// An accepted move leaves the record consistent.
pub proof fn move_keeps_consistent(g: GameView, who: Identity, x: u8, y: u8)
    requires
        g.consistent(),
        move_rejection(g, who, x, y) is None,
    ensures
        moved(g, who, x, y).consistent(),
{
    let h = moved(g, who, x, y);
    let seat = seat_of(g.players, who);
    lemma_enrolled_has_seat(g.players, who);
    assert forall|i: int| 0 <= i < h.players.len() implies h.seated(#[trigger] h.players[i]) by {
        if i != seat {
            assert(h.players[i] == g.players[i]);
            assert(g.seated(g.players[i]));
        }
    }
}

/// An accepted collapse leaves the record consistent.
pub proof fn collapse_keeps_consistent(g: GameView, caller: Identity, tiles: Seq<(u8, u8)>)
    requires
        g.consistent(),
        collapse_rejection(g, caller) is None,
    ensures
        collapsed(g, tiles).consistent(),
{
    let h = collapsed(g, tiles);
    assert forall|i: int| 0 <= i < h.players.len() implies h.seated(#[trigger] h.players[i]) by {
        assert(g.seated(g.players[i]));
        lemma_tile_index_in_range(g.grid_size, g.players[i].x, g.players[i].y);
    }
}

/// An accepted settlement leaves the record consistent.
pub proof fn settle_keeps_consistent(g: GameView, caller: Identity, payout_confirmed: bool)
    requires
        g.consistent(),
        settle_rejection(g, caller, payout_confirmed) is None,
    ensures
        settled(g).consistent(),
{
    let h = settled(g);
    assert forall|i: int| 0 <= i < h.players.len() implies h.seated(#[trigger] h.players[i]) by {
        assert(g.seated(g.players[i]));
    }
}

// ------------------------------------------------------------ every command

/// Whatever the command and whether or not it is accepted, a consistent record stays
/// consistent: the roster holds at most ten players, everyone stands on the grid, nobody alive
/// stands on a hazard, the pool holds one buy-in per player until settlement and nothing
/// afterwards, there is a winner exactly when the game is resolved, and the pool and the round
/// count stay within the range of their counters.
pub proof fn step_keeps_consistent(g: GameView, c: Command)
    requires
        g.consistent(),
    ensures
        step(g, c).consistent(),
{
    if rejection(g, c) is None {
        match c {
            Command::Join { player, x, y, payment_collected } => {
                join_keeps_consistent(g, player, x, y, payment_collected);
            },
            Command::Move { player, x, y } => {
                move_keeps_consistent(g, player, x, y);
            },
            Command::Collapse { caller, tiles } => {
                collapse_keeps_consistent(g, caller, tiles);
            },
            Command::Settle { caller, payout_confirmed } => {
                settle_keeps_consistent(g, caller, payout_confirmed);
            },
        }
    }
}

/// A command that is turned down leaves the record exactly as it was.
pub proof fn rejected_command_changes_nothing(g: GameView, c: Command)
    requires
        rejection(g, c) is Some,
    ensures
        step(g, c) == g,
{
}

/// No command changes what was fixed at creation: the game's id, its authority, the grid size
/// and the number of tiles, the buy-in and the time of creation.
pub proof fn configuration_is_fixed(g: GameView, c: Command)
    ensures
        step(g, c).game_id == g.game_id,
        step(g, c).authority == g.authority,
        step(g, c).grid_size == g.grid_size,
        step(g, c).grid.len() == g.grid.len(),
        step(g, c).buy_in == g.buy_in,
        step(g, c).created_at == g.created_at,
{
}

/// The status only moves forward, one stage at a time: a waiting game stays waiting or becomes
/// active, an active game stays active or becomes resolved, a resolved game stays resolved.
pub proof fn status_only_advances(g: GameView, c: Command)
    ensures
        match g.status {
            GameStatus::Waiting => step(g, c).status == GameStatus::Waiting || step(g, c).status
                == GameStatus::Active,
            GameStatus::Active => step(g, c).status == GameStatus::Active || step(g, c).status
                == GameStatus::Resolved,
            GameStatus::Resolved => step(g, c).status == GameStatus::Resolved,
        },
{
}

/// A resolved game is final: every command against it is turned down.
pub proof fn resolved_game_is_final(g: GameView, c: Command)
    requires
        g.status == GameStatus::Resolved,
    ensures
        rejection(g, c) is Some,
        step(g, c) == g,
{
}

/// A tile that has collapsed stays a hazard under every command.
pub proof fn hazards_are_permanent(g: GameView, c: Command, i: int)
    requires
        0 <= i < g.grid.len(),
        g.grid[i] == Tile::Hazard,
    ensures
        step(g, c).grid[i] == Tile::Hazard,
{
}

/// Under every command the roster keeps its entries in their places and under their names,
/// and nobody who was eliminated comes back.
pub proof fn eliminations_are_permanent(g: GameView, c: Command, i: int)
    requires
        0 <= i < g.players.len(),
    ensures
        step(g, c).players.len() >= g.players.len(),
        step(g, c).players[i].pubkey == g.players[i].pubkey,
        step(g, c).players[i].alive ==> g.players[i].alive,
{
    if rejection(g, c) is None {
        match c {
            Command::Move { player, x, y } => {
                lemma_enrolled_has_seat(g.players, player);
            },
            _ => {},
        }
    }
}

/// The pool never shrinks, except that an accepted settlement empties it. The count of
/// collapse rounds never goes down.
pub proof fn pool_and_rounds_only_grow(g: GameView, c: Command)
    ensures
        c is Settle && rejection(g, c) is None ==> step(g, c).prize_pool == 0,
        !(c is Settle && rejection(g, c) is None) ==> step(g, c).prize_pool >= g.prize_pool,
        step(g, c).collapse_round >= g.collapse_round,
{
}

/// No two living players stand on the same tile.
pub open spec fn tiles_exclusive(players: Seq<PlayerState>) -> bool {
    forall|i: int, j: int|
        #![trigger players[i], players[j]]
        0 <= i < j < players.len() && players[i].alive && players[j].alive ==> !(players[i].x
            == players[j].x && players[i].y == players[j].y)
}

/// No two roster entries carry the same identity.
pub open spec fn identities_distinct(players: Seq<PlayerState>) -> bool {
    forall|i: int, j: int|
        #![trigger players[i], players[j]]
        0 <= i < j < players.len() ==> players[i].pubkey != players[j].pubkey
}

/// Only a move can bring two living players onto one tile: joins, collapses and settlements
/// keep living players apart if they were apart before.
pub proof fn only_moves_bring_players_together(g: GameView, c: Command)
    requires
        tiles_exclusive(g.players),
        !(c is Move),
    ensures
        tiles_exclusive(step(g, c).players),
{
    let h = step(g, c);
    if rejection(g, c) is None {
        match c {
            Command::Join { player, x, y, payment_collected } => {
                assert forall|i: int, j: int|
                    #![trigger h.players[i], h.players[j]]
                    0 <= i < j < h.players.len() && h.players[i].alive
                        && h.players[j].alive implies !(h.players[i].x == h.players[j].x
                    && h.players[i].y == h.players[j].y) by {
                    assert(h.players[i] == g.players[i]);
                    if j < g.players.len() {
                        assert(h.players[j] == g.players[j]);
                    } else {
                        assert(!g.occupied(x, y));
                    }
                }
            },
            Command::Collapse { caller, tiles } => {
                assert forall|i: int, j: int|
                    #![trigger h.players[i], h.players[j]]
                    0 <= i < j < h.players.len() && h.players[i].alive
                        && h.players[j].alive implies !(h.players[i].x == h.players[j].x
                    && h.players[i].y == h.players[j].y) by {
                    assert(g.players[i].alive && g.players[j].alive);
                }
            },
            _ => {},
        }
    }
}

/// Only the join of a party that is enrolled already can put an identity on the roster
/// twice: every other command keeps the identities distinct if they were distinct before.
pub proof fn only_repeated_joins_repeat_identities(g: GameView, c: Command)
    requires
        identities_distinct(g.players),
        c matches Command::Join { player, .. } ==> !enrolled(g.players, player),
    ensures
        identities_distinct(step(g, c).players),
{
    let h = step(g, c);
    if rejection(g, c) is None {
        match c {
            Command::Join { player, x, y, payment_collected } => {
                assert forall|i: int, j: int|
                    #![trigger h.players[i], h.players[j]]
                    0 <= i < j < h.players.len() implies h.players[i].pubkey
                    != h.players[j].pubkey by {
                    assert(h.players[i] == g.players[i]);
                    if j < g.players.len() {
                        assert(h.players[j] == g.players[j]);
                    }
                }
            },
            Command::Move { player, x, y } => {
                lemma_enrolled_has_seat(g.players, player);
                assert forall|i: int, j: int|
                    #![trigger h.players[i], h.players[j]]
                    0 <= i < j < h.players.len() implies h.players[i].pubkey
                    != h.players[j].pubkey by {
                    assert(h.players[i].pubkey == g.players[i].pubkey);
                    assert(h.players[j].pubkey == g.players[j].pubkey);
                }
            },
            Command::Collapse { caller, tiles } => {
                assert forall|i: int, j: int|
                    #![trigger h.players[i], h.players[j]]
                    0 <= i < j < h.players.len() implies h.players[i].pubkey
                    != h.players[j].pubkey by {
                    assert(h.players[i].pubkey == g.players[i].pubkey);
                    assert(h.players[j].pubkey == g.players[j].pubkey);
                }
            },
            Command::Settle { caller, payout_confirmed } => {},
        }
    }
}

// ------------------------------------------------------------ stored codes

/// Storing a tile or a status as its byte and reading the byte back gives the same tile or
/// status, and no two of them share a byte.
pub proof fn codes_round_trip(tile: Tile, status: GameStatus, code: u8)
    ensures
        Tile::of_code(tile.code_of()) == Some(tile),
        GameStatus::of_code(status.code_of()) == Some(status),
        Tile::of_code(code) is Some ==> Tile::of_code(code)->Some_0.code_of() == code,
        GameStatus::of_code(code) is Some ==> GameStatus::of_code(code)->Some_0.code_of() == code,
{
}

// ------------------------------------------------------------ create

/// A new game has one safe tile for every cell of its grid, nobody on the roster and nothing
/// in the pool, and waits for players.
pub proof fn new_game_is_blank(
    game_id: Seq<u8>,
    authority: Identity,
    buy_in: nat,
    grid_size: nat,
    created_at: int,
)
    ensures
        ({
            let g = created(game_id, authority, buy_in, grid_size, created_at);
            &&& g.status == GameStatus::Waiting
            &&& g.grid.len() == grid_size * grid_size
            &&& forall|i: int| 0 <= i < g.grid.len() ==> g.grid[i] == Tile::Safe
            &&& g.players.len() == 0
            &&& g.prize_pool == 0
            &&& g.winner is None
            &&& g.collapse_round == 0
        }),
{
}

// ------------------------------------------------------------ join

/// An accepted join puts the newcomer, alive, at the end of the roster and one more buy-in
/// into the pool, which then holds exactly one buy-in for every player on the roster.
pub proof fn join_collects_one_buy_in(
    g: GameView,
    player: Identity,
    x: u8,
    y: u8,
    payment_collected: bool,
)
    requires
        g.consistent(),
        join_rejection(g, x, y, payment_collected) is None,
    ensures
        ({
            let h = joined(g, player, x, y);
            &&& h.players.len() == g.players.len() + 1
            &&& h.players.last() == (PlayerState { pubkey: player, x, y, alive: true })
            &&& h.prize_pool == g.prize_pool + g.buy_in
            &&& h.prize_pool == g.buy_in * h.players.len()
            &&& h.prize_pool <= u64::MAX
            &&& h.grid == g.grid
        }),
{
    join_keeps_consistent(g, player, x, y, payment_collected);
}

/// The join that brings the roster to two players makes the game active in that same step; a
/// join that leaves it below two leaves the game waiting.
pub proof fn join_activates_at_two(
    g: GameView,
    player: Identity,
    x: u8,
    y: u8,
    payment_collected: bool,
)
    requires
        join_rejection(g, x, y, payment_collected) is None,
    ensures
        ({
            let h = joined(g, player, x, y);
            if h.players.len() >= ACTIVATION_THRESHOLD {
                h.status == GameStatus::Active
            } else {
                h.status == GameStatus::Waiting
            }
        }),
{
}

/// Once someone has joined at a tile, nobody else can join there: a later join at the same
/// tile is turned down, and as long as the game is waiting with room on the roster the reason
/// is that the tile is occupied.
pub proof fn joined_tile_is_taken(
    g: GameView,
    first: Identity,
    second: Identity,
    x: u8,
    y: u8,
    first_paid: bool,
    second_paid: bool,
)
    requires
        join_rejection(g, x, y, first_paid) is None,
    ensures
        ({
            let h = joined(g, first, x, y);
            &&& join_rejection(h, x, y, second_paid) is Some
            &&& h.status == GameStatus::Waiting && h.players.len() < MAX_PLAYERS
                ==> join_rejection(h, x, y, second_paid) == Some(IgniteError::TileOccupied)
        }),
{
    let h = joined(g, first, x, y);
    let last = h.players.len() - 1;
    assert(h.players[last].alive && h.players[last].x == x && h.players[last].y == y);
    assert(h.occupied(x, y));
}

// ------------------------------------------------------------ move

/// An accepted move takes a living player exactly one tile along a row or a column, onto a
/// safe tile of the grid.
pub proof fn move_is_one_cardinal_step(g: GameView, who: Identity, x: u8, y: u8)
    requires
        move_rejection(g, who, x, y) is None,
    ensures
        ({
            let p = g.players[seat_of(g.players, who)];
            &&& p.pubkey == who
            &&& p.alive
            &&& manhattan(p.x, p.y, x, y) == 1
            &&& (x == p.x && (y == p.y + 1 || y + 1 == p.y)) || (y == p.y && (x == p.x + 1 || x
                + 1 == p.x))
            &&& in_bounds(g.grid_size, x, y)
            &&& g.tile_at(x, y) == Tile::Safe
        }),
{
    lemma_enrolled_has_seat(g.players, who);
}

/// A move that would cover no tile, more than one tile, or a diagonal is turned down as
/// invalid, provided the game is active and the player is on the roster and alive.
pub proof fn other_moves_are_invalid(g: GameView, who: Identity, x: u8, y: u8)
    requires
        g.status == GameStatus::Active,
        enrolled(g.players, who),
        g.players[seat_of(g.players, who)].alive,
        manhattan(g.players[seat_of(g.players, who)].x, g.players[seat_of(g.players, who)].y, x, y)
            != 1,
    ensures
        move_rejection(g, who, x, y) == Some(IgniteError::InvalidMove),
{
}

/// An accepted move changes the position of the mover's earliest roster entry and nothing
/// else; in particular it may end on a tile where another player stands.
pub proof fn move_changes_one_position(g: GameView, who: Identity, x: u8, y: u8, i: int)
    requires
        move_rejection(g, who, x, y) is None,
        0 <= i < g.players.len(),
    ensures
        ({
            let h = moved(g, who, x, y);
            &&& h == (GameView { players: h.players, ..g })
            &&& h.players.len() == g.players.len()
            &&& i != seat_of(g.players, who) ==> h.players[i] == g.players[i]
            &&& i == seat_of(g.players, who) ==> h.players[i] == (PlayerState {
                x,
                y,
                ..g.players[i]
            })
        }),
{
    lemma_enrolled_has_seat(g.players, who);
}

// ------------------------------------------------------------ collapse

/// After a collapse every listed tile that lies on the grid is a hazard, and every player
/// standing on a hazard is out, in that same step.
pub proof fn collapse_strikes_and_eliminates(g: GameView, tiles: Seq<(u8, u8)>, k: int, i: int)
    requires
        g.consistent(),
        0 <= k < tiles.len(),
        in_bounds(g.grid_size, tiles[k].0, tiles[k].1),
        0 <= i < g.players.len(),
    ensures
        ({
            let h = collapsed(g, tiles);
            &&& h.tile_at(tiles[k].0, tiles[k].1) == Tile::Hazard
            &&& g.players[i].x == tiles[k].0 && g.players[i].y == tiles[k].1
                ==> !h.players[i].alive
            &&& h.tile_at(h.players[i].x, h.players[i].y) == Tile::Hazard ==> !h.players[i].alive
        }),
{
    lemma_tile_index_in_range(g.grid_size, tiles[k].0, tiles[k].1);
    assert(struck(g.grid_size, tiles, tile_index(g.grid_size, tiles[k].0, tiles[k].1)));
}

/// A collapse touches nothing but the listed tiles and the players on hazards: a tile that is
/// not listed keeps its state, and a player on a safe tile keeps theirs.
pub proof fn collapse_spares_the_rest(g: GameView, tiles: Seq<(u8, u8)>, j: int, i: int)
    requires
        g.consistent(),
        0 <= j < g.grid.len(),
        0 <= i < g.players.len(),
    ensures
        ({
            let h = collapsed(g, tiles);
            &&& !struck(g.grid_size, tiles, j) ==> h.grid[j] == g.grid[j]
            &&& h.players.len() == g.players.len()
            &&& h.tile_at(g.players[i].x, g.players[i].y) == Tile::Safe ==> h.players[i]
                == g.players[i]
            &&& h.collapse_round == g.collapse_round + 1
        }),
{
}

/// A tile of the grid that the list does not name is left as it was.
pub proof fn collapse_strikes_listed_tiles_only(g: GameView, tiles: Seq<(u8, u8)>, x: u8, y: u8)
    requires
        g.consistent(),
        in_bounds(g.grid_size, x, y),
        !tiles.contains((x, y)),
    ensures
        collapsed(g, tiles).tile_at(x, y) == g.tile_at(x, y),
{
    let place = tile_index(g.grid_size, x, y);
    lemma_tile_index_in_range(g.grid_size, x, y);
    if struck(g.grid_size, tiles, place) {
        let k = choose|k: int|
            0 <= k < tiles.len() && in_bounds(g.grid_size, (#[trigger] tiles[k]).0, tiles[k].1)
                && tile_index(g.grid_size, tiles[k].0, tiles[k].1) == place;
        lemma_tile_index_injective(g.grid_size, tiles[k].0, tiles[k].1, x, y);
        assert(tiles[k] == (x, y));
        assert(tiles.contains((x, y)));
    }
}

/// Collapsing the same tiles a second time changes neither the grid nor the roster.
pub proof fn collapse_is_idempotent(g: GameView, tiles: Seq<(u8, u8)>)
    ensures
        collapsed(collapsed(g, tiles), tiles).grid == collapsed(g, tiles).grid,
        collapsed(collapsed(g, tiles), tiles).players == collapsed(g, tiles).players,
{
    let once = collapsed(g, tiles);
    let twice = collapsed(once, tiles);
    assert(twice.grid =~= once.grid);
    assert(twice.players =~= once.players);
}

/// In a consistent record, collapsing tiles that are hazards already changes neither the grid
/// nor the roster.
pub proof fn collapse_of_hazards_changes_no_tile(g: GameView, tiles: Seq<(u8, u8)>)
    requires
        g.consistent(),
        forall|k: int|
            0 <= k < tiles.len() && in_bounds(g.grid_size, (#[trigger] tiles[k]).0, tiles[k].1)
                ==> g.tile_at(tiles[k].0, tiles[k].1) == Tile::Hazard,
    ensures
        collapsed(g, tiles).grid == g.grid,
        collapsed(g, tiles).players == g.players,
{
    let h = collapsed(g, tiles);
    assert(h.grid =~= g.grid);
    assert forall|i: int| 0 <= i < g.players.len() implies h.players[i] == g.players[i] by {
        assert(g.seated(g.players[i]));
    }
    assert(h.players =~= g.players);
}

// ------------------------------------------------------------ settle

/// An accepted settlement pays the whole pool, which is one buy-in for every player who ever
/// joined, to the one player still alive, names that player the winner, ends the game and
/// empties the pool.
pub proof fn settlement_pays_the_pool(g: GameView, caller: Identity, payout_confirmed: bool)
    requires
        g.consistent(),
        settle_rejection(g, caller, payout_confirmed) is None,
    ensures
        caller == g.authority,
        payout_of(g).amount == g.prize_pool,
        payout_of(g).amount == g.buy_in * g.players.len(),
        exists|i: int|
            is_sole_survivor(g.players, i) && (#[trigger] g.players[i]).pubkey == payout_of(
                g,
            ).recipient,
        settled(g).winner == Some(payout_of(g).recipient),
        settled(g).status == GameStatus::Resolved,
        settled(g).prize_pool == 0,
        settled(g).grid == g.grid,
        settled(g).players == g.players,
{
    let i = choose|i: int| is_sole_survivor(g.players, i);
    assert(is_sole_survivor(g.players, i));
}

/// A settled game cannot be settled again, so the pool is paid out at most once: whoever asks
/// is turned down, the authority because the game is no longer active.
pub proof fn settlement_happens_once(
    g: GameView,
    caller: Identity,
    payout_confirmed: bool,
    again: Identity,
    again_confirmed: bool,
)
    requires
        settle_rejection(g, caller, payout_confirmed) is None,
    ensures
        settle_rejection(settled(g), again, again_confirmed) is Some,
        again == g.authority ==> settle_rejection(settled(g), again, again_confirmed) == Some(
            IgniteError::GameNotActive,
        ),
        step(settled(g), (Command::Settle { caller: again, payout_confirmed: again_confirmed }))
            == settled(g),
{
}

/// An active game in which nobody is alive, or in which two players are, cannot be settled:
/// the authority is told that the game is not resolved, and the record, its pool and status
/// included, stays as it was.
pub proof fn settlement_needs_one_survivor(
    g: GameView,
    payout_confirmed: bool,
    a: int,
    b: int,
)
    requires
        g.status == GameStatus::Active,
        (forall|i: int| 0 <= i < g.players.len() ==> !(#[trigger] g.players[i]).alive) || (0 <= a
            < b < g.players.len() && g.players[a].alive && g.players[b].alive),
    ensures
        settle_rejection(g, g.authority, payout_confirmed) == Some(IgniteError::GameNotResolved),
        step(g, (Command::Settle { caller: g.authority, payout_confirmed })) == g,
{
    assert forall|s: int| !is_sole_survivor(g.players, s) by {
        if is_sole_survivor(g.players, s) {
            assert(g.players[s].alive);
            if 0 <= a < b < g.players.len() && g.players[a].alive && g.players[b].alive {
                assert(a == s);
                assert(b == s);
            }
        }
    }
}

} // verus!
