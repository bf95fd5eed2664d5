use crate::identity::Identity;
use vstd::prelude::*;

verus! {

/// Largest side length of a grid.
pub const MAX_GRID_SIZE: u8 = 10;

/// Largest number of players on a roster.
pub const MAX_PLAYERS: usize = 10;

/// One cell of the grid. A tile starts safe and may collapse into a hazard; it never recovers.
#[derive(Clone, Copy, Debug, PartialEq, Eq, Structural)]
pub enum Tile {
    Safe,
    Hazard,
}

/// Where a game stands in its life: waiting for players, being played, or settled.
#[derive(Clone, Copy, Debug, PartialEq, Eq, Structural)]
pub enum GameStatus {
    Waiting,
    Active,
    Resolved,
}

impl Tile {
    /// The byte under which a tile is stored: 0 for safe, 1 for hazard.
    pub open spec fn code_of(self) -> u8 {
        match self {
            Tile::Safe => 0,
            Tile::Hazard => 1,
        }
    }

    /// The tile that a stored byte stands for, if it stands for one.
    pub open spec fn of_code(code: u8) -> Option<Tile> {
        if code == 0 {
            Some(Tile::Safe)
        } else if code == 1 {
            Some(Tile::Hazard)
        } else {
            None
        }
    }

    /// Gives the byte under which the tile is stored.
    pub fn code(self) -> (r: u8)
        ensures
            r == self.code_of(),
    {
        match self {
            Tile::Safe => 0,
            Tile::Hazard => 1,
        }
    }

    /// Reads a tile from its stored byte. Bytes other than 0 and 1 stand for no tile.
    pub fn from_code(code: u8) -> (r: Option<Tile>)
        ensures
            r == Tile::of_code(code),
    {
        if code == 0 {
            Some(Tile::Safe)
        } else if code == 1 {
            Some(Tile::Hazard)
        } else {
            None
        }
    }
}

impl GameStatus {
    /// The byte under which a status is stored: 0 for waiting, 1 for active, 2 for resolved.
    pub open spec fn code_of(self) -> u8 {
        match self {
            GameStatus::Waiting => 0,
            GameStatus::Active => 1,
            GameStatus::Resolved => 2,
        }
    }

    /// The status that a stored byte stands for, if it stands for one.
    pub open spec fn of_code(code: u8) -> Option<GameStatus> {
        if code == 0 {
            Some(GameStatus::Waiting)
        } else if code == 1 {
            Some(GameStatus::Active)
        } else if code == 2 {
            Some(GameStatus::Resolved)
        } else {
            None
        }
    }

    /// Gives the byte under which the status is stored.
    pub fn code(self) -> (r: u8)
        ensures
            r == self.code_of(),
    {
        match self {
            GameStatus::Waiting => 0,
            GameStatus::Active => 1,
            GameStatus::Resolved => 2,
        }
    }

    /// Reads a status from its stored byte. Bytes above 2 stand for no status.
    pub fn from_code(code: u8) -> (r: Option<GameStatus>)
        ensures
            r == GameStatus::of_code(code),
    {
        if code == 0 {
            Some(GameStatus::Waiting)
        } else if code == 1 {
            Some(GameStatus::Active)
        } else if code == 2 {
            Some(GameStatus::Resolved)
        } else {
            None
        }
    }
}

/// One roster entry: who the player is, where they stand, and whether they are still in the game.
#[derive(Clone, Copy, Debug, PartialEq, Eq)]
pub struct PlayerState {
    pub pubkey: Identity,
    pub x: u8,
    pub y: u8,
    pub alive: bool,
}

/// An amount leaving custody and the party that receives it.
#[derive(Clone, Copy, Debug, PartialEq, Eq)]
pub struct Payout {
    pub recipient: Identity,
    pub amount: u64,
}

/// The record of one game.
#[derive(Clone, Debug, PartialEq, Eq)]
pub struct GameState {
    pub game_id: [u8; 16],
    pub authority: Identity,
    pub status: GameStatus,
    pub grid_size: u8,
    /// Row by row: the tile at `(x, y)` is entry `y * grid_size + x`.
    pub grid: Vec<Tile>,
    /// In the order in which the players joined.
    pub players: Vec<PlayerState>,
    pub buy_in: u64,
    pub prize_pool: u64,
    pub winner: Option<Identity>,
    pub created_at: i64,
    pub collapse_round: u8,
}

/// The mathematical value of a game record, on which the rules are stated.
pub ghost struct GameView {
    pub game_id: Seq<u8>,
    pub authority: Identity,
    pub status: GameStatus,
    pub grid_size: nat,
    pub grid: Seq<Tile>,
    pub players: Seq<PlayerState>,
    pub buy_in: nat,
    pub prize_pool: nat,
    pub winner: Option<Identity>,
    pub created_at: int,
    pub collapse_round: nat,
}

/// Both coordinates lie on a grid of side `size`.
pub open spec fn in_bounds(size: nat, x: u8, y: u8) -> bool {
    x < size && y < size
}

/// The place of tile `(x, y)` in a row-major grid of side `size`.
pub open spec fn tile_index(size: nat, x: u8, y: u8) -> int {
    y * size + x
}

/// A tile on the grid has its place within the `size * size` entries.
pub proof fn lemma_tile_index_in_range(size: nat, x: u8, y: u8)
    requires
        in_bounds(size, x, y),
    ensures
        0 <= tile_index(size, x, y) < size * size,
{
    assert(y * size + size <= size * size) by (nonlinear_arith)
        requires
            0 <= y < size,
    ;
    assert(0 <= y * size) by (nonlinear_arith)
        requires
            0 <= y,
            0 <= size,
    ;
}

/// Two tiles on the grid share a place only if they are the same tile.
pub proof fn lemma_tile_index_injective(size: nat, x1: u8, y1: u8, x2: u8, y2: u8)
    requires
        in_bounds(size, x1, y1),
        in_bounds(size, x2, y2),
        tile_index(size, x1, y1) == tile_index(size, x2, y2),
    ensures
        x1 == x2,
        y1 == y2,
{
    if y1 < y2 {
        assert(y1 * size + size <= y2 * size) by (nonlinear_arith)
            requires
                0 <= y1 < y2,
                0 <= size,
        ;
    } else if y2 < y1 {
        assert(y2 * size + size <= y1 * size) by (nonlinear_arith)
            requires
                0 <= y2 < y1,
                0 <= size,
        ;
    }
}

impl GameView {
    /// The tile at `(x, y)`.
    pub open spec fn tile_at(self, x: u8, y: u8) -> Tile {
        self.grid[tile_index(self.grid_size, x, y)]
    }

    /// Some living player stands at `(x, y)`.
    pub open spec fn occupied(self, x: u8, y: u8) -> bool {
        exists|i: int|
            0 <= i < self.players.len() && (#[trigger] self.players[i]).alive && self.players[i].x
                == x && self.players[i].y == y
    }

    /// The player stands on the grid, and on a safe tile while alive.
    pub open spec fn seated(self, p: PlayerState) -> bool {
        &&& in_bounds(self.grid_size, p.x, p.y)
        &&& p.alive ==> self.tile_at(p.x, p.y) == Tile::Safe
    }

    /// What holds of every record, from creation on and after every command.
    pub open spec fn consistent(self) -> bool {
        &&& 1 <= self.grid_size <= MAX_GRID_SIZE
        &&& self.grid.len() == self.grid_size * self.grid_size
        &&& self.players.len() <= MAX_PLAYERS
        &&& forall|i: int| 0 <= i < self.players.len() ==> self.seated(#[trigger] self.players[i])
        &&& self.status != GameStatus::Resolved ==> self.prize_pool == self.buy_in
            * self.players.len()
        &&& self.status == GameStatus::Resolved ==> self.prize_pool == 0
        &&& self.winner is Some <==> self.status == GameStatus::Resolved
        &&& self.prize_pool <= u64::MAX
        &&& self.collapse_round <= u8::MAX
    }
}

impl View for GameState {
    type V = GameView;

    open spec fn view(&self) -> GameView {
        GameView {
            game_id: self.game_id@,
            authority: self.authority,
            status: self.status,
            grid_size: self.grid_size as nat,
            grid: self.grid@,
            players: self.players@,
            buy_in: self.buy_in as nat,
            prize_pool: self.prize_pool as nat,
            winner: self.winner,
            created_at: self.created_at as int,
            collapse_round: self.collapse_round as nat,
        }
    }
}

impl GameState {
    /// The record is consistent: its value satisfies [`GameView::consistent`].
    pub open spec fn wf(&self) -> bool {
        self@.consistent()
    }
}

} // verus!
