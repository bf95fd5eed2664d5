use vstd::prelude::*;

verus! {

/// Why a command was turned down. A rejected command leaves the record as it was.
#[derive(Clone, Copy, Debug, PartialEq, Eq, Structural)]
pub enum IgniteError {
    /// The grid size is not between 1 and 10.
    InvalidConfig,
    /// The game is no longer waiting for players.
    GameNotJoinable,
    /// The roster already holds ten players.
    GameFull,
    /// The coordinates lie outside the grid.
    OutOfBounds,
    /// The tile has collapsed.
    TileIsLava,
    /// A living player already stands on the tile.
    TileOccupied,
    /// The game is not active.
    GameNotActive,
    /// The player is not on the roster.
    PlayerNotInGame,
    /// The player has been eliminated.
    PlayerEliminated,
    /// The move is not exactly one tile in a cardinal direction.
    InvalidMove,
    /// The caller is not the game's authority.
    Unauthorized,
    /// The game has not come down to exactly one survivor.
    GameNotResolved,
    /// A counter or the prize pool would exceed its range.
    ArithmeticOverflow,
    /// Collecting the buy-in or paying out the pool failed.
    CollaboratorFailure,
}

} // verus!
