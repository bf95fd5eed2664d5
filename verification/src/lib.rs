//! Rules engine of a grid elimination game with a shared prize pool.
//!
//! Players buy in, stand on a square grid whose tiles collapse into hazards
//! round by round, and the last survivor collects the pool. The crate holds
//! the game record, the five commands that change it, and the proofs that the
//! commands keep the record consistent. Moving money, keeping time and storing
//! records are the caller's business: the commands take their outcomes as
//! plain values.

pub mod accounting;
pub mod context;
pub mod error;
pub mod identity;
pub mod state;
pub mod rules;
pub mod engine;
pub mod laws;

pub use crate::context::{DeclareWinner, InitializeGame, JoinGame, SubmitMove, TriggerCollapse};
pub use crate::engine::{
    declare_winner, initialize_game, join_due, join_game, settlement_due, submit_move,
    trigger_collapse,
};
pub use crate::error::IgniteError;
pub use crate::identity::Identity;
pub use crate::state::{
    GameState, GameStatus, Payout, PlayerState, Tile, MAX_GRID_SIZE, MAX_PLAYERS,
};
