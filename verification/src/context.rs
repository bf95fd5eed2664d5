//! What the environment vouches for when a command arrives.
//!
//! The engine checks no signature, moves no money and reads no clock. Whoever
//! calls it has done so, and says in one of these values what came of it:
//! whose signature stands behind the command, whether the transfer that goes
//! with it went through, what time it is.

use crate::identity::Identity;
use vstd::prelude::*;

verus! {

/// Comes with the creation of a game: who signed for it and becomes its authority, and when.
#[derive(Clone, Copy, Debug, PartialEq, Eq)]
pub struct InitializeGame {
    pub authority: Identity,
    pub created_at: i64,
}

/// Comes with a join: whether the buy-in has reached custody.
#[derive(Clone, Copy, Debug, PartialEq, Eq)]
pub struct JoinGame {
    pub payment_collected: bool,
}

/// Comes with a move: the player who signed for it.
#[derive(Clone, Copy, Debug, PartialEq, Eq)]
pub struct SubmitMove {
    pub player: Identity,
}

/// Comes with a collapse: who signed for it as the authority.
#[derive(Clone, Copy, Debug, PartialEq, Eq)]
pub struct TriggerCollapse {
    pub authority: Identity,
}

/// Comes with a settlement: who signed for it as the authority, and whether the pool has
/// reached the survivor.
#[derive(Clone, Copy, Debug, PartialEq, Eq)]
pub struct DeclareWinner {
    pub authority: Identity,
    pub payout_confirmed: bool,
}

} // verus!
