//! The money of a game over its whole life.
//!
//! A game takes one buy-in into custody with every accepted join and lets the
//! pool go with an accepted settlement. Over any sequence of commands, accepted
//! or not, what is in custody is what the pool says, the pool is paid out at
//! most once, and never more is paid out than was collected.

use crate::laws::step_keeps_consistent;
use crate::rules::{rejection, step, Command};
use crate::state::{GameStatus, GameView};
use vstd::prelude::*;

verus! {

/// The record after a sequence of commands, each applied to what the one before left.
pub open spec fn run(g: GameView, commands: Seq<Command>) -> GameView
    decreases commands.len(),
{
    if commands.len() == 0 {
        g
    } else {
        step(run(g, commands.drop_last()), commands.last())
    }
}

/// What one command takes into custody: the buy-in if it is an accepted join, else nothing.
pub open spec fn collected_by(g: GameView, c: Command) -> nat {
    if c is Join && rejection(g, c) is None {
        g.buy_in
    } else {
        0
    }
}

/// What one command pays out of custody: the pool if it is an accepted settlement, else
/// nothing.
pub open spec fn paid_by(g: GameView, c: Command) -> nat {
    if c is Settle && rejection(g, c) is None {
        g.prize_pool
    } else {
        0
    }
}

/// Everything taken into custody over a sequence of commands.
pub open spec fn total_collected(g: GameView, commands: Seq<Command>) -> nat
    decreases commands.len(),
{
    if commands.len() == 0 {
        0
    } else {
        total_collected(g, commands.drop_last()) + collected_by(
            run(g, commands.drop_last()),
            commands.last(),
        )
    }
}

/// Everything paid out of custody over a sequence of commands.
pub open spec fn total_paid(g: GameView, commands: Seq<Command>) -> nat
    decreases commands.len(),
{
    if commands.len() == 0 {
        0
    } else {
        total_paid(g, commands.drop_last()) + paid_by(
            run(g, commands.drop_last()),
            commands.last(),
        )
    }
}

/// The number of settlements accepted over a sequence of commands.
pub open spec fn settlements(g: GameView, commands: Seq<Command>) -> nat
    decreases commands.len(),
{
    if commands.len() == 0 {
        0
    } else {
        settlements(g, commands.drop_last()) + if commands.last() is Settle && rejection(
            run(g, commands.drop_last()),
            commands.last(),
        ) is None {
            1nat
        } else {
            0nat
        }
    }
}

/// A consistent record stays consistent over any sequence of commands.
pub proof fn run_keeps_consistent(g: GameView, commands: Seq<Command>)
    requires
        g.consistent(),
    ensures
        run(g, commands).consistent(),
    decreases commands.len(),
{
    if commands.len() > 0 {
        run_keeps_consistent(g, commands.drop_last());
        step_keeps_consistent(run(g, commands.drop_last()), commands.last());
    }
}

/// Money is neither made nor lost: what the pool held at the start plus everything collected
/// since equals everything paid out plus what the pool holds now.
pub proof fn custody_is_conserved(g: GameView, commands: Seq<Command>)
    ensures
        g.prize_pool + total_collected(g, commands) == total_paid(g, commands) + run(
            g,
            commands,
        ).prize_pool,
    decreases commands.len(),
{
    if commands.len() > 0 {
        custody_is_conserved(g, commands.drop_last());
    }
}

/// A game that starts with an empty pool never pays out more than it has collected.
pub proof fn never_pays_more_than_collected(g: GameView, commands: Seq<Command>)
    requires
        g.prize_pool == 0,
    ensures
        total_paid(g, commands) <= total_collected(g, commands),
{
    custody_is_conserved(g, commands);
}

/// The pool is paid out at most once: over any sequence of commands exactly one settlement is
/// accepted if the game went from unresolved to resolved, and none otherwise. A game that is
/// resolved stays resolved.
pub proof fn pool_is_paid_at_most_once(g: GameView, commands: Seq<Command>)
    ensures
        settlements(g, commands) <= 1,
        settlements(g, commands) == 1 <==> g.status != GameStatus::Resolved && run(
            g,
            commands,
        ).status == GameStatus::Resolved,
        g.status == GameStatus::Resolved ==> run(g, commands).status == GameStatus::Resolved,
    decreases commands.len(),
{
    if commands.len() > 0 {
        pool_is_paid_at_most_once(g, commands.drop_last());
    }
}

/// With its one settlement a game that started with an empty pool pays out exactly what it
/// collected up to then, which is one buy-in for every player on the roster.
pub proof fn settlement_pays_what_was_collected(g: GameView, commands: Seq<Command>, c: Command)
    requires
        g.consistent(),
        g.prize_pool == 0,
        c is Settle,
        rejection(run(g, commands), c) is None,
    ensures
        total_paid(g, commands) == 0,
        paid_by(run(g, commands), c) == total_collected(g, commands),
        paid_by(run(g, commands), c) == g.buy_in * run(g, commands).players.len(),
{
    custody_is_conserved(g, commands);
    pool_is_paid_at_most_once(g, commands);
    run_keeps_consistent(g, commands);
    lemma_no_settlement_no_payment(g, commands);
    assert(run(g, commands).buy_in == g.buy_in) by {
        lemma_run_keeps_buy_in(g, commands);
    }
}

/// Where no settlement was accepted, nothing was paid.
proof fn lemma_no_settlement_no_payment(g: GameView, commands: Seq<Command>)
    requires
        settlements(g, commands) == 0,
    ensures
        total_paid(g, commands) == 0,
    decreases commands.len(),
{
    if commands.len() > 0 {
        lemma_no_settlement_no_payment(g, commands.drop_last());
    }
}

/// The buy-in is the same after any sequence of commands.
proof fn lemma_run_keeps_buy_in(g: GameView, commands: Seq<Command>)
    ensures
        run(g, commands).buy_in == g.buy_in,
    decreases commands.len(),
{
    if commands.len() > 0 {
        lemma_run_keeps_buy_in(g, commands.drop_last());
    }
}

} // verus!
