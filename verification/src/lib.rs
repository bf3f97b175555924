//! Backend core of a two-process chess application: the board and move data
//! model, the legality engine, the turn-based game state machine, and the
//! command/response coordinator that serializes commands from an IPC listener
//! into the single authoritative game state.

use vstd::prelude::*;

pub mod board;
pub mod rules;
pub mod wire;
pub mod game;
pub mod parse;
pub mod protocol;
pub mod queue;
pub mod ai;

verus! {

} // verus!
