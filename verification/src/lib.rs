//! An exact solver for the game of Connect Four on the standard 7x6 board.
//!
//! Positions are bitboards: each column occupies seven bits (six playable
//! rows plus an always-zero guard bit), so shift arithmetic detects lines
//! of four without wrapping across columns.  The solver searches with
//! alpha-beta negamax, memoised in a per-evaluation transposition table,
//! and pins the exact score by null-window probing.

mod board;
mod error;
mod game;
mod player;
mod score;
mod search;

pub use board::State;
pub use error::Error;
pub use game::Game;
pub use player::Player;

use vstd::prelude::*;

verus! {

} // verus!
