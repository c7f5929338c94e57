//! The two players, told apart by ply parity.

use vstd::prelude::*;

verus! {

/// One of the two players.  The first player moves at even ply counts.
#[derive(Debug, Clone, Copy, PartialEq, Eq, Structural)]
pub enum Player {
    Player1,
    Player2,
}

/// The player whose turn it is after `n` stones have been placed.
pub open spec fn spec_player_of(n: usize) -> Player {
    if n % 2 == 0 {
        Player::Player1
    } else {
        Player::Player2
    }
}

impl From<usize> for Player {
    /// The mover at ply `n`: even plies belong to the first player.
    fn from(n: usize) -> (p: Player) {
        match n % 2 {
            0 => Player::Player1,
            _ => Player::Player2,
        }
    }
}

impl vstd::std_specs::convert::FromSpecImpl<usize> for Player {
    open spec fn obeys_from_spec() -> bool {
        true
    }

    open spec fn from_spec(n: usize) -> Player {
        spec_player_of(n)
    }
}

impl From<u64> for Player {
    /// The mover at ply `n`, for a ply count held in a 64-bit value.
    fn from(n: u64) -> (p: Player) {
        if n % 2 == 0 {
            Player::Player1
        } else {
            Player::Player2
        }
    }
}

impl vstd::std_specs::convert::FromSpecImpl<u64> for Player {
    open spec fn obeys_from_spec() -> bool {
        true
    }

    open spec fn from_spec(n: u64) -> Player {
        spec_player_of((n % 2) as usize)
    }
}

} // verus!
