//! The failures a caller can be handed.

use vstd::prelude::*;

verus! {

/// Why a requested operation was refused.  Every failure is reported to
/// the direct caller; nothing in the library panics.
#[derive(Debug, Clone, Copy, PartialEq, Eq, Structural)]
pub enum Error {
    /// The column index is outside `0..=6`.
    InvalidColumn,
    /// The chosen column already holds six stones.
    ColumnFull,
    /// The game has concluded; no further move may be applied.
    GameConcluded,
    /// A move-sequence character is not a column digit `'1'..='7'`.
    MalformedMoveToken,
}

} // verus!
