//! The bitboard model of a 7x6 position.
//!
//! A board is a pair of 64-bit masks.  Each column owns seven consecutive
//! bits: six playable cells from bottom to top and one guard bit that is
//! never set while a position is well formed.  `mask` holds every occupied
//! cell; `grid` holds the stones of the player who placed the most recent
//! stone.  The spec functions here define column extraction, legality,
//! the successor masks of a move, line detection, terminal status and the
//! packed transposition key; the lemmas establish the bit-level facts the
//! verified game logic rests on.

use vstd::prelude::*;

verus! {

/// Every playable cell set: six cells in each of the seven columns.
pub const FULL_BOARD: u64 = 279258638311359;

/// One set bit per column, at that column's lowest cell.  Adding it to a
/// well-formed occupancy mask carries each column's contiguous run of
/// stones into a single marker bit just above the run.
pub const GUARD_FILL: u64 = 4432676798593;

/// The status of a position.
#[derive(Debug, Clone, Copy, PartialEq, Eq, Structural)]
pub enum State {
    /// Moves can still be played.
    NonTerminal,
    /// The stone placed last completed a line of four; its owner has won.
    Win,
    /// All 42 cells are filled and no line of four exists.
    Draw,
}

/// The seven bits of column `c` (six cells and the guard bit).
pub open spec fn colbits(m: u64, c: u64) -> u64 {
    (m >> ((7 * c) as u64)) & 127
}

/// A column's bits form a contiguous run from the bottom, guard bit clear.
pub open spec fn col_ok(x: u64) -> bool {
    x == 0 || x == 1 || x == 3 || x == 7 || x == 15 || x == 31 || x == 63
}

/// How many stones a contiguous column holds.
pub open spec fn col_height(x: u64) -> int {
    if x == 0 {
        0
    } else if x == 1 {
        1
    } else if x == 3 {
        2
    } else if x == 7 {
        3
    } else if x == 15 {
        4
    } else if x == 31 {
        5
    } else if x == 63 {
        6
    } else {
        7
    }
}

/// A well-formed occupancy mask: nothing beyond the 49 board bits, and
/// every column a contiguous run from the bottom.
pub open spec fn mask_ok(m: u64) -> bool {
    &&& m >> 49 == 0
    &&& col_ok(colbits(m, 0))
    &&& col_ok(colbits(m, 1))
    &&& col_ok(colbits(m, 2))
    &&& col_ok(colbits(m, 3))
    &&& col_ok(colbits(m, 4))
    &&& col_ok(colbits(m, 5))
    &&& col_ok(colbits(m, 6))
}

/// The number of stones on the board.
pub open spec fn stones(m: u64) -> int {
    col_height(colbits(m, 0)) + col_height(colbits(m, 1)) + col_height(colbits(m, 2)) + col_height(
        colbits(m, 3),
    ) + col_height(colbits(m, 4)) + col_height(colbits(m, 5)) + col_height(colbits(m, 6))
}

/// The last mover's stones lie within the occupied cells.
pub open spec fn grid_ok(g: u64, m: u64) -> bool {
    g & !m == 0
}

/// A well-formed board: occupancy shape plus stone containment.
pub open spec fn board_ok(g: u64, m: u64) -> bool {
    mask_ok(m) && grid_ok(g, m)
}

/// Column `c` still has room: its topmost playable cell is empty.
pub open spec fn col_open(m: u64, c: u64) -> bool {
    m & ((1u64 << ((7 * c) as u64)) << 5) == 0
}

/// The occupancy mask after dropping a stone into column `c`: the add
/// carries through the column's run and settles on the lowest open cell.
pub open spec fn next_mask(m: u64, c: u64) -> u64 {
    (m + (1u64 << ((7 * c) as u64))) as u64 | m
}

/// The mover's stones after the move, by the perspective flip: the old
/// stone set exclusive-or the new occupancy is the complement within it,
/// which is the stones of the player who just moved.
pub open spec fn next_grid(g: u64, m: u64, c: u64) -> u64 {
    g ^ next_mask(m, c)
}

/// A stone set contains four in a row along shift distance `d`
/// (1 vertical, 7 horizontal, 6 and 8 the diagonals).
pub open spec fn win_dir(s: u64, d: u64) -> bool {
    ((((s << d) & s) << ((2 * d) as u64)) & ((s << d) & s)) != 0
}

/// A stone set contains four in a row in some direction.
pub open spec fn has_line(s: u64) -> bool {
    win_dir(s, 1) || win_dir(s, 6) || win_dir(s, 7) || win_dir(s, 8)
}

/// The status a board determines: a line for the last mover wins, a full
/// board without one draws, anything else is still in play.
pub open spec fn spec_state(g: u64, m: u64) -> State {
    if has_line(g) {
        State::Win
    } else if m & FULL_BOARD == FULL_BOARD {
        State::Draw
    } else {
        State::NonTerminal
    }
}

/// The packed transposition key: the carry of `GUARD_FILL` turns the
/// occupancy into per-column marker bits disjoint from any stone bit.
pub open spec fn key_of(g: u64, m: u64) -> u64 {
    g | (m + GUARD_FILL) as u64
}

/// The empty board is well formed: no stones, no line, not full.
pub proof fn lemma_empty_board()
    by (bit_vector)
    ensures
        colbits(0, 0) == 0,
        colbits(0, 1) == 0,
        colbits(0, 2) == 0,
        colbits(0, 3) == 0,
        colbits(0, 4) == 0,
        colbits(0, 5) == 0,
        colbits(0, 6) == 0,
        mask_ok(0),
        grid_ok(0, 0),
        !has_line(0u64),
        0u64 & FULL_BOARD != FULL_BOARD,
{
}

/// The test the move routine makes on the top cell of a column is the
/// negation of the column being open.
pub proof fn lemma_no_go(m: u64, c: u64)
    by (bit_vector)
    requires
        c < 7,
    ensures
        (m & ((1u64 << ((7 * c) as u64)) << 5) == ((1u64 << ((7 * c) as u64)) << 5)) <==> !col_open(
            m,
            c,
        ),
{
}

/// Dropping a stone into an open column of a well-formed board: the add
/// stays within the column, the column's run grows by one, every other
/// column is untouched, and the stones stay within the occupancy.
pub proof fn lemma_play_bits(g: u64, m: u64, c: u64)
    by (bit_vector)
    requires
        mask_ok(m),
        c < 7,
        col_open(m, c),
        grid_ok(g, m),
    ensures
        colbits(m, c) <= 31,
        m + (1u64 << ((7 * c) as u64)) < 0x4000000000000,
        mask_ok(next_mask(m, c)),
        colbits(next_mask(m, c), c) == 2 * colbits(m, c) + 1,
        forall|d: u64| d < 7 && d != c ==> colbits(next_mask(m, c), d) == colbits(m, d),
        grid_ok(next_grid(g, m, c), next_mask(m, c)),
{
}

/// A well-formed mask is full exactly when every column's run is full.
pub proof fn lemma_full_iff(m: u64)
    by (bit_vector)
    requires
        mask_ok(m),
    ensures
        (m & FULL_BOARD == FULL_BOARD) <==> (colbits(m, 0) == 63 && colbits(m, 1) == 63 && colbits(
            m,
            2,
        ) == 63 && colbits(m, 3) == 63 && colbits(m, 4) == 63 && colbits(m, 5) == 63 && colbits(
            m,
            6,
        ) == 63),
{
}

/// On a well-formed mask a column is open exactly when its run is not full.
pub proof fn lemma_open_iff(m: u64)
    by (bit_vector)
    requires
        mask_ok(m),
    ensures
        forall|c: u64| c < 7 ==> (col_open(m, c) <==> colbits(m, c) != 63),
{
}

/// The occupancy mask fits under the guard-fill add without overflow.
pub proof fn lemma_key_fits(m: u64)
    by (bit_vector)
    requires
        mask_ok(m),
    ensures
        m + GUARD_FILL < 0x4000000000000,
{
}

/// The packed key is injective on well-formed boards: the carried guard
/// markers recover each column's height, and with it the occupancy and
/// the stone set.
pub proof fn lemma_key_inj(g1: u64, m1: u64, g2: u64, m2: u64)
    by (bit_vector)
    requires
        board_ok(g1, m1),
        board_ok(g2, m2),
        key_of(g1, m1) == key_of(g2, m2),
    ensures
        g1 == g2,
        m1 == m2,
{
}

} // verus!
