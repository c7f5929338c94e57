//! The immutable position value and single-move application.

use crate::board::{
    col_height, col_open, colbits, board_ok, has_line, lemma_empty_board, lemma_full_iff,
    lemma_no_go, lemma_open_iff, lemma_play_bits, mask_ok, next_grid, next_mask, spec_state,
    stones, win_dir, State, FULL_BOARD,
};
use crate::error::Error;
use crate::player::{spec_player_of, Player};
use vstd::prelude::*;
use vstd::string::StrSliceExecFns;

verus! {

/// A position of the game.
///
/// `mask` holds every occupied cell, `grid` the stones of the player who
/// placed the most recent stone (the complement of the mover's stones
/// within `mask`), `moves` the ply count and `state` the terminal status.
/// A position is never mutated: `play` returns a fresh one.
#[derive(Debug, Clone, Copy, PartialEq, Eq, Structural)]
pub struct Game {
    pub moves: usize,
    pub grid: u64,
    pub mask: u64,
    pub state: State,
}

/// The position before any stone is placed.
pub open spec fn empty_game() -> Game {
    Game { moves: 0, grid: 0, mask: 0, state: State::NonTerminal }
}

/// The column a move-sequence character denotes: the digits `'1'..='7'`
/// name the columns left to right, zero-indexed.
pub open spec fn token_col(ch: char) -> Option<usize> {
    if 49 <= ch as u32 <= 55 {
        Some((ch as u32 - 49) as usize)
    } else {
        None
    }
}

/// The outcome of replaying the first `n` characters of a move sequence
/// from the empty board: the position reached, or the first failure.
pub open spec fn replay(s: Seq<char>, n: int) -> Result<Game, Error>
    decreases n,
{
    if n <= 0 {
        Ok(empty_game())
    } else {
        match replay(s, n - 1) {
            Err(e) => Err(e),
            Ok(g) => match token_col(s[n - 1]) {
                None => Err(Error::MalformedMoveToken),
                Some(c) => g.spec_play_result(c),
            },
        }
    }
}

/// Once a replay has failed, replaying further characters returns the
/// same failure.
pub proof fn lemma_replay_stops(s: Seq<char>, k: int, n: int)
    requires
        0 <= k <= n,
        replay(s, k) is Err,
    ensures
        replay(s, n) == replay(s, k),
    decreases n - k,
{
    if n > k {
        lemma_replay_stops(s, k, n - 1);
    }
}

/// The empty position is well formed.
pub proof fn lemma_empty_wf()
    ensures
        empty_game().wf(),
{
    lemma_empty_board();
}

impl Game {
    /// A well-formed position: the board masks have the reachable shape,
    /// the ply count equals the stone count, and the status field is the
    /// one the board determines.
    pub open spec fn wf(self) -> bool {
        &&& board_ok(self.grid, self.mask)
        &&& self.moves == stones(self.mask)
        &&& self.state == spec_state(self.grid, self.mask)
    }

    /// Column `c` may receive a stone (ignoring terminal status).
    pub open spec fn legal(self, c: u64) -> bool {
        c < 7 && col_open(self.mask, c)
    }

    /// The successor position of dropping a stone into column `c`.
    pub open spec fn spec_play(self, c: u64) -> Game {
        Game {
            moves: (self.moves + 1) as usize,
            grid: next_grid(self.grid, self.mask, c),
            mask: next_mask(self.mask, c),
            state: spec_state(next_grid(self.grid, self.mask, c), next_mask(self.mask, c)),
        }
    }

    /// What `play` returns, including each refusal and when it occurs.
    pub open spec fn spec_play_result(self, column: usize) -> Result<Game, Error> {
        if self.state != State::NonTerminal {
            Err(Error::GameConcluded)
        } else if column > 6 {
            Err(Error::InvalidColumn)
        } else if !col_open(self.mask, column as u64) {
            Err(Error::ColumnFull)
        } else {
            Ok(self.spec_play(column as u64))
        }
    }

    /// The empty position.
    pub fn empty() -> (g: Game)
        ensures
            g == empty_game(),
            g.wf(),
    {
        proof {
            lemma_empty_wf();
        }
        Game { moves: 0, grid: 0, mask: 0, state: State::NonTerminal }
    }

    /// Builds the position a sequence of column digits reaches from the
    /// empty board, applying each move in order.  A character outside
    /// `'1'..='7'` stops the replay with `MalformedMoveToken`; a move the
    /// position refuses stops it with that move's own failure.
    pub fn new(position: &str) -> (r: Result<Game, Error>)
        ensures
            r == replay(position@, position@.len() as int),
            r is Ok ==> r->Ok_0.wf(),
    {
        let mut game = Game::empty();
        let n = position.unicode_len();
        let mut i: usize = 0;
        while i < n
            invariant
                i <= n,
                n == position@.len(),
                replay(position@, i as int) == Ok::<Game, Error>(game),
                game.wf(),
            decreases n - i,
        {
            let ch = position.get_char(i);
            let v = ch as u32;
            if v < 49 || v > 55 {
                proof {
                    lemma_replay_stops(position@, i + 1, n as int);
                }
                return Err(Error::MalformedMoveToken);
            }
            let column = (v - 49) as usize;
            match game.play(column) {
                Ok(next) => { game = next },
                Err(e) => {
                    proof {
                        lemma_replay_stops(position@, i + 1, n as int);
                    }
                    return Err(e);
                },
            }
            i += 1;
        }
        Ok(game)
    }

    /// Drops a stone into `column` and returns the successor position, or
    /// the refusal that applies: a concluded game first, then a column
    /// index out of range, then a full column.
    pub fn play(&self, column: usize) -> (r: Result<Game, Error>)
        requires
            self.wf(),
        ensures
            r == self.spec_play_result(column),
            r is Ok <==> self.state == State::NonTerminal && self.legal(column as u64),
            r is Ok ==> r->Ok_0 == self.spec_play(column as u64) && r->Ok_0.wf()
                && r->Ok_0.moves == self.moves + 1,
    {
        match self.state {
            State::Win | State::Draw => { return Err(Error::GameConcluded) },
            _ => {},
        }
        if column > 6 {
            return Err(Error::InvalidColumn);
        }
        let x: u64 = 1u64 << (7 * column as u64);
        let no_go: u64 = x << 5;
        proof {
            lemma_no_go(self.mask, column as u64);
        }
        if self.mask & no_go == no_go {
            return Err(Error::ColumnFull);
        }
        proof {
            lemma_play_wf(*self, column as u64);
            assert(x == 1u64 << ((7 * (column as u64)) as u64));
        }
        let moves = self.moves + 1;
        let mask = self.mask + x | self.mask;
        let grid = self.grid ^ mask;
        let state = Self::get_state(grid, mask);
        Ok(Game { moves, grid, mask, state })
    }

    /// Tests one shift direction for a completed line of four.
    fn dir_hit(s: u64, d: u64) -> (r: bool)
        requires
            d <= 8,
        ensures
            r == win_dir(s, d),
    {
        let intersected = s << d & s;
        intersected << 2 * d & intersected != 0
    }

    /// The status a board determines: a line of four for the stone set
    /// `grid` is a win, a full board without one a draw, and anything
    /// else still in play.  A win and a draw can never hold at once.
    pub fn get_state(grid: u64, mask: u64) -> (s: State)
        ensures
            s == spec_state(grid, mask),
            s == State::Win <==> has_line(grid),
            s == State::Draw <==> !has_line(grid) && mask & FULL_BOARD == FULL_BOARD,
    {
        if Self::dir_hit(grid, 1) || Self::dir_hit(grid, 6) || Self::dir_hit(grid, 7)
            || Self::dir_hit(grid, 8) {
            return State::Win;
        }
        if mask & FULL_BOARD == FULL_BOARD {
            State::Draw
        } else {
            State::NonTerminal
        }
    }

    /// The player whose turn it is, by ply parity.
    pub fn to_play(&self) -> (p: Player)
        ensures
            p == spec_player_of(self.moves),
    {
        (self.moves).into()
    }
}

/// A legal move on a well-formed, running position yields a well-formed
/// position with one more stone.
pub proof fn lemma_play_wf(g: Game, c: u64)
    requires
        g.wf(),
        g.state == State::NonTerminal,
        g.legal(c),
    ensures
        g.spec_play(c).wf(),
        g.spec_play(c).moves == g.moves + 1,
        g.mask + (1u64 << ((7 * c) as u64)) < 0x4000000000000,
{
    lemma_play_bits(g.grid, g.mask, c);
    let m1 = g.mask;
    let m2 = next_mask(m1, c);
    let x = colbits(m1, c);
    let y = colbits(m2, c);
    assert(col_height(y) == col_height(x) + 1);
    assert(colbits(m2, 0) == if c == 0 { y } else { colbits(m1, 0) });
    assert(colbits(m2, 1) == if c == 1 { y } else { colbits(m1, 1) });
    assert(colbits(m2, 2) == if c == 2 { y } else { colbits(m1, 2) });
    assert(colbits(m2, 3) == if c == 3 { y } else { colbits(m1, 3) });
    assert(colbits(m2, 4) == if c == 4 { y } else { colbits(m1, 4) });
    assert(colbits(m2, 5) == if c == 5 { y } else { colbits(m1, 5) });
    assert(colbits(m2, 6) == if c == 6 { y } else { colbits(m1, 6) });
    assert(stones(m2) == stones(m1) + 1);
    assert(stones(m1) <= 41) by {
        lemma_stone_count(m1);
    }
}

/// The stone count of a well-formed mask lies in `0..=42`, reaches 42
/// exactly on the full board, and below 42 some column is open.
pub proof fn lemma_stone_count(m: u64)
    requires
        mask_ok(m),
    ensures
        0 <= stones(m) <= 42,
        stones(m) == 42 <==> m & FULL_BOARD == FULL_BOARD,
        stones(m) < 42 ==> exists|c: u64| c < 7 && col_open(m, c),
{
    lemma_full_iff(m);
    lemma_open_iff(m);
    if stones(m) < 42 {
        if colbits(m, 0) != 63 {
            assert(col_open(m, 0));
        } else if colbits(m, 1) != 63 {
            assert(col_open(m, 1));
        } else if colbits(m, 2) != 63 {
            assert(col_open(m, 2));
        } else if colbits(m, 3) != 63 {
            assert(col_open(m, 3));
        } else if colbits(m, 4) != 63 {
            assert(col_open(m, 4));
        } else if colbits(m, 5) != 63 {
            assert(col_open(m, 5));
        } else {
            assert(colbits(m, 6) != 63);
            assert(col_open(m, 6));
        }
    }
}

} // verus!
