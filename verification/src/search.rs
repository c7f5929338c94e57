//! The search engine and the exact-score driver.
//!
//! `negamax` explores the game tree under an alpha-beta window with a
//! fixed centre-first move order, memoising upper bounds in a
//! transposition table keyed by the packed position key.  Its contract is
//! the classic fail-soft guarantee: a result at or below `alpha` is an
//! upper bound on the true score, a result at or above `beta` a lower
//! bound, and a result inside the window is the true score exactly.
//! `eval` owns one table for its whole run and narrows a bracket around
//! the true score with null-window probes until it is pinned exactly.

use crate::board::{board_ok, key_of, lemma_key_fits, lemma_key_inj, spec_state, stones, State,
    GUARD_FILL};
use crate::game::{lemma_stone_count, Game};
use crate::score::{lemma_draw_child, lemma_no_quick_win, lemma_score_bounds,
    lemma_score_children, lemma_win_child, score_of};
use std::collections::HashMap;
use vstd::prelude::*;

verus! {

broadcast use vstd::std_specs::hash::group_hash_axioms;

/// The position a stored table entry speaks about, rebuilt from its board
/// masks: the ply count and status of a well-formed board are functions
/// of the masks.
pub open spec fn keyed_game(g: u64, m: u64) -> Game {
    Game { moves: stones(m) as usize, grid: g, mask: m, state: spec_state(g, m) }
}

/// Every table entry is the offset-encoded upper bound of some
/// well-formed position with that key.
pub open spec fn tt_inv(t: Map<u64, i8>) -> bool {
    forall|k: u64, v: i8|
        #[trigger] t.contains_pair(k, v) ==> {
            &&& -3 <= v <= 40
            &&& exists|gg: u64, mm: u64|
                {
                    &&& board_ok(gg, mm)
                    &&& key_of(gg, mm) == k
                    &&& score_of(#[trigger] keyed_game(gg, mm)) <= v - 19
                }
        }
}

/// The fixed centre-first order the engine tries columns in.
pub open spec fn move_order(i: int) -> u64 {
    if i == 0 {
        3
    } else if i == 1 {
        2
    } else if i == 2 {
        4
    } else if i == 3 {
        5
    } else if i == 4 {
        1
    } else if i == 5 {
        0
    } else {
        6
    }
}

/// Every column is tried once: the move order covers `0..7`.
proof fn lemma_order_covers(c: u64)
    requires
        c < 7,
    ensures
        exists|i: int| 0 <= i < 7 && #[trigger] move_order(i) == c,
{
    if c == 0 {
        assert(move_order(5) == 0);
    } else if c == 1 {
        assert(move_order(4) == 1);
    } else if c == 2 {
        assert(move_order(1) == 2);
    } else if c == 3 {
        assert(move_order(0) == 3);
    } else if c == 4 {
        assert(move_order(2) == 4);
    } else if c == 5 {
        assert(move_order(3) == 5);
    } else {
        assert(move_order(6) == 6);
    }
}

/// A right shift by one of a non-negative byte is its halving.
proof fn lemma_shr1(t: i8)
    by (bit_vector)
    requires
        0 <= t,
    ensures
        t >> 1 == t / 2,
{
}

impl Game {
    /// The column tried in search step `i`.
    fn order_col(i: usize) -> (c: usize)
        requires
            i < 7,
        ensures
            c as u64 == move_order(i as int),
            c < 7,
    {
        match i {
            0 => 3,
            1 => 2,
            2 => 4,
            3 => 5,
            4 => 1,
            5 => 0,
            _ => 6,
        }
    }

    /// The packed 64-bit transposition key of this position: a lossless,
    /// injective encoding of the pair of board masks.
    pub fn key(&self) -> (k: u64)
        requires
            self.wf(),
        ensures
            k == key_of(self.grid, self.mask),
    {
        proof {
            lemma_key_fits(self.mask);
        }
        self.grid | self.mask + GUARD_FILL
    }

    /// Alpha-beta negamax over the window `(alpha, beta)`, fail-soft: the
    /// result bounds the true score from above when it is at most
    /// `alpha`, from below when it is at least `beta`, and equals it when
    /// it lies strictly inside the window.  The table gains only sound
    /// upper bounds.
    #[verifier::loop_isolation(false)]
    pub fn negamax(&self, alpha: i8, beta: i8, transposition_table: &mut HashMap<u64, i8>) -> (r:
        i8)
        requires
            self.wf(),
            -22 <= alpha < beta <= 22,
            tt_inv(old(transposition_table)@),
        ensures
            tt_inv(final(transposition_table)@),
            -22 <= r <= 22,
            r <= alpha ==> score_of(*self) <= r as int,
            r >= beta ==> score_of(*self) >= r as int,
            alpha < r < beta ==> r as int == score_of(*self),
        decreases 42 - self.moves,
    {
        proof {
            lemma_stone_count(self.mask);
            lemma_score_bounds(*self);
        }
        match self.state {
            State::Win => {
                let t: i8 = 44 - self.moves as i8;
                proof {
                    lemma_shr1(t);
                }
                return -(t >> 1);
            },
            State::Draw => { return 0 },
            State::NonTerminal => {},
        }
        let mut i: usize = 0;
        while i < 7
            invariant
                self.wf(),
                self.state == State::NonTerminal,
                i <= 7,
                tt_inv(transposition_table@),
                forall|j: int|
                    0 <= j < i && self.legal(#[trigger] move_order(j)) ==> self.spec_play(
                        move_order(j),
                    ).state == State::NonTerminal,
            decreases 7 - i,
        {
            let column = Self::order_col(i);
            match self.play(column) {
                Ok(game) => {
                    match game.state {
                        State::Win => {
                            let t: i8 = 43 - self.moves as i8;
                            proof {
                                lemma_win_child(*self, column as u64);
                                lemma_shr1(t);
                            }
                            return t >> 1;
                        },
                        State::Draw => {
                            proof {
                                lemma_draw_child(*self, column as u64);
                            }
                            return 0;
                        },
                        _ => {},
                    }
                },
                Err(_) => {},
            }
            i += 1;
        }
        proof {
            assert forall|c: u64| #[trigger] self.legal(c) implies self.spec_play(c).state
                == State::NonTerminal by {
                lemma_order_covers(c);
                let j = choose|j: int| 0 <= j < 7 && #[trigger] move_order(j) == c;
                assert(self.legal(move_order(j)));
            }
            lemma_no_quick_win(*self);
            lemma_key_fits(self.mask);
        }
        let key = self.grid | self.mask + GUARD_FILL;
        assert(key == key_of(self.grid, self.mask));
        let max: i8;
        match transposition_table.get(&key) {
            Some(stored) => {
                proof {
                    assert(transposition_table@.contains_pair(key, *stored));
                    let (gg, mm) = choose|gg: u64, mm: u64|
                        {
                            &&& board_ok(gg, mm)
                            &&& key_of(gg, mm) == key
                            &&& score_of(#[trigger] keyed_game(gg, mm)) <= *stored - 19
                        };
                    lemma_key_inj(gg, mm, self.grid, self.mask);
                    assert(keyed_game(gg, mm) == *self);
                }
                max = *stored - 19;
            },
            None => {
                let t: i8 = 41 - self.moves as i8;
                proof {
                    lemma_shr1(t);
                }
                max = (t >> 1) + 1;
            },
        }
        assert(score_of(*self) <= max as int);
        assert(-22 <= max as int <= 21);
        let ghost alpha0 = alpha as int;
        let ghost beta0 = beta as int;
        let mut beta = beta;
        if beta > max {
            beta = max;
            if alpha >= beta {
                return beta;
            }
        }
        let mut alpha = alpha;
        let mut i: usize = 0;
        while i < 7
            invariant
                self.wf(),
                self.state == State::NonTerminal,
                i <= 7,
                tt_inv(transposition_table@),
                key == key_of(self.grid, self.mask),
                score_of(*self) <= max as int,
                -22 <= max as int <= 21,
                -22 <= alpha0,
                alpha0 < beta0,
                beta0 <= 22,
                alpha0 <= alpha as int,
                (alpha as int) < (beta as int),
                beta as int <= beta0,
                beta as int == beta0 || beta as int == max as int,
                forall|j: int|
                    0 <= j < i && self.legal(#[trigger] move_order(j)) ==> -score_of(
                        self.spec_play(move_order(j)),
                    ) <= alpha as int,
                alpha as int > alpha0 ==> alpha as int <= score_of(*self),
            decreases 7 - i,
        {
            let column = Self::order_col(i);
            let ghost a_entry = alpha as int;
            match self.play(column) {
                Ok(game) => {
                    proof {
                        lemma_score_children(*self);
                    }
                    let ghost child = self.spec_play(column as u64);
                    let rc = game.negamax(-beta, -alpha, transposition_table);
                    let score = -rc;
                    if score >= beta {
                        proof {
                            assert(rc as int <= -(beta as int));
                            assert(score_of(child) <= rc as int);
                            assert(score_of(*self) >= -score_of(child));
                            assert(score_of(*self) >= score as int);
                            if (score as int) < beta0 {
                                assert(beta as int == max as int);
                                assert(score as int == score_of(*self));
                            }
                        }
                        return score;
                    }
                    if score > alpha {
                        alpha = score;
                    }
                    proof {
                        assert(rc as int > -(beta as int));
                        if rc as int >= -a_entry {
                            assert(score_of(child) >= rc as int);
                            assert(-score_of(child) <= score as int);
                            assert(score as int <= a_entry);
                        } else {
                            assert(rc as int == score_of(child));
                            assert(-score_of(child) == score as int);
                            assert(score as int <= score_of(*self));
                        }
                    }
                },
                Err(_) => {},
            }
            i += 1;
        }
        proof {
            assert forall|c: u64| #[trigger] self.legal(c) implies -score_of(self.spec_play(c))
                <= alpha as int by {
                lemma_order_covers(c);
                let j = choose|j: int| 0 <= j < 7 && #[trigger] move_order(j) == c;
                assert(self.legal(move_order(j)));
            }
            lemma_score_children(*self);
            let w = choose|c: u64|
                #[trigger] self.legal(c) && score_of(*self) == -score_of(self.spec_play(c));
            assert(score_of(*self) <= alpha as int);
        }
        let ghost t_old = transposition_table@;
        transposition_table.insert(key, alpha + 19);
        proof {
            assert(keyed_game(self.grid, self.mask) == *self);
            assert forall|k2: u64, v2: i8|
                #[trigger] transposition_table@.contains_pair(k2, v2) implies {
                &&& -3 <= v2 <= 40
                &&& exists|gg: u64, mm: u64|
                    {
                        &&& board_ok(gg, mm)
                        &&& key_of(gg, mm) == k2
                        &&& score_of(#[trigger] keyed_game(gg, mm)) <= v2 - 19
                    }
            } by {
                if k2 == key {
                    assert(v2 == alpha + 19);
                    assert(board_ok(self.grid, self.mask) && key_of(self.grid, self.mask) == k2
                        && score_of(keyed_game(self.grid, self.mask)) <= v2 - 19);
                } else {
                    assert(t_old.contains_pair(k2, v2));
                }
            }
        }
        alpha
    }

    /// The exact score of this position under optimal play by both
    /// sides, from the perspective of the player to move: positive when
    /// the mover can force a win (1 with their last stone, 2 with the one
    /// before, and so on), 0 for a forced draw, and the mirrored negative
    /// when the opponent forces the win.  One transposition table lives
    /// for the whole evaluation; null-window probes biased toward zero
    /// narrow a bracket around the score until it is exact.
    #[verifier::loop_isolation(false)]
    #[verifier::rlimit(60)]
    pub fn eval(&self) -> (r: i8)
        requires
            self.wf(),
        ensures
            r as int == score_of(*self),
    {
        proof {
            lemma_stone_count(self.mask);
            lemma_score_bounds(*self);
        }
        match self.state {
            State::Win => {
                let t: i8 = 44 - self.moves as i8;
                proof {
                    lemma_shr1(t);
                }
                return -(t >> 1);
            },
            State::Draw => { return 0 },
            State::NonTerminal => {},
        }
        let mut transposition_table: HashMap<u64, i8> = HashMap::new();
        let mut min: i8 = -(42 - self.moves as i8) / 2;
        let mut max: i8 = (43 - self.moves as i8) / 2;
        while min < max
            invariant
                self.wf(),
                self.state == State::NonTerminal,
                tt_inv(transposition_table@),
                -21 <= min as int,
                max as int <= 21,
                min as int <= score_of(*self) <= max as int,
            decreases max as int - min as int,
        {
            let mut mid: i8 = min + (max - min) / 2;
            if mid <= 0 && min / 2 < mid {
                mid = min / 2;
            } else if mid >= 0 && max / 2 > mid {
                mid = max / 2;
            }
            assert(min <= mid < max);
            let score = self.negamax(mid, mid + 1, &mut transposition_table);
            if score <= mid {
                max = score;
            } else {
                min = score;
            }
        }
        min
    }
}

} // verus!
