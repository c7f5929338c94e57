//! The game-theoretic score of a position.
//!
//! The score is from the perspective of the player about to move: positive
//! when the mover can force a win (the more stones the winner has left
//! over, the higher), zero for a forced draw, negative when the opponent
//! can force a win.  It is defined by recursion over the moves that
//! remain, and the lemmas here give the facts the search engine is
//! verified against: its bounds, its relation to the children of a
//! position, and the two terminal shortcuts.

use crate::board::{col_height, col_open, colbits, lemma_open_iff, spec_state, stones, State,
    FULL_BOARD};
use crate::game::{lemma_play_wf, lemma_stone_count, Game};
use vstd::prelude::*;

verus! {

/// The score the mover earns by completing a line with the stone placed
/// at ply `moves`: 1 when it is their last stone, 2 for the one before,
/// and so on.
pub open spec fn mover_win_score(moves: int) -> int {
    (43 - moves) / 2
}

/// The mover's score of a position the previous stone has already won:
/// the loss mirroring the opponent's win at the ply before.
pub open spec fn loss_score(moves: int) -> int {
    -((44 - moves) / 2)
}

/// The exact score of a position under optimal play by both sides, from
/// the mover's perspective.
pub open spec fn score_of(g: Game) -> int
    decreases 42 - g.moves, 8int,
        when g.wf()
        via score_of_decreases
{
    if g.state == State::Win {
        loss_score(g.moves as int)
    } else if g.state == State::Draw {
        0
    } else {
        best_from(g, 0)
    }
}

/// The best score the mover can reach by a legal move in columns
/// `c..7`, or a sentinel below every real score when none is legal.
pub open spec fn best_from(g: Game, c: u64) -> int
    decreases 42 - g.moves, 7 - c,
        when g.wf() && g.state == State::NonTerminal && c <= 7
        via best_from_decreases
{
    if c >= 7 {
        -100
    } else {
        let rest = best_from(g, (c + 1) as u64);
        if g.legal(c) {
            let s = -score_of(g.spec_play(c));
            if s >= rest {
                s
            } else {
                rest
            }
        } else {
            rest
        }
    }
}

#[via_fn]
proof fn score_of_decreases(g: Game) {
    if g.wf() {
        lemma_stone_count(g.mask);
    }
}

#[via_fn]
proof fn best_from_decreases(g: Game, c: u64) {
    if g.wf() && g.state == State::NonTerminal && c < 7 {
        lemma_stone_count(g.mask);
        if g.legal(c) {
            lemma_play_wf(g, c);
        }
    }
}

/// The score of a terminal position is its terminal score, and the score
/// of a running position lies between a loss on the opponent's next stone
/// and a win on the mover's own next stone.
pub proof fn lemma_score_bounds(g: Game)
    requires
        g.wf(),
    ensures
        g.state == State::Win ==> score_of(g) == loss_score(g.moves as int),
        g.state == State::Draw ==> score_of(g) == 0,
        g.state == State::NonTerminal ==> -((42 - g.moves) / 2) <= score_of(g) <= mover_win_score(
            g.moves as int,
        ),
    decreases 42 - g.moves, 8int,
{
    if g.state == State::NonTerminal {
        lemma_stone_count(g.mask);
        lemma_best_facts(g, 0);
        assert(stones(g.mask) < 42);
        let w = choose|d: u64| d < 7 && col_open(g.mask, d);
        assert(g.legal(w));
    }
}

/// By downward induction over the starting column: `best_from` dominates
/// every legal child, is attained by one when any is legal, and is the
/// sentinel when none is.
proof fn lemma_best_facts(g: Game, c: u64)
    requires
        g.wf(),
        g.state == State::NonTerminal,
        c <= 7,
    ensures
        forall|d: u64|
            c <= d < 7 && #[trigger] g.legal(d) ==> best_from(g, c) >= -score_of(g.spec_play(d)),
        (exists|d: u64| c <= d < 7 && #[trigger] g.legal(d)) ==> {
            &&& -((42 - g.moves) / 2) <= best_from(g, c) <= mover_win_score(g.moves as int)
            &&& exists|d: u64|
                c <= d < 7 && #[trigger] g.legal(d) && best_from(g, c) == -score_of(
                    g.spec_play(d),
                )
        },
        (forall|d: u64| c <= d < 7 ==> !(#[trigger] g.legal(d))) ==> best_from(g, c) == -100,
    decreases 42 - g.moves, 7 - c,
{
    lemma_stone_count(g.mask);
    if c < 7 {
        lemma_best_facts(g, (c + 1) as u64);
        if g.legal(c) {
            lemma_play_wf(g, c);
            let child = g.spec_play(c);
            lemma_score_bounds(child);
            assert(child.moves == g.moves + 1);
            if child.state == State::Win {
                assert(-score_of(child) == mover_win_score(g.moves as int));
            }
        }
    }
}

/// A running position's score dominates the negated score of each legal
/// child and is attained by one of them: the exact negamax relation.
pub proof fn lemma_score_children(g: Game)
    requires
        g.wf(),
        g.state == State::NonTerminal,
    ensures
        forall|c: u64| #[trigger] g.legal(c) ==> score_of(g) >= -score_of(g.spec_play(c)),
        exists|c: u64| #[trigger] g.legal(c) && score_of(g) == -score_of(g.spec_play(c)),
{
    lemma_stone_count(g.mask);
    lemma_best_facts(g, 0);
    assert(stones(g.mask) < 42);
    let w = choose|d: u64| d < 7 && col_open(g.mask, d);
    assert(g.legal(w));
}

/// A move that completes a line settles the score: the mover wins with
/// the stone just placed.
pub proof fn lemma_win_child(g: Game, c: u64)
    requires
        g.wf(),
        g.state == State::NonTerminal,
        g.legal(c),
        g.spec_play(c).state == State::Win,
    ensures
        score_of(g) == mover_win_score(g.moves as int),
{
    lemma_play_wf(g, c);
    lemma_score_bounds(g);
    lemma_score_children(g);
    assert(score_of(g) >= -score_of(g.spec_play(c)));
    assert(-score_of(g.spec_play(c)) == mover_win_score(g.moves as int));
}

/// A move that fills the board without a line settles the score at zero:
/// it is the only legal move, and it draws.
pub proof fn lemma_draw_child(g: Game, c: u64)
    requires
        g.wf(),
        g.state == State::NonTerminal,
        g.legal(c),
        g.spec_play(c).state == State::Draw,
    ensures
        score_of(g) == 0,
{
    lemma_play_wf(g, c);
    let child = g.spec_play(c);
    lemma_stone_count(child.mask);
    assert(stones(child.mask) == 42);
    assert(stones(g.mask) == 41);
    lemma_open_iff(g.mask);
    assert forall|d: u64| #[trigger] g.legal(d) implies d == c by {
        if d != c {
            assert(colbits(g.mask, c) != 63 && colbits(g.mask, d) != 63);
            assert(col_height(colbits(g.mask, c)) <= 5);
            assert(col_height(colbits(g.mask, d)) <= 5);
            assert(col_height(colbits(g.mask, 0)) <= 6);
            assert(col_height(colbits(g.mask, 1)) <= 6);
            assert(col_height(colbits(g.mask, 2)) <= 6);
            assert(col_height(colbits(g.mask, 3)) <= 6);
            assert(col_height(colbits(g.mask, 4)) <= 6);
            assert(col_height(colbits(g.mask, 5)) <= 6);
            assert(col_height(colbits(g.mask, 6)) <= 6);
            assert(stones(g.mask) <= 40);
        }
    }
    lemma_score_children(g);
    let w = choose|d: u64| #[trigger] g.legal(d) && score_of(g) == -score_of(g.spec_play(d));
    assert(w == c);
}

/// When no legal move wins at once, the mover's earliest possible win is
/// with their next stone but one, capping the score accordingly.
pub proof fn lemma_no_quick_win(g: Game)
    requires
        g.wf(),
        g.state == State::NonTerminal,
        forall|c: u64| #[trigger] g.legal(c) ==> g.spec_play(c).state == State::NonTerminal,
    ensures
        score_of(g) <= (41 - g.moves) / 2,
{
    lemma_score_children(g);
    let w = choose|c: u64| #[trigger] g.legal(c) && score_of(g) == -score_of(g.spec_play(c));
    lemma_play_wf(g, w);
    lemma_score_bounds(g.spec_play(w));
}

/// The score is a pure function of the board masks and the ply count:
/// two well-formed positions that agree on them agree on the score.
pub proof fn lemma_score_pure(g1: Game, g2: Game)
    requires
        g1.wf(),
        g2.wf(),
        g1.grid == g2.grid,
        g1.mask == g2.mask,
        g1.moves == g2.moves,
    ensures
        score_of(g1) == score_of(g2),
{
    assert(g1.state == spec_state(g1.grid, g1.mask));
    assert(g1 == g2);
}

} // verus!
