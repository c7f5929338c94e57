use connect_four::{Error, Game, Player, State};

/// Endgame regression entries, each a move sequence with its exact score.
#[test]
fn test_end_easy() {
    let cases: [(&str, i8); 2] = [
        ("2252576253462244111563365343671351441", -1),
        ("52677675164321472411331752454", 0),
    ];
    for (sequence, score) in cases {
        let game = Game::new(sequence).unwrap();
        assert_eq!(game.eval(), score);
    }
}

#[test]
fn fixture_mid_depth() {
    let game = Game::new("63437533236115574").unwrap();
    assert_eq!(game.eval(), -5);
}

#[test]
fn eval_win_with_next_stone() {
    // The mover holds three stones in column 1 and completes the line at
    // ply 6, keeping 18 of the win score.
    let game = Game::new("121212").unwrap();
    assert_eq!(game.eval(), 18);
}

#[test]
fn eval_of_concluded_game_is_the_loss() {
    let game = Game::new("1212121").unwrap();
    assert_eq!(game.state, State::Win);
    assert_eq!(game.eval(), -18);
}

#[test]
fn eval_is_deterministic() {
    let g1 = Game::new("52677675164321472411331752454").unwrap();
    let g2 = Game::new("52677675164321472411331752454").unwrap();
    assert_eq!(g1.grid, g2.grid);
    assert_eq!(g1.mask, g2.mask);
    assert_eq!(g1.moves, g2.moves);
    assert_eq!(g1.eval(), 0);
    assert_eq!(g2.eval(), 0);
    assert_eq!(g1.eval(), g1.eval());
}

#[test]
fn negamax_full_window_is_exact_over_children() {
    let game = Game::new("2252576253462244111563365343671351441").unwrap();
    let mut table = std::collections::HashMap::new();
    let full = game.negamax(-22, 22, &mut table);
    assert_eq!(full, -1);
    let mut best = i8::MIN;
    for column in 0..7 {
        if let Ok(child) = game.play(column) {
            let mut child_table = std::collections::HashMap::new();
            let negated = -child.negamax(-22, 22, &mut child_table);
            if negated > best {
                best = negated;
            }
        }
    }
    assert_eq!(full, best);
}

#[test]
fn play_matches_replay() {
    // The example from the position encoding: playing column 2 on "445"
    // reaches the same position as the sequence "4453".
    let game1 = Game::new("445").unwrap().play(2).unwrap();
    let game2 = Game::new("4453").unwrap();
    assert_eq!(game1, game2);
    assert_eq!(game2.moves, 4);
    assert_eq!(game2.grid, 4210688);
    assert_eq!(game2.mask, 274743296);
    assert_eq!(game2.state, State::NonTerminal);
}

#[test]
fn play_rejects_out_of_range_column() {
    let game = Game::empty();
    assert_eq!(game.play(7), Err(Error::InvalidColumn));
    assert_eq!(game.play(usize::MAX), Err(Error::InvalidColumn));
}

#[test]
fn play_rejects_full_column() {
    let game = Game::new("112211221122").unwrap();
    assert_eq!(game.state, State::NonTerminal);
    assert_eq!(game.play(0), Err(Error::ColumnFull));
    assert!(game.play(2).is_ok());
}

#[test]
fn play_rejects_concluded_game() {
    let game = Game::new("1212121").unwrap();
    assert_eq!(game.state, State::Win);
    assert_eq!(game.play(3), Err(Error::GameConcluded));
    assert_eq!(game.play(0), Err(Error::GameConcluded));
}

#[test]
fn new_rejects_malformed_tokens() {
    assert_eq!(Game::new("4x5"), Err(Error::MalformedMoveToken));
    assert_eq!(Game::new("0"), Err(Error::MalformedMoveToken));
    assert_eq!(Game::new("8"), Err(Error::MalformedMoveToken));
    assert_eq!(Game::new("12 21"), Err(Error::MalformedMoveToken));
}

#[test]
fn new_propagates_move_failures() {
    // An eighth stone into column 1 fails while the prefix is legal.
    assert_eq!(Game::new("11221122112212"), Err(Error::ColumnFull));
    // A move after a completed line fails.
    assert_eq!(Game::new("12121217"), Err(Error::GameConcluded));
}

#[test]
fn new_of_empty_sequence_is_the_empty_position() {
    let game = Game::new("").unwrap();
    assert_eq!(game, Game::empty());
    assert_eq!(game.moves, 0);
    assert_eq!(game.grid, 0);
    assert_eq!(game.mask, 0);
    assert_eq!(game.state, State::NonTerminal);
}

#[test]
fn get_state_detects_each_line_direction() {
    // Vertical: four stones at the bottom of column 1.
    assert_eq!(Game::get_state(15, 15), State::Win);
    // Horizontal: the bottom cells of columns 1 through 4.
    let row = 1u64 | 1 << 7 | 1 << 14 | 1 << 21;
    assert_eq!(Game::get_state(row, row), State::Win);
    // Rising diagonal.
    let rising = 1u64 | 1 << 8 | 1 << 16 | 1 << 24;
    assert_eq!(Game::get_state(rising, rising), State::Win);
    // Falling diagonal.
    let falling = 1u64 << 3 | 1 << 9 | 1 << 15 | 1 << 21;
    assert_eq!(Game::get_state(falling, falling), State::Win);
    // Three in a row is not a line.
    assert_eq!(Game::get_state(7, 7), State::NonTerminal);
}

#[test]
fn get_state_detects_draw_on_full_board() {
    // A full board coloured in vertical pairs with a column offset has no
    // line of four for either player.
    let mut grid: u64 = 0;
    for c in 0..7u64 {
        for r in 0..6u64 {
            if ((r / 2) + c) % 2 == 1 {
                grid |= 1u64 << (7 * c + r);
            }
        }
    }
    let full: u64 = 279258638311359;
    assert_eq!(Game::get_state(grid, full), State::Draw);
    assert_eq!(Game::get_state(grid ^ full, full), State::Draw);
    assert_eq!(Game::get_state(grid, grid), State::NonTerminal);
}

#[test]
fn full_drawless_game_ends_in_a_draw() {
    // Forty-two moves that fill the board without either player ever
    // completing a line of four.
    let game = Game::new("121221211212343443433434565675757767675656").unwrap();
    assert_eq!(game.moves, 42);
    assert_eq!(game.state, State::Draw);
    assert_eq!(game.eval(), 0);
    assert_eq!(game.play(0), Err(Error::GameConcluded));
}

#[test]
fn win_goes_to_the_player_who_just_moved() {
    let game = Game::new("1212121").unwrap();
    assert_eq!(game.state, State::Win);
    // Seven stones are down, so the winner is the first player and the
    // second player is to move.
    assert_eq!(game.to_play(), Player::Player2);
}

#[test]
fn to_play_alternates_with_ply() {
    assert_eq!(Game::empty().to_play(), Player::Player1);
    assert_eq!(Game::new("4").unwrap().to_play(), Player::Player2);
    assert_eq!(Game::new("44").unwrap().to_play(), Player::Player1);
    assert_eq!(Player::from(41usize), Player::Player2);
}

#[test]
fn keys_distinguish_positions() {
    let mut games: Vec<Game> = Vec::new();
    games.push(Game::empty());
    games.push(Game::new("445").unwrap());
    games.push(Game::new("4453").unwrap());
    for a in 1..=7u8 {
        for b in 1..=7u8 {
            let sequence = format!("{}{}", a, b);
            games.push(Game::new(&sequence).unwrap());
        }
    }
    for i in 0..games.len() {
        for j in 0..games.len() {
            if games[i].key() == games[j].key() {
                assert_eq!(games[i].grid, games[j].grid);
                assert_eq!(games[i].mask, games[j].mask);
            } else {
                assert!(games[i].grid != games[j].grid || games[i].mask != games[j].mask);
            }
        }
    }
}
