use tic_tac_toe::{check_winner, get_game_state, make_move, reset_game, GameState, MoveError};

fn play_all(game: &mut GameState, moves: &[usize]) {
    for &p in moves {
        assert!(make_move(game, p).is_ok(), "move at {} refused", p);
    }
}

fn fresh() -> GameState {
    GameState::default()
}

#[test]
fn default_state_is_empty_with_x_to_move() {
    let g = fresh();
    assert_eq!(g.board, [' '; 9]);
    assert_eq!(g.current_player, 'X');
    assert!(!g.game_over);
    assert_eq!(g.winner, None);
}

#[test]
fn top_row_win_for_x() {
    let mut g = fresh();
    play_all(&mut g, &[0, 3, 1, 4]);
    let s = make_move(&mut g, 2).unwrap();
    assert_eq!(s.winner, Some('X'));
    assert!(s.game_over);
    assert_eq!(s, g);
    assert_eq!(s.board, ['X', 'X', 'X', 'O', 'O', ' ', ' ', ' ', ' ']);
    assert_eq!(s.current_player, 'X');
}

#[test]
fn moves_in_order_end_on_the_anti_diagonal() {
    // X holds 2, 4 and 6 after the seventh move, so the game stops there.
    let mut g = fresh();
    play_all(&mut g, &[0, 1, 2, 3, 4, 5]);
    assert!(!g.game_over);
    let s = make_move(&mut g, 6).unwrap();
    assert_eq!(s.winner, Some('X'));
    assert!(s.game_over);
    let before = g;
    assert_eq!(make_move(&mut g, 7), Err(MoveError::GameOver));
    assert_eq!(make_move(&mut g, 8), Err(MoveError::GameOver));
    assert_eq!(g, before);
}

#[test]
fn full_board_without_line_is_a_draw() {
    // X O X / X O O / O X X
    let mut g = fresh();
    play_all(&mut g, &[0, 1, 2, 4, 3, 5, 7, 6]);
    assert!(!g.game_over);
    let s = make_move(&mut g, 8).unwrap();
    assert_eq!(s.winner, Some('D'));
    assert!(s.game_over);
    assert_eq!(s.board, ['X', 'O', 'X', 'X', 'O', 'O', 'O', 'X', 'X']);
    assert_eq!(s.current_player, 'X');
}

#[test]
fn position_nine_is_invalid() {
    let mut g = fresh();
    let before = g;
    assert_eq!(make_move(&mut g, 9), Err(MoveError::InvalidMove));
    assert_eq!(g, before);
}

#[test]
fn large_position_is_invalid() {
    let mut g = fresh();
    play_all(&mut g, &[4]);
    let before = g;
    assert_eq!(make_move(&mut g, usize::MAX), Err(MoveError::InvalidMove));
    assert_eq!(g, before);
}

#[test]
fn same_cell_twice_is_invalid() {
    let mut g = fresh();
    assert!(make_move(&mut g, 0).is_ok());
    let before = g;
    assert_eq!(make_move(&mut g, 0), Err(MoveError::InvalidMove));
    assert_eq!(g, before);
    assert_eq!(g.board[0], 'X');
    assert_eq!(g.current_player, 'O');
}

#[test]
fn game_over_wins_over_invalid_position() {
    let mut g = fresh();
    play_all(&mut g, &[0, 3, 1, 4, 2]);
    let before = g;
    assert_eq!(make_move(&mut g, 0), Err(MoveError::GameOver));
    assert_eq!(make_move(&mut g, 5), Err(MoveError::GameOver));
    assert_eq!(make_move(&mut g, 9), Err(MoveError::GameOver));
    assert_eq!(g, before);
}

#[test]
fn turns_alternate_until_the_end() {
    let mut g = fresh();
    let mut expected = 'X';
    for &p in &[4usize, 0, 8, 2, 1, 6] {
        assert_eq!(g.current_player, expected);
        let s = make_move(&mut g, p).unwrap();
        assert_eq!(s.board[p], expected);
        expected = if expected == 'X' { 'O' } else { 'X' };
        assert_eq!(s.current_player, expected);
    }
    // X at 4, 8, 1 and O at 0, 2, 6: X completes 1-4-7 with 7.
    let s = make_move(&mut g, 7).unwrap();
    assert!(s.game_over);
    assert_eq!(s.winner, Some('X'));
    assert_eq!(s.current_player, 'X');
}

#[test]
fn marks_are_never_overwritten() {
    let mut g = fresh();
    let moves = [4usize, 4, 0, 0, 4, 8, 8, 2, 6];
    let mut seen = [' '; 9];
    for &p in &moves {
        let _ = make_move(&mut g, p);
        for i in 0..9 {
            if seen[i] != ' ' {
                assert_eq!(g.board[i], seen[i]);
            }
        }
        seen = g.board;
    }
}

#[test]
fn every_line_wins_for_the_player_who_completes_it() {
    let lines = [
        [0usize, 1, 2],
        [3, 4, 5],
        [6, 7, 8],
        [0, 3, 6],
        [1, 4, 7],
        [2, 5, 8],
        [0, 4, 8],
        [2, 4, 6],
    ];
    for line in lines.iter() {
        let others: Vec<usize> = (0..9).filter(|c| !line.contains(c)).collect();
        let mut g = fresh();
        play_all(&mut g, &[line[0], others[0], line[1], others[1]]);
        let s = make_move(&mut g, line[2]).unwrap();
        assert!(s.game_over, "line {:?}", line);
        assert_eq!(s.winner, Some('X'), "line {:?}", line);
    }
}

#[test]
fn o_wins_a_column() {
    let mut g = fresh();
    play_all(&mut g, &[0, 1, 3, 4, 8]);
    let s = make_move(&mut g, 7).unwrap();
    assert!(s.game_over);
    assert_eq!(s.winner, Some('O'));
    assert_eq!(s.current_player, 'O');
}

#[test]
fn reset_after_play_gives_a_fresh_game() {
    let mut g = fresh();
    play_all(&mut g, &[0, 3, 1]);
    let s = reset_game(&mut g);
    assert_eq!(s, GameState::default());
    assert_eq!(g, GameState::default());
}

#[test]
fn reset_after_game_over_gives_a_fresh_game() {
    let mut g = fresh();
    play_all(&mut g, &[0, 3, 1, 4, 2]);
    assert!(g.game_over);
    let s = reset_game(&mut g);
    assert_eq!(s, fresh());
    assert_eq!(g, fresh());
    assert!(make_move(&mut g, 0).is_ok());
}

#[test]
fn get_game_state_returns_a_copy() {
    let mut g = fresh();
    play_all(&mut g, &[5]);
    let s = get_game_state(&g);
    assert_eq!(s, g);
    play_all(&mut g, &[6]);
    assert_eq!(s.board[6], ' ');
    assert_eq!(g.board[6], 'O');
}

#[test]
fn check_winner_on_empty_board_is_none() {
    assert_eq!(check_winner(&[' '; 9]), None);
}

#[test]
fn check_winner_finds_a_diagonal() {
    let b = ['O', 'X', ' ', 'X', 'O', ' ', ' ', 'X', 'O'];
    assert_eq!(check_winner(&b), Some('O'));
}

#[test]
fn check_winner_follows_the_fixed_order() {
    let b = ['O', 'X', 'X', 'O', ' ', ' ', 'O', 'X', 'X'];
    assert_eq!(check_winner(&b), Some('O'));
    // the top row comes before the middle row
    let b = ['X', 'X', 'X', 'O', 'O', 'O', ' ', ' ', ' '];
    assert_eq!(check_winner(&b), Some('X'));
    let b = ['O', 'O', 'O', 'X', 'X', 'X', ' ', ' ', ' '];
    assert_eq!(check_winner(&b), Some('O'));
    let b = ['O', 'X', 'O', 'O', 'X', ' ', 'O', 'X', 'X'];
    // column 0 comes before column 1
    assert_eq!(check_winner(&b), Some('O'));
}

#[test]
fn check_winner_ignores_unfinished_lines() {
    let b = ['X', 'X', ' ', 'O', 'O', ' ', ' ', ' ', ' '];
    assert_eq!(check_winner(&b), None);
    let b = ['X', 'O', 'X', 'X', 'O', 'O', 'O', 'X', 'X'];
    assert_eq!(check_winner(&b), None);
}

#[test]
fn error_messages() {
    assert_eq!(MoveError::InvalidMove.message(), "Invalid move");
    assert_eq!(MoveError::GameOver.message(), "Game over");
}
