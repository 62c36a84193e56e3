use tictactoe::board::GameStatus;
use tictactoe::game::{Game, GameError};
use tictactoe::store::PlayerList;

fn board(s: &str) -> Vec<char> {
    s.chars().collect()
}

fn count_in(b: &Vec<char>, c: char) -> usize {
    b.iter().filter(|&&x| x == c).count()
}

#[test]
fn creation_rejects_short_board() {
    let mut players = PlayerList::new();
    let r = Game::new(board("XX-"), &mut players);
    assert_eq!(r.err(), Some(GameError::InvalidBoard));
}

#[test]
fn creation_rejects_long_board() {
    let mut players = PlayerList::new();
    let r = Game::new(board("----------"), &mut players);
    assert_eq!(r.err(), Some(GameError::InvalidBoard));
}

#[test]
fn creation_rejects_bad_symbol() {
    let mut players = PlayerList::new();
    let r = Game::new(board("A--------"), &mut players);
    assert_eq!(r.err(), Some(GameError::InvalidBoard));
}

#[test]
fn creation_rejects_two_crosses() {
    let mut players = PlayerList::new();
    let r = Game::new(board("XX-------"), &mut players);
    assert_eq!(r.err(), Some(GameError::InvalidStartingBoard));
}

#[test]
fn creation_rejects_two_noughts() {
    let mut players = PlayerList::new();
    let r = Game::new(board("O---O----"), &mut players);
    assert_eq!(r.err(), Some(GameError::InvalidStartingBoard));
}

#[test]
fn creation_rejects_one_of_each() {
    let mut players = PlayerList::new();
    let r = Game::new(board("XO-------"), &mut players);
    assert_eq!(r.err(), Some(GameError::InvalidStartingBoard));
}

#[test]
fn empty_board_creation_places_one_stone() {
    let mut players = PlayerList::new();
    let g = Game::new(board("---------"), &mut players).unwrap();
    assert_eq!(g.get_status(), GameStatus::RUNNING);
    let b = g.get_board();
    assert_eq!(b.len(), 9);
    assert_eq!(count_in(b, '-'), 8);
    // the human player was assigned the sign opposite to the placed stone
    let placed: char = *b.iter().find(|&&c| c != '-').unwrap();
    assert!(placed == 'X' || placed == 'O');
    let human = players.sign_of(g.get_id()).unwrap();
    assert_eq!(human, if placed == 'X' { 'O' } else { 'X' });
}

#[test]
fn single_x_creation_gets_o_reply() {
    let mut players = PlayerList::new();
    let g = Game::new(board("X--------"), &mut players).unwrap();
    assert_eq!(g.get_status(), GameStatus::RUNNING);
    let b = g.get_board();
    assert_eq!(count_in(b, 'X'), 1);
    assert_eq!(count_in(b, 'O'), 1);
    assert_eq!(b[0], 'X');
    assert_eq!(players.sign_of(g.get_id()), Some('X'));
}

#[test]
fn single_o_creation_gets_x_reply() {
    let mut players = PlayerList::new();
    let g = Game::new(board("----O----"), &mut players).unwrap();
    assert_eq!(g.get_status(), GameStatus::RUNNING);
    let b = g.get_board();
    assert_eq!(count_in(b, 'X'), 1);
    assert_eq!(count_in(b, 'O'), 1);
    assert_eq!(b[4], 'O');
    assert_eq!(players.sign_of(g.get_id()), Some('O'));
}

#[test]
fn game_id_is_36_chars() {
    let mut players = PlayerList::new();
    let g = Game::new(board("X--------"), &mut players).unwrap();
    assert_eq!(g.get_id().len(), 36);
}

#[test]
fn well_formedness_follows_the_board() {
    let mut players = PlayerList::new();
    let mut g = Game::new(board("X--------"), &mut players).unwrap();
    assert!(g.is_well_formed());
    g.set_board(board("XZ-------"));
    assert!(!g.is_well_formed());
    g.set_board(board("X-------"));
    assert!(!g.is_well_formed());
}

#[test]
fn check_win_detects_row0_x() {
    let mut players = PlayerList::new();
    let mut g = Game::new(board("X--------"), &mut players).unwrap();
    g.set_board(board("XXXOO----"));
    assert!(g.check_win_conditions());
    assert_eq!(g.get_status(), GameStatus::XWon);
    // re-evaluating an already-won board yields the same winner
    assert!(g.check_win_conditions());
    assert_eq!(g.get_status(), GameStatus::XWon);
}

#[test]
fn check_win_detects_column_o() {
    let mut players = PlayerList::new();
    let mut g = Game::new(board("X--------"), &mut players).unwrap();
    g.set_board(board("O-XO-XO--"));
    assert!(g.check_win_conditions());
    assert_eq!(g.get_status(), GameStatus::OWon);
}

#[test]
fn check_win_detects_diagonal_x() {
    let mut players = PlayerList::new();
    let mut g = Game::new(board("X--------"), &mut players).unwrap();
    g.set_board(board("X-OOX---X"));
    assert!(g.check_win_conditions());
    assert_eq!(g.get_status(), GameStatus::XWon);
}

#[test]
fn check_win_detects_draw_on_full_board() {
    let mut players = PlayerList::new();
    let mut g = Game::new(board("X--------"), &mut players).unwrap();
    g.set_board(board("XOXXOXOXO"));
    assert!(g.check_win_conditions());
    assert_eq!(g.get_status(), GameStatus::DRAW);
}

#[test]
fn check_win_leaves_running_board_alone() {
    let mut players = PlayerList::new();
    let mut g = Game::new(board("X--------"), &mut players).unwrap();
    g.set_board(board("XXOO-----"));
    assert!(!g.check_win_conditions());
    assert_eq!(g.get_status(), GameStatus::RUNNING);
    assert_eq!(*g.get_board(), board("XXOO-----"));
}

#[test]
fn move_rejected_when_game_over() {
    let mut players = PlayerList::new();
    let mut g = Game::new(board("X--------"), &mut players).unwrap();
    g.set_board(board("XXXOO----"));
    g.check_win_conditions();
    assert_eq!(g.get_status(), GameStatus::XWon);
    let accepted = g.make_move(board("XXXOOX---"), &players);
    assert!(!accepted);
    assert_eq!(*g.get_board(), board("XXXOO----"));
    assert_eq!(g.get_status(), GameStatus::XWon);
}

#[test]
fn move_rejected_when_two_stones_added() {
    let mut players = PlayerList::new();
    let mut g = Game::new(board("X--------"), &mut players).unwrap();
    g.set_board(board("XO-------"));
    let accepted = g.make_move(board("XOXX-----"), &players);
    assert!(!accepted);
    assert_eq!(*g.get_board(), board("XO-------"));
    assert_eq!(g.get_status(), GameStatus::RUNNING);
}

#[test]
fn move_rejected_on_count_preserving_two_cell_edit() {
    let mut players = PlayerList::new();
    let mut g = Game::new(board("X--------"), &mut players).unwrap();
    g.set_board(board("XO-------"));
    // the O at cell 1 turned into X and cell 2 gained an O: every
    // aggregate count fits a single X placement, yet two cells changed
    let accepted = g.make_move(board("XXO------"), &players);
    assert!(!accepted);
    assert_eq!(*g.get_board(), board("XO-------"));
    assert_eq!(g.get_status(), GameStatus::RUNNING);
}

#[test]
fn move_rejected_when_a_stone_moves() {
    let mut players = PlayerList::new();
    let mut g = Game::new(board("X--------"), &mut players).unwrap();
    g.set_board(board("XO-------"));
    // the O slid from cell 1 to cell 2 beside a legal-looking X placement
    let accepted = g.make_move(board("X-OX-----"), &players);
    assert!(!accepted);
    assert_eq!(*g.get_board(), board("XO-------"));
    assert_eq!(g.get_status(), GameStatus::RUNNING);
}

#[test]
fn move_rejected_when_opponent_count_changes() {
    let mut players = PlayerList::new();
    let mut g = Game::new(board("X--------"), &mut players).unwrap();
    g.set_board(board("XO-------"));
    let accepted = g.make_move(board("XOXO-----"), &players);
    assert!(!accepted);
    assert_eq!(*g.get_board(), board("XO-------"));
    assert_eq!(g.get_status(), GameStatus::RUNNING);
}

#[test]
fn move_rejected_on_bad_symbol() {
    let mut players = PlayerList::new();
    let mut g = Game::new(board("X--------"), &mut players).unwrap();
    g.set_board(board("XO-------"));
    let accepted = g.make_move(board("XOZ------"), &players);
    assert!(!accepted);
    assert_eq!(*g.get_board(), board("XO-------"));
}

#[test]
fn accepted_move_gets_one_reply_stone() {
    let mut players = PlayerList::new();
    let mut g = Game::new(board("X--------"), &mut players).unwrap();
    g.set_board(board("XO-------"));
    // the human (X) places one stone into an empty cell
    let accepted = g.make_move(board("XOX------"), &players);
    assert!(accepted);
    let b = g.get_board();
    // the engine answered with exactly one O: two stones fewer empty than
    // before the move
    assert_eq!(count_in(b, 'X'), 2);
    assert_eq!(count_in(b, 'O'), 2);
    assert_eq!(count_in(b, '-'), 5);
    assert_eq!(g.get_status(), GameStatus::RUNNING);
    // the human stones are untouched
    assert_eq!(b[0], 'X');
    assert_eq!(b[2], 'X');
}

#[test]
fn winning_move_gets_no_reply() {
    let mut players = PlayerList::new();
    let mut g = Game::new(board("X--------"), &mut players).unwrap();
    g.set_board(board("XX-OO----"));
    let accepted = g.make_move(board("XXXOO----"), &players);
    assert!(accepted);
    // the game ended on the human move: only one empty cell was consumed
    assert_eq!(*g.get_board(), board("XXXOO----"));
    assert_eq!(g.get_status(), GameStatus::XWon);
}

#[test]
fn drawing_move_fills_the_board() {
    let mut players = PlayerList::new();
    let mut g = Game::new(board("X--------"), &mut players).unwrap();
    g.set_board(board("XOXXOXO-O"));
    let accepted = g.make_move(board("XOXXOXOXO"), &players);
    assert!(accepted);
    assert_eq!(*g.get_board(), board("XOXXOXOXO"));
    assert_eq!(g.get_status(), GameStatus::DRAW);
}

#[test]
fn detection_is_deterministic_across_instances() {
    // two independently constructed games, each with its own random
    // source, reach the same verdict on the same boards
    let mut players = PlayerList::new();
    let mut g1 = Game::new(board("X--------"), &mut players).unwrap();
    let mut g2 = Game::new(board("X--------"), &mut players).unwrap();
    g1.set_board(board("XX-OO----"));
    g2.set_board(board("XX-OO----"));
    assert!(g1.make_move(board("XXXOO----"), &players));
    assert!(g2.make_move(board("XXXOO----"), &players));
    assert_eq!(g1.get_status(), GameStatus::XWon);
    assert_eq!(g2.get_status(), GameStatus::XWon);
    assert_eq!(*g1.get_board(), *g2.get_board());
}
