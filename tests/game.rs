use tic_tac_toe::board::{location_to_index, to_board_location, Cell, Token};
use tic_tac_toe::game::{Game, MoveError, Status, Turn};
use tic_tac_toe::input::{answer_is_yes, parse_token, player_is_finished, read_token_choice};

fn play_all(game: &mut Game, moves: &[u32]) -> Status {
    let mut last = game.status();
    for &m in moves {
        last = game.play_turn(m).expect("move should be accepted");
    }
    last
}

#[test]
fn new_game_is_empty_with_player_to_move() {
    let game = Game::new();
    for m in 1..=9 {
        assert_eq!(game.cell(m), Cell::Empty);
        assert!(game.is_valid_move(m));
    }
    assert_eq!(game.current_turn(), Turn::Player);
    assert_eq!(game.status(), Status::InProgress);
    assert!(!game.game_is_won());
    assert!(!game.game_is_drawn());
    assert!(!game.is_board_full());
}

#[test]
fn out_of_range_moves_are_illegal() {
    let game = Game::new();
    assert!(!game.is_valid_move(0));
    assert!(!game.is_valid_move(10));
    assert!(!game.is_valid_move(u32::MAX));
}

#[test]
fn occupied_cell_is_illegal() {
    let mut game = Game::new();
    game.play_turn(5).unwrap();
    assert!(!game.is_valid_move(5));
    assert!(game.is_valid_move(4));
}

#[test]
fn board_location_round_trip() {
    assert_eq!(to_board_location(1), (0, 0));
    assert_eq!(to_board_location(6), (1, 2));
    assert_eq!(to_board_location(7), (2, 0));
    assert_eq!(to_board_location(9), (2, 2));
    for m in 1..=9u32 {
        let (row, col) = to_board_location(m);
        assert!(row < 3 && col < 3);
        assert_eq!(location_to_index(row, col), m);
    }
    assert_eq!(location_to_index(1, 1), 5);
}

#[test]
fn assign_tokens_gives_opposite_marks() {
    for (line, expected) in [("x", Token::X), ("X", Token::X), ("o", Token::O), ("O", Token::O)] {
        let mut game = Game::new();
        assert!(game.assign_tokens(line));
        assert_eq!(game.get_token(Turn::Player), expected);
        assert_eq!(game.get_token(Turn::Bot), expected.other());
        assert_ne!(game.get_token(Turn::Player), game.get_token(Turn::Bot));
    }
}

#[test]
fn assign_tokens_trims_the_line() {
    let mut game = Game::new();
    assert!(game.assign_tokens("  o\n"));
    assert_eq!(game.get_token(Turn::Player), Token::O);
    assert_eq!(game.get_token(Turn::Bot), Token::X);
}

#[test]
fn assign_tokens_refuses_other_answers() {
    let mut game = Game::new();
    assert!(game.assign_tokens("o"));
    for line in ["", "y", "xo", "0", "x o"] {
        assert!(!game.assign_tokens(line));
        assert_eq!(game.get_token(Turn::Player), Token::O);
    }
}

#[test]
fn parse_token_is_exact() {
    assert_eq!(parse_token("x"), Some(Token::X));
    assert_eq!(parse_token("O"), Some(Token::O));
    assert_eq!(parse_token(" x"), None);
    assert_eq!(read_token_choice("\tX \r\n"), Some(Token::X));
    assert_eq!(read_token_choice("q"), None);
}

#[test]
fn turns_alternate_and_refusals_keep_the_turn() {
    let mut game = Game::new();
    assert_eq!(game.current_turn(), Turn::Player);
    game.play_turn(1).unwrap();
    assert_eq!(game.cell(1), Cell::Taken(Token::X));
    assert_eq!(game.current_turn(), Turn::Bot);
    assert_eq!(game.get_next_turn(), Turn::Player);
    assert_eq!(game.play_turn(1), Err(MoveError::IllegalMove));
    assert_eq!(game.play_turn(0), Err(MoveError::IllegalMove));
    assert_eq!(game.current_turn(), Turn::Bot);
    game.play_turn(2).unwrap();
    assert_eq!(game.cell(2), Cell::Taken(Token::O));
    assert_eq!(game.current_turn(), Turn::Player);
}

#[test]
fn bot_move_is_always_an_empty_cell() {
    let mut game = Game::new();
    while game.status() == Status::InProgress {
        let m = if game.current_turn() == Turn::Bot {
            game.get_bot_move()
        } else {
            game.open_cells()[0]
        };
        assert!(game.is_valid_move(m));
        game.play_turn(m).unwrap();
    }
}

#[test]
fn bot_move_from_counts_empty_cells() {
    let mut game = Game::new();
    play_all(&mut game, &[1, 5, 9]);
    assert_eq!(game.open_cells(), vec![2, 3, 4, 6, 7, 8]);
    assert_eq!(game.bot_move_from(0), 2);
    assert_eq!(game.bot_move_from(3), 6);
    assert_eq!(game.bot_move_from(7), 3);
    assert_eq!(game.bot_move_from(u32::MAX), 6);
}

#[test]
fn bot_move_with_one_empty_cell() {
    let mut game = Game::new();
    play_all(&mut game, &[1, 2, 3, 5, 4, 6, 8, 7]);
    assert_eq!(game.open_cells(), vec![9]);
    for _ in 0..20 {
        assert_eq!(game.get_bot_move(), 9);
    }
}

#[test]
fn top_row_wins_for_player() {
    let mut game = Game::new();
    assert!(game.assign_tokens("x"));
    assert_eq!(play_all(&mut game, &[1, 4, 2, 5]), Status::InProgress);
    assert!(!game.game_is_won());
    assert_eq!(game.play_turn(3), Ok(Status::Won(Turn::Player)));
    assert!(game.game_is_won());
    assert_eq!(game.status(), Status::Won(Turn::Player));
    assert_eq!(game.current_turn(), Turn::Player);
    assert_eq!(game.play_turn(9), Err(MoveError::IllegalMove));
    assert_eq!(game.cell(9), Cell::Empty);
}

#[test]
fn column_and_diagonal_wins() {
    let mut game = Game::new();
    assert_eq!(play_all(&mut game, &[1, 2, 4, 3, 7]), Status::Won(Turn::Player));
    let mut game = Game::new();
    assert_eq!(play_all(&mut game, &[1, 3, 2, 5, 9, 7]), Status::Won(Turn::Bot));
    let mut game = Game::new();
    assert_eq!(play_all(&mut game, &[1, 2, 5, 3, 9]), Status::Won(Turn::Player));
}

#[test]
fn full_grid_without_line_is_a_draw() {
    let mut game = Game::new();
    assert_eq!(play_all(&mut game, &[1, 2, 3, 5, 4, 6, 8, 7]), Status::InProgress);
    assert_eq!(game.play_turn(9), Ok(Status::Draw));
    assert!(game.is_board_full());
    assert!(game.game_is_drawn());
    assert!(!game.game_is_won());
    assert_eq!(game.status(), Status::Draw);
}

#[test]
fn occupied_five_is_rejected_and_turn_stays() {
    let mut game = Game::new();
    game.play_turn(1).unwrap();
    game.play_turn(5).unwrap();
    assert_eq!(game.current_turn(), Turn::Player);
    assert_eq!(game.validate("5"), Err(MoveError::IllegalMove));
    assert_eq!(game.play_turn(5), Err(MoveError::IllegalMove));
    assert_eq!(game.current_turn(), Turn::Player);
    assert_eq!(game.cell(5), Cell::Taken(Token::O));
    assert_eq!(game.validate("6\n"), Ok(6));
}

#[test]
fn validate_reports_each_error() {
    let game = Game::new();
    assert_eq!(game.validate(" 7\n"), Ok(7));
    assert_eq!(game.validate("+3"), Ok(3));
    assert_eq!(game.validate("abc"), Err(MoveError::NotANumber));
    assert_eq!(game.validate(""), Err(MoveError::NotANumber));
    assert_eq!(game.validate("-3"), Err(MoveError::NotANumber));
    assert_eq!(game.validate("99999999999"), Err(MoveError::NotANumber));
    assert_eq!(game.validate("0"), Err(MoveError::IllegalMove));
    assert_eq!(game.validate("10"), Err(MoveError::IllegalMove));
    assert_eq!(game.check_move_text(" 7"), Err(MoveError::NotANumber));
    assert_eq!(game.check_move_text("007"), Ok(7));
}

#[test]
fn error_messages() {
    assert_eq!(MoveError::NotANumber.message(), "Please input a valid unsigned integer!");
    assert_eq!(
        MoveError::IllegalMove.message(),
        "Please input a number, between 1 and 9, not already chosen!"
    );
}

#[test]
fn token_text() {
    assert_eq!(Game::token_to_string(&Token::X), "X");
    assert_eq!(Game::token_to_string(&Token::O), "O");
    assert_eq!(Token::O.as_str(), "O");
}

#[test]
fn finished_answers() {
    assert!(player_is_finished("y\n"));
    assert!(player_is_finished(" YES "));
    assert!(player_is_finished("Yes"));
    assert!(!player_is_finished("n"));
    assert!(!player_is_finished(""));
    assert!(!player_is_finished("y es"));
    assert!(!player_is_finished("yess"));
    assert!(answer_is_yes("yes"));
    assert!(!answer_is_yes("YES"));
    assert!(!answer_is_yes(" y"));
}
