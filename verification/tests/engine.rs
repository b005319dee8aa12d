use gym_chess::{Board, ChessEngine, ChessError, Color, State, DEFAULT_BOARD};

const EMPTY: Board = [[0; 8]; 8];

fn state_of(board: Board) -> State {
    State::new(board, "WHITE", true, true, true, true).unwrap()
}

#[test]
fn the_engine_plays_a_named_move() {
    let mut engine = ChessEngine::new();
    let state = state_of(DEFAULT_BOARD);
    let (next, reward) = engine.next_state(&state, "WHITE", "e2e4").unwrap();
    assert_eq!(reward, 0);
    assert_eq!(next.board[6][4], 0);
    assert_eq!(next.board[4][4], 6);
    assert_eq!(next.current_player, Color::Black);
    assert!(!next.white_king_is_checked);
    assert!(!next.black_king_is_checked);
}

#[test]
fn the_engine_refreshes_the_check_flags() {
    let mut board = EMPTY;
    board[7][4] = 1;
    board[0][3] = -3;
    board[0][0] = -1;
    let mut engine = ChessEngine::new();
    let (next, reward) = engine.next_state(&state_of(board), "BLACK", "d8e8").unwrap();
    assert_eq!(reward, 0);
    assert!(next.white_king_is_checked);
    assert!(!next.black_king_is_checked);
    let updated = engine.update_state(&state_of(next.board)).unwrap();
    assert!(updated.white_king_is_checked);
}

#[test]
fn the_engine_castles_by_name() {
    let mut board = EMPTY;
    board[7][4] = 1;
    board[7][7] = 3;
    board[0][4] = -1;
    let mut engine = ChessEngine::new();
    let state = state_of(board);
    assert_eq!(
        engine.get_castle_moves(&state, "WHITE").unwrap(),
        vec!["CASTLE_KING_SIDE_WHITE".to_string()]
    );
    assert!(engine.get_castle_moves(&state, "BLACK").unwrap().is_empty());
    let (next, reward) = engine.next_state(&state, "WHITE", "CASTLE_KING_SIDE_WHITE").unwrap();
    assert_eq!(reward, 0);
    assert_eq!(next.board[7], [0, 0, 0, 0, 0, 3, 1, 0]);
}

#[test]
fn the_engine_reports_each_error() {
    let mut engine = ChessEngine::new();
    let state = state_of(DEFAULT_BOARD);
    assert_eq!(
        engine.next_state(&state, "GREEN", "e2e4").err(),
        Some(ChessError::InvalidColor)
    );
    assert_eq!(
        engine.next_state(&state, "GREEN", "nonsense").err(),
        Some(ChessError::InvalidColor)
    );
    assert_eq!(
        engine.next_state(&state, "WHITE", "e2e9").err(),
        Some(ChessError::InvalidMoveFormat)
    );
    assert_eq!(
        engine.next_state(&state, "WHITE", "e4e5").err(),
        Some(ChessError::IllegalMove)
    );
    assert_eq!(
        engine.get_possible_moves(&state, "white", false).err(),
        Some(ChessError::InvalidColor)
    );
    assert_eq!(engine.get_castle_moves(&state, "").err(), Some(ChessError::InvalidColor));
    assert_eq!(engine.minimax(&state, 1, "BLUE").err(), Some(ChessError::InvalidColor));

    let mut board = EMPTY;
    board[7][0] = 1;
    board[4][0] = 3;
    board[0][0] = -3;
    board[0][7] = -1;
    assert_eq!(
        engine.next_state(&state_of(board), "WHITE", "a4h4").err(),
        Some(ChessError::ImpossiblePosition)
    );
    assert!(engine.next_state(&state_of(board), "WHITE", "a4a5").is_ok());

    let mut board = EMPTY;
    board[4][4] = 1;
    board[2][4] = -1;
    assert_eq!(
        engine.next_state(&state_of(board), "WHITE", "e4e5").err(),
        Some(ChessError::InternalInvariant)
    );
    board[3][4] = -1;
    board[2][4] = 0;
    let touching = state_of(board);
    assert_eq!(
        engine.get_possible_moves(&touching, "WHITE", false).err(),
        Some(ChessError::InternalInvariant)
    );
    assert_eq!(
        engine.get_castle_moves(&touching, "WHITE").err(),
        Some(ChessError::InternalInvariant)
    );
    assert_eq!(engine.update_state(&touching).err(), Some(ChessError::InternalInvariant));
    assert_eq!(engine.minimax(&touching, 2, "WHITE").err(), Some(ChessError::InternalInvariant));
}

#[test]
fn the_engine_lists_the_opening_moves() {
    let mut engine = ChessEngine::new();
    let state = state_of(DEFAULT_BOARD);
    let tokens = engine.get_possible_moves(&state, "WHITE", false).unwrap();
    let expected = [
        "a2a3", "a2a4", "b2b3", "b2b4", "c2c3", "c2c4", "d2d3", "d2d4", "e2e3", "e2e4", "f2f3",
        "f2f4", "g2g3", "g2g4", "h2h3", "h2h4", "b1a3", "b1c3", "g1f3", "g1h3",
    ];
    assert_eq!(tokens, expected);
    let black = engine.get_possible_moves(&state, "BLACK", false).unwrap();
    assert_eq!(black.len(), 20);
    assert_eq!(black[0], "b8a6");
}

#[test]
fn the_engine_lists_castles_after_the_moves() {
    let mut board = EMPTY;
    board[7][4] = 1;
    board[7][7] = 3;
    board[7][0] = 3;
    board[0][4] = -1;
    let mut engine = ChessEngine::new();
    let tokens = engine.get_possible_moves(&state_of(board), "WHITE", false).unwrap();
    let n = tokens.len();
    assert_eq!(tokens[n - 2], "CASTLE_QUEEN_SIDE_WHITE");
    assert_eq!(tokens[n - 1], "CASTLE_KING_SIDE_WHITE");
    assert!(tokens[..n - 2].iter().all(|t| t.len() == 4));
    let attacking = engine.get_possible_moves(&state_of(board), "WHITE", true).unwrap();
    assert!(attacking.iter().all(|t| t.len() == 4));
}

#[test]
fn the_engine_drops_attacks_that_would_uncover_the_king() {
    let mut board = EMPTY;
    board[7][4] = 1;
    board[6][4] = 4;
    board[0][4] = -3;
    board[0][0] = -1;
    let mut engine = ChessEngine::new();
    let tokens = engine.get_possible_moves(&state_of(board), "WHITE", true).unwrap();
    assert_eq!(tokens, ["e1e2", "e1f1", "e1d1", "e1f2", "e1d2"]);
    assert!(tokens.iter().all(|t| t.starts_with("e1")));
}

#[test]
fn the_engine_searches_by_name() {
    let mut board = EMPTY;
    board[7][4] = 1;
    board[0][0] = -1;
    board[4][1] = 3;
    board[4][6] = -3;
    let mut engine = ChessEngine::new();
    let state = state_of(board);
    let (score, token) = engine.minimax(&state, 1, "WHITE").unwrap();
    assert_eq!(token, "b4g4");
    let (after, reward) = engine.next_state(&state, "WHITE", &token).unwrap();
    assert_eq!(reward, 5);
    assert_eq!(score, -gym_chess::evaluate(&after, Color::Black));
    let (leaf, none) = engine.minimax(&state, 0, "WHITE").unwrap();
    assert_eq!(none, "");
    assert_eq!(leaf, gym_chess::evaluate(&state, Color::White));
}
