use gym_chess::{
    _get_possible_castle_moves, calc_castle_moves, get_squares_under_attack_by_player,
    get_all_possible_moves, get_possible_castle_moves, get_possible_moves, next_state,
    update_state, Board, Castle, ChessError, Color, Move, MoveStruct, State, DEFAULT_BOARD,
};

const EMPTY: Board = [[0; 8]; 8];

fn state_of(board: Board, player: &str) -> State {
    State::new(board, player, true, true, true, true).unwrap()
}

fn place(board: &mut Board, rank: usize, file: usize, id: isize) {
    board[rank][file] = id;
}

#[test]
fn initial_position_has_twenty_moves_and_no_castle() {
    let state = state_of(DEFAULT_BOARD, "WHITE");
    let (moves, castles) = get_all_possible_moves(&state, Color::White, false).unwrap();
    assert_eq!(moves.len(), 20);
    assert_eq!(castles.len(), 0);
    let pawn_moves = moves.iter().filter(|m| (m.0).0 == 6).count();
    let knight_moves = moves.iter().filter(|m| (m.0).0 == 7).count();
    assert_eq!(pawn_moves, 16);
    assert_eq!(knight_moves, 4);
    assert_eq!(
        get_possible_castle_moves(&state, Color::White, false).unwrap(),
        Vec::<Castle>::new()
    );
}

#[test]
fn initial_moves_come_in_scan_order() {
    let state = state_of(DEFAULT_BOARD, "WHITE");
    let moves = get_possible_moves(&state, Color::White, false).unwrap();
    let mut expected: Vec<Move> = Vec::new();
    for file in 0..8 {
        expected.push(((6, file), (5, file)));
        expected.push(((6, file), (4, file)));
    }
    expected.push(((7, 1), (5, 0)));
    expected.push(((7, 1), (5, 2)));
    expected.push(((7, 6), (5, 5)));
    expected.push(((7, 6), (5, 7)));
    assert_eq!(moves, expected);
}

#[test]
fn black_has_twenty_moves_too() {
    let state = state_of(DEFAULT_BOARD, "BLACK");
    let moves = get_possible_moves(&state, Color::Black, false).unwrap();
    assert_eq!(moves.len(), 20);
    assert_eq!(moves[0], ((0, 1), (2, 0)));
    assert_eq!(moves[4], ((1, 0), (2, 0)));
    assert_eq!(moves[5], ((1, 0), (3, 0)));
}

#[test]
fn generating_twice_gives_the_same_sequence() {
    let state = state_of(DEFAULT_BOARD, "WHITE");
    let first = get_all_possible_moves(&state, Color::White, false).unwrap();
    let second = get_all_possible_moves(&state, Color::White, false).unwrap();
    assert_eq!(first, second);
    let attack_first = get_possible_moves(&state, Color::Black, true).unwrap();
    let attack_second = get_possible_moves(&state, Color::Black, true).unwrap();
    assert_eq!(attack_first, attack_second);
}

#[test]
fn pawn_to_e4_changes_the_board_and_the_player() {
    let state = state_of(DEFAULT_BOARD, "WHITE");
    let (next, reward) =
        next_state(&state, Color::White, MoveStruct::Normal(((6, 4), (4, 4)))).unwrap();
    assert_eq!(reward, 0);
    assert_eq!(next.board[6][4], 0);
    assert_eq!(next.board[4][4], 6);
    assert_eq!(next.current_player, Color::Black);
    for rank in 0..8 {
        for file in 0..8 {
            if (rank, file) != (6, 4) && (rank, file) != (4, 4) {
                assert_eq!(next.board[rank][file], DEFAULT_BOARD[rank][file]);
            }
        }
    }
    assert!(next.white_king_castle_is_possible);
    assert!(next.white_queen_castle_is_possible);
    assert!(next.black_king_castle_is_possible);
    assert!(next.black_queen_castle_is_possible);
}

#[test]
fn rook_on_the_kings_file_gives_check() {
    let mut board = EMPTY;
    place(&mut board, 7, 4, 1);
    place(&mut board, 0, 4, -3);
    place(&mut board, 0, 0, -1);
    let mut state = state_of(board, "WHITE");
    assert!(!state.white_king_is_checked);
    update_state(&mut state).unwrap();
    assert!(state.white_king_is_checked);
    assert!(!state.black_king_is_checked);

    place(&mut board, 0, 4, 0);
    let mut without = state_of(board, "WHITE");
    without.white_king_is_checked = true;
    update_state(&mut without).unwrap();
    assert!(!without.white_king_is_checked);
    assert!(!without.black_king_is_checked);
}

#[test]
fn a_piece_in_between_shields_the_king() {
    let mut board = EMPTY;
    place(&mut board, 7, 4, 1);
    place(&mut board, 3, 4, 6);
    place(&mut board, 0, 4, -3);
    place(&mut board, 0, 0, -1);
    let mut state = state_of(board, "WHITE");
    update_state(&mut state).unwrap();
    assert!(!state.white_king_is_checked);
}

#[test]
fn check_flags_stay_stale_until_updated() {
    let mut board = EMPTY;
    place(&mut board, 7, 4, 1);
    place(&mut board, 0, 3, -3);
    place(&mut board, 0, 0, -1);
    let state = state_of(board, "BLACK");
    let (next, _) =
        next_state(&state, Color::Black, MoveStruct::Normal(((0, 3), (0, 4)))).unwrap();
    assert!(!next.white_king_is_checked);
    let mut updated = next;
    update_state(&mut updated).unwrap();
    assert!(updated.white_king_is_checked);
}

fn castling_board() -> Board {
    let mut board = EMPTY;
    place(&mut board, 7, 4, 1);
    place(&mut board, 7, 0, 3);
    place(&mut board, 7, 7, 3);
    place(&mut board, 0, 4, -1);
    place(&mut board, 0, 0, -3);
    place(&mut board, 0, 7, -3);
    board
}

#[test]
fn castling_king_side_white_round_trip() {
    let state = state_of(castling_board(), "WHITE");
    let castles = get_possible_castle_moves(&state, Color::White, false).unwrap();
    assert_eq!(castles, vec![Castle::QueenSideWhite, Castle::KingSideWhite]);
    let (next, reward) =
        next_state(&state, Color::White, MoveStruct::Castle(Castle::KingSideWhite)).unwrap();
    assert_eq!(reward, 0);
    assert_eq!(next.board[7][4], 0);
    assert_eq!(next.board[7][7], 0);
    assert_eq!(next.board[7][5], 3);
    assert_eq!(next.board[7][6], 1);
    assert_eq!(next.board[7][0], 3);
    assert!(!next.white_king_castle_is_possible);
    assert!(!next.white_queen_castle_is_possible);
    assert!(next.black_king_castle_is_possible);
    assert!(next.black_queen_castle_is_possible);
    assert_eq!(next.current_player, Color::Black);
}

#[test]
fn the_other_three_castles_place_king_and_rook() {
    let state = state_of(castling_board(), "WHITE");
    let (next, _) =
        next_state(&state, Color::White, MoveStruct::Castle(Castle::QueenSideWhite)).unwrap();
    assert_eq!(next.board[7], [0, 0, 1, 3, 0, 0, 0, 3]);
    assert!(!next.white_king_castle_is_possible && !next.white_queen_castle_is_possible);

    let (next, _) =
        next_state(&state, Color::Black, MoveStruct::Castle(Castle::KingSideBlack)).unwrap();
    assert_eq!(next.board[0], [-3, 0, 0, 0, 0, -3, -1, 0]);
    assert!(!next.black_king_castle_is_possible && !next.black_queen_castle_is_possible);
    assert!(next.white_king_castle_is_possible && next.white_queen_castle_is_possible);
    assert_eq!(next.current_player, Color::White);

    let (next, _) =
        next_state(&state, Color::Black, MoveStruct::Castle(Castle::QueenSideBlack)).unwrap();
    assert_eq!(next.board[0], [0, 0, -1, -3, 0, 0, 0, -3]);
    assert!(!next.black_king_castle_is_possible && !next.black_queen_castle_is_possible);
}

#[test]
fn black_castles_with_its_own_king_and_rooks() {
    let state = state_of(castling_board(), "BLACK");
    let castles = get_possible_castle_moves(&state, Color::Black, false).unwrap();
    assert_eq!(castles, vec![Castle::QueenSideBlack, Castle::KingSideBlack]);
}

#[test]
fn no_castle_in_attack_mode() {
    let state = state_of(castling_board(), "WHITE");
    assert!(get_possible_castle_moves(&state, Color::White, true).unwrap().is_empty());
    let (_, castles) = get_all_possible_moves(&state, Color::White, true).unwrap();
    assert!(castles.is_empty());
}

#[test]
fn no_castle_across_an_attacked_square() {
    let mut board = castling_board();
    place(&mut board, 0, 7, 0);
    place(&mut board, 3, 5, -3);
    let state = state_of(board, "WHITE");
    let castles = get_possible_castle_moves(&state, Color::White, false).unwrap();
    assert_eq!(castles, vec![Castle::QueenSideWhite]);
}

#[test]
fn no_castle_onto_an_attacked_square() {
    let mut board = castling_board();
    place(&mut board, 0, 7, 0);
    place(&mut board, 3, 6, -3);
    let state = state_of(board, "WHITE");
    let castles = get_possible_castle_moves(&state, Color::White, false).unwrap();
    assert_eq!(castles, vec![Castle::QueenSideWhite]);
}

#[test]
fn queen_side_castle_may_pass_the_rook_over_an_attacked_square() {
    let mut board = castling_board();
    place(&mut board, 0, 0, 0);
    place(&mut board, 3, 1, -3);
    let state = state_of(board, "WHITE");
    let castles = get_possible_castle_moves(&state, Color::White, false).unwrap();
    assert_eq!(castles, vec![Castle::QueenSideWhite, Castle::KingSideWhite]);
}

#[test]
fn no_castle_out_of_check() {
    let mut board = castling_board();
    place(&mut board, 3, 4, -3);
    let state = state_of(board, "WHITE");
    assert!(get_possible_castle_moves(&state, Color::White, false).unwrap().is_empty());
}

#[test]
fn no_castle_through_a_piece() {
    let mut board = castling_board();
    place(&mut board, 7, 1, 5);
    place(&mut board, 7, 5, 4);
    let state = state_of(board, "WHITE");
    assert!(get_possible_castle_moves(&state, Color::White, false).unwrap().is_empty());
}

#[test]
fn a_right_that_is_gone_closes_its_wing() {
    let state = State::new(castling_board(), "WHITE", true, false, false, false).unwrap();
    assert_eq!(
        get_possible_castle_moves(&state, Color::White, false).unwrap(),
        vec![Castle::KingSideWhite]
    );
    assert!(get_possible_castle_moves(&state, Color::Black, false).unwrap().is_empty());
}

#[test]
fn king_and_rook_moves_end_rights() {
    let state = state_of(castling_board(), "WHITE");
    let (next, _) =
        next_state(&state, Color::White, MoveStruct::Normal(((7, 4), (6, 4)))).unwrap();
    assert!(!next.white_king_castle_is_possible && !next.white_queen_castle_is_possible);
    assert!(next.black_king_castle_is_possible && next.black_queen_castle_is_possible);

    let (next, _) =
        next_state(&state, Color::White, MoveStruct::Normal(((7, 0), (6, 0)))).unwrap();
    assert!(next.white_king_castle_is_possible && !next.white_queen_castle_is_possible);

    let (next, _) =
        next_state(&state, Color::White, MoveStruct::Normal(((7, 7), (6, 7)))).unwrap();
    assert!(!next.white_king_castle_is_possible && next.white_queen_castle_is_possible);

    let (next, _) =
        next_state(&state, Color::Black, MoveStruct::Normal(((0, 4), (1, 4)))).unwrap();
    assert!(!next.black_king_castle_is_possible && !next.black_queen_castle_is_possible);
    assert!(next.white_king_castle_is_possible && next.white_queen_castle_is_possible);

    let (next, _) =
        next_state(&state, Color::Black, MoveStruct::Normal(((0, 7), (1, 7)))).unwrap();
    assert!(!next.black_king_castle_is_possible && next.black_queen_castle_is_possible);
}

#[test]
fn a_state_without_a_king_has_no_rights() {
    let mut board = EMPTY;
    place(&mut board, 0, 4, -1);
    let state = state_of(board, "WHITE");
    assert!(!state.white_king_on_board);
    assert!(state.black_king_on_board);
    assert!(!state.white_king_castle_is_possible);
    assert!(!state.white_queen_castle_is_possible);
    assert!(state.black_king_castle_is_possible);
    assert!(state.black_queen_castle_is_possible);
    assert!(!state.white_king_is_checked);
    assert!(!state.black_king_is_checked);
    assert_eq!(state.current_player, Color::White);
    assert!(get_possible_castle_moves(&state, Color::White, false).unwrap().is_empty());
}

#[test]
fn captures_earn_the_value_of_the_piece() {
    let values = [(-6, 1), (-5, 3), (-4, 3), (-3, 5), (-2, 10), (-1, 0)];
    for (victim, value) in values {
        let mut board = EMPTY;
        place(&mut board, 4, 0, 3);
        place(&mut board, 4, 5, victim);
        let state = state_of(board, "WHITE");
        let (next, reward) =
            next_state(&state, Color::White, MoveStruct::Normal(((4, 0), (4, 5)))).unwrap();
        assert_eq!(reward, value);
        assert_eq!(next.board[4][5], 3);
        assert_eq!(next.board[4][0], 0);
    }
}

#[test]
fn a_pawn_on_the_far_rank_becomes_a_queen() {
    let mut board = EMPTY;
    place(&mut board, 1, 2, 6);
    place(&mut board, 0, 3, -5);
    place(&mut board, 6, 6, -6);
    let state = state_of(board, "WHITE");

    let (next, reward) =
        next_state(&state, Color::White, MoveStruct::Normal(((1, 2), (0, 2)))).unwrap();
    assert_eq!(next.board[0][2], 2);
    assert_eq!(next.board[1][2], 0);
    assert_eq!(reward, 10);

    let (next, reward) =
        next_state(&state, Color::White, MoveStruct::Normal(((1, 2), (0, 3)))).unwrap();
    assert_eq!(next.board[0][3], 2);
    assert_eq!(reward, 13);

    let (next, reward) =
        next_state(&state, Color::Black, MoveStruct::Normal(((6, 6), (7, 6)))).unwrap();
    assert_eq!(next.board[7][6], -2);
    assert_eq!(reward, 10);
}

#[test]
fn a_pawn_short_of_the_far_rank_stays_a_pawn() {
    let mut board = EMPTY;
    place(&mut board, 2, 2, 6);
    let state = state_of(board, "WHITE");
    let (next, reward) =
        next_state(&state, Color::White, MoveStruct::Normal(((2, 2), (1, 2)))).unwrap();
    assert_eq!(next.board[1][2], 6);
    assert_eq!(reward, 0);
}

#[test]
fn moving_from_an_empty_square_is_illegal() {
    let state = state_of(DEFAULT_BOARD, "WHITE");
    let outcome = next_state(&state, Color::White, MoveStruct::Normal(((4, 4), (3, 4))));
    assert_eq!(outcome.err(), Some(ChessError::IllegalMove));
}

#[test]
fn kings_side_by_side_are_an_error() {
    let mut board = EMPTY;
    place(&mut board, 4, 4, 1);
    place(&mut board, 3, 5, -1);
    let mut state = state_of(board, "WHITE");
    for attack in [false, true] {
        for player in [Color::White, Color::Black] {
            assert_eq!(
                get_possible_moves(&state, player, attack).err(),
                Some(ChessError::InternalInvariant)
            );
            assert_eq!(
                get_all_possible_moves(&state, player, attack).err(),
                Some(ChessError::InternalInvariant)
            );
        }
    }
    assert_eq!(
        get_possible_castle_moves(&state, Color::White, false).err(),
        Some(ChessError::InternalInvariant)
    );
    assert!(get_possible_castle_moves(&state, Color::White, true).is_ok());
    let before = state;
    assert_eq!(update_state(&mut state).err(), Some(ChessError::InternalInvariant));
    assert_eq!(state.board, before.board);
    assert_eq!(state.white_king_is_checked, before.white_king_is_checked);
}

#[test]
fn kings_two_squares_apart_are_fine() {
    let mut board = EMPTY;
    place(&mut board, 4, 4, 1);
    place(&mut board, 2, 4, -1);
    let state = state_of(board, "WHITE");
    let moves = get_possible_moves(&state, Color::White, false).unwrap();
    let expected: Vec<Move> = vec![
        ((4, 4), (5, 4)),
        ((4, 4), (4, 5)),
        ((4, 4), (4, 3)),
        ((4, 4), (5, 5)),
        ((4, 4), (5, 3)),
    ];
    assert_eq!(moves, expected);
}

fn count_lines(state: &State, player: Color, plies: u32) -> u64 {
    if plies == 0 {
        return 1;
    }
    let other = if player == Color::White { Color::Black } else { Color::White };
    let (moves, castles) = get_all_possible_moves(state, player, false).unwrap();
    let mut lines = 0;
    for mv in moves {
        let (next, _) = next_state(state, player, MoveStruct::Normal(mv)).unwrap();
        lines += count_lines(&next, other, plies - 1);
    }
    for castle in castles {
        let (next, _) = next_state(state, player, MoveStruct::Castle(castle)).unwrap();
        lines += count_lines(&next, other, plies - 1);
    }
    lines
}

#[test]
fn the_opening_branches_as_chess_does() {
    let state = state_of(DEFAULT_BOARD, "WHITE");
    assert_eq!(count_lines(&state, Color::White, 1), 20);
    assert_eq!(count_lines(&state, Color::White, 2), 400);
    assert_eq!(count_lines(&state, Color::White, 3), 8902);
}

#[test]
fn standing_castles_do_not_depend_on_rights() {
    let without = State::new(castling_board(), "WHITE", true, false, false, false).unwrap();
    let attacked = get_squares_under_attack_by_player(&without, Color::Black).unwrap();
    assert_eq!(
        calc_castle_moves(&without, Color::White, &attacked),
        vec![Castle::QueenSideWhite, Castle::KingSideWhite]
    );
    assert_eq!(
        _get_possible_castle_moves(&without, Color::White, false, &attacked),
        vec![Castle::KingSideWhite]
    );
    let by_white = get_squares_under_attack_by_player(&without, Color::White).unwrap();
    assert_eq!(
        calc_castle_moves(&without, Color::Black, &by_white),
        vec![Castle::QueenSideBlack, Castle::KingSideBlack]
    );
    assert!(_get_possible_castle_moves(&without, Color::Black, false, &by_white).is_empty());
    assert!(_get_possible_castle_moves(&without, Color::White, true, &attacked).is_empty());
}

#[test]
fn standing_castles_read_the_grid_and_the_map() {
    let state = state_of(castling_board(), "WHITE");
    let mut map = std::collections::HashMap::new();
    assert_eq!(
        calc_castle_moves(&state, Color::White, &map),
        vec![Castle::QueenSideWhite, Castle::KingSideWhite]
    );
    map.insert(57usize, true);
    assert_eq!(
        calc_castle_moves(&state, Color::White, &map),
        vec![Castle::QueenSideWhite, Castle::KingSideWhite]
    );
    for square in [58usize, 59] {
        let mut map = std::collections::HashMap::new();
        map.insert(square, true);
        assert_eq!(calc_castle_moves(&state, Color::White, &map), vec![Castle::KingSideWhite]);
    }
    for square in [61usize, 62] {
        let mut map = std::collections::HashMap::new();
        map.insert(square, true);
        assert_eq!(calc_castle_moves(&state, Color::White, &map), vec![Castle::QueenSideWhite]);
    }
    let mut map = std::collections::HashMap::new();
    map.insert(60usize, true);
    assert!(calc_castle_moves(&state, Color::White, &map).is_empty());
    let mut map = std::collections::HashMap::new();
    map.insert(4usize, true);
    assert!(calc_castle_moves(&state, Color::Black, &map).is_empty());
    assert_eq!(
        calc_castle_moves(&state, Color::White, &map),
        vec![Castle::QueenSideWhite, Castle::KingSideWhite]
    );

    let mut board = castling_board();
    place(&mut board, 7, 0, -3);
    let state = state_of(board, "WHITE");
    let map = std::collections::HashMap::new();
    assert_eq!(calc_castle_moves(&state, Color::White, &map), vec![Castle::KingSideWhite]);
}
