use std::collections::HashMap;

use gym_chess::{
    board_is_valid, get_possible_moves, get_squares_under_attack_by_player, king_is_checked,
    move_leaves_king_checked, next_state, piece_is_on_board, Board, ChessError, Color, Move,
    MoveStruct, State, DEFAULT_BOARD,
};

const EMPTY: Board = [[0; 8]; 8];

fn state_of(board: Board) -> State {
    State::new(board, "WHITE", false, false, false, false).unwrap()
}

fn lone(id: isize, rank: usize, file: usize) -> State {
    let mut board = EMPTY;
    board[rank][file] = id;
    state_of(board)
}

fn arrivals(moves: &[Move]) -> Vec<(isize, isize)> {
    moves.iter().map(|m| m.1).collect()
}

#[test]
fn a_king_tries_its_eight_steps_in_order() {
    let state = lone(1, 4, 4);
    let moves = get_possible_moves(&state, Color::White, false).unwrap();
    assert!(moves.iter().all(|m| m.0 == (4, 4)));
    assert_eq!(
        arrivals(&moves),
        vec![(5, 4), (3, 4), (4, 5), (4, 3), (5, 5), (5, 3), (3, 5), (3, 3)]
    );
}

#[test]
fn a_king_in_the_corner_stays_on_the_board() {
    let state = lone(-1, 0, 0);
    let moves = get_possible_moves(&state, Color::Black, false).unwrap();
    assert_eq!(arrivals(&moves), vec![(1, 0), (0, 1), (1, 1)]);
}

#[test]
fn a_king_keeps_off_attacked_squares_and_own_pieces() {
    let mut board = EMPTY;
    board[4][4] = 1;
    board[5][4] = 6;
    board[0][5] = -3;
    board[3][3] = -5;
    let state = state_of(board);
    let moves = get_possible_moves(&state, Color::White, false).unwrap();
    let king: Vec<(isize, isize)> =
        moves.iter().filter(|m| m.0 == (4, 4)).map(|m| m.1).collect();
    assert_eq!(king, vec![(3, 4), (4, 3), (5, 3), (3, 3)]);
}

#[test]
fn a_king_defends_its_own_pieces_in_attack_mode() {
    let mut board = EMPTY;
    board[0][0] = 1;
    board[0][1] = 6;
    board[1][1] = -6;
    let state = state_of(board);
    let moves = get_possible_moves(&state, Color::White, true).unwrap();
    let king: Vec<(isize, isize)> =
        moves.iter().filter(|m| m.0 == (0, 0)).map(|m| m.1).collect();
    assert_eq!(king, vec![(1, 0), (0, 1), (1, 1)]);
}

#[test]
fn a_rook_follows_four_rays() {
    let state = lone(3, 4, 4);
    let moves = get_possible_moves(&state, Color::White, false).unwrap();
    assert_eq!(
        arrivals(&moves),
        vec![
            (3, 4), (2, 4), (1, 4), (0, 4),
            (5, 4), (6, 4), (7, 4),
            (4, 3), (4, 2), (4, 1), (4, 0),
            (4, 5), (4, 6), (4, 7),
        ]
    );
}

#[test]
fn a_bishop_follows_four_diagonals() {
    let state = lone(-4, 2, 1);
    let moves = get_possible_moves(&state, Color::Black, false).unwrap();
    assert_eq!(
        arrivals(&moves),
        vec![
            (1, 0),
            (1, 2), (0, 3),
            (3, 0),
            (3, 2), (4, 3), (5, 4), (6, 5), (7, 6),
        ]
    );
}

#[test]
fn a_queen_moves_as_rook_then_as_bishop() {
    let state = lone(2, 0, 0);
    let moves = get_possible_moves(&state, Color::White, false).unwrap();
    let mut expected: Vec<(isize, isize)> = Vec::new();
    for rank in 1..8 {
        expected.push((rank, 0));
    }
    for file in 1..8 {
        expected.push((0, file));
    }
    for step in 1..8 {
        expected.push((step, step));
    }
    assert_eq!(arrivals(&moves), expected);
}

#[test]
fn a_ray_stops_short_of_an_own_piece_and_on_an_opposing_one() {
    let mut board = EMPTY;
    board[4][0] = 3;
    board[4][3] = 6;
    board[1][0] = -6;
    let state = state_of(board);
    let rook: Vec<(isize, isize)> = get_possible_moves(&state, Color::White, false)
        .unwrap()
        .iter()
        .filter(|m| m.0 == (4, 0))
        .map(|m| m.1)
        .collect();
    assert_eq!(rook, vec![(3, 0), (2, 0), (1, 0), (5, 0), (6, 0), (7, 0), (4, 1), (4, 2)]);
    let attacked: Vec<(isize, isize)> = get_possible_moves(&state, Color::White, true)
        .unwrap()
        .iter()
        .filter(|m| m.0 == (4, 0))
        .map(|m| m.1)
        .collect();
    assert_eq!(
        attacked,
        vec![(3, 0), (2, 0), (1, 0), (5, 0), (6, 0), (7, 0), (4, 1), (4, 2), (4, 3)]
    );
}

#[test]
fn a_knight_tries_its_eight_jumps_in_order() {
    let state = lone(5, 4, 4);
    let moves = get_possible_moves(&state, Color::White, false).unwrap();
    assert_eq!(
        arrivals(&moves),
        vec![(2, 3), (2, 5), (6, 3), (6, 5), (3, 2), (3, 6), (5, 2), (5, 6)]
    );
    let corner = lone(5, 7, 7);
    let moves = get_possible_moves(&corner, Color::White, false).unwrap();
    assert_eq!(arrivals(&moves), vec![(5, 6), (6, 5)]);
}

#[test]
fn a_knight_jumps_over_pieces_but_not_onto_its_own() {
    let mut board = EMPTY;
    board[7][1] = 5;
    board[6][0] = 6;
    board[6][1] = 6;
    board[6][2] = 6;
    board[5][2] = 6;
    board[5][0] = -6;
    let state = state_of(board);
    let knight: Vec<(isize, isize)> = get_possible_moves(&state, Color::White, false)
        .unwrap()
        .iter()
        .filter(|m| m.0 == (7, 1))
        .map(|m| m.1)
        .collect();
    assert_eq!(knight, vec![(5, 0), (6, 3)]);
    let defended: Vec<(isize, isize)> = get_possible_moves(&state, Color::White, true)
        .unwrap()
        .iter()
        .filter(|m| m.0 == (7, 1))
        .map(|m| m.1)
        .collect();
    assert_eq!(defended, vec![(5, 0), (5, 2), (6, 3)]);
}

#[test]
fn a_white_pawn_walks_towards_rank_zero() {
    let state = lone(6, 6, 3);
    let moves = get_possible_moves(&state, Color::White, false).unwrap();
    assert_eq!(arrivals(&moves), vec![(5, 3), (4, 3)]);
    let state = lone(6, 5, 3);
    let moves = get_possible_moves(&state, Color::White, false).unwrap();
    assert_eq!(arrivals(&moves), vec![(4, 3)]);
}

#[test]
fn a_black_pawn_walks_towards_rank_seven() {
    let state = lone(-6, 1, 3);
    let moves = get_possible_moves(&state, Color::Black, false).unwrap();
    assert_eq!(arrivals(&moves), vec![(2, 3), (3, 3)]);
    let state = lone(-6, 6, 3);
    let moves = get_possible_moves(&state, Color::Black, false).unwrap();
    assert_eq!(arrivals(&moves), vec![(7, 3)]);
}

#[test]
fn a_blocked_pawn_does_not_jump() {
    let mut board = EMPTY;
    board[6][3] = 6;
    board[5][3] = -5;
    let state = state_of(board);
    let pawn: Vec<(isize, isize)> = get_possible_moves(&state, Color::White, false)
        .unwrap()
        .iter()
        .map(|m| m.1)
        .collect();
    assert!(pawn.is_empty());

    let mut board = EMPTY;
    board[6][3] = 6;
    board[4][3] = -5;
    let state = state_of(board);
    let pawn = get_possible_moves(&state, Color::White, false).unwrap();
    assert_eq!(arrivals(&pawn), vec![(5, 3)]);
}

#[test]
fn a_pawn_captures_on_the_diagonals_higher_file_first() {
    let mut board = EMPTY;
    board[4][3] = 6;
    board[3][2] = -5;
    board[3][4] = -3;
    board[3][3] = -6;
    let state = state_of(board);
    let pawn: Vec<(isize, isize)> = get_possible_moves(&state, Color::White, false)
        .unwrap()
        .iter()
        .map(|m| m.1)
        .collect();
    assert_eq!(pawn, vec![(3, 4), (3, 2)]);
}

#[test]
fn a_pawn_attacks_its_diagonals_whatever_stands_there() {
    let mut board = EMPTY;
    board[4][3] = 6;
    board[3][2] = 5;
    let state = state_of(board);
    let pawn: Vec<(isize, isize)> = get_possible_moves(&state, Color::White, true)
        .unwrap()
        .iter()
        .filter(|m| m.0 == (4, 3))
        .map(|m| m.1)
        .collect();
    assert_eq!(pawn, vec![(3, 4), (3, 2)]);

    let mut board = EMPTY;
    board[4][0] = -6;
    board[5][1] = -1;
    let state = state_of(board);
    let pawn: Vec<(isize, isize)> = get_possible_moves(&state, Color::Black, true)
        .unwrap()
        .iter()
        .filter(|m| m.0 == (4, 0))
        .map(|m| m.1)
        .collect();
    assert!(pawn.is_empty());
}

#[test]
fn the_attack_map_files_squares_by_rank_and_file() {
    let state = lone(-5, 0, 1);
    let map: HashMap<usize, bool> =
        get_squares_under_attack_by_player(&state, Color::Black).unwrap();
    let mut keys: Vec<usize> = map.keys().copied().collect();
    keys.sort();
    assert_eq!(keys, vec![11, 16, 18]);
    assert!(map.values().all(|v| *v));
    let none = get_squares_under_attack_by_player(&state, Color::White).unwrap();
    assert!(none.is_empty());
}

#[test]
fn the_initial_attack_map_of_white() {
    let state = state_of(DEFAULT_BOARD);
    let map = get_squares_under_attack_by_player(&state, Color::White).unwrap();
    let mut keys: Vec<usize> = map.keys().copied().collect();
    keys.sort();
    let mut expected: Vec<usize> = (40..64).collect();
    expected.retain(|k| *k != 56 && *k != 63);
    assert_eq!(keys, expected);
}

#[test]
fn a_pinned_piece_may_not_leave_the_line() {
    let mut board = EMPTY;
    board[7][4] = 1;
    board[6][4] = 4;
    board[0][4] = -3;
    board[0][0] = -1;
    let state = state_of(board);
    let moves = get_possible_moves(&state, Color::White, false).unwrap();
    let expected: Vec<Move> = vec![
        ((7, 4), (7, 5)),
        ((7, 4), (7, 3)),
        ((7, 4), (6, 5)),
        ((7, 4), (6, 3)),
    ];
    assert_eq!(moves, expected);
    assert_eq!(move_leaves_king_checked(&state, Color::White, ((6, 4), (5, 3))), Ok(true));
    assert_eq!(move_leaves_king_checked(&state, Color::White, ((7, 4), (7, 5))), Ok(false));
}

#[test]
fn a_rook_pinned_on_a_file_may_slide_along_it() {
    let mut board = EMPTY;
    board[7][4] = 1;
    board[5][4] = 3;
    board[0][4] = -3;
    board[0][0] = -1;
    let state = state_of(board);
    let rook: Vec<(isize, isize)> = get_possible_moves(&state, Color::White, false)
        .unwrap()
        .iter()
        .filter(|m| m.0 == (5, 4))
        .map(|m| m.1)
        .collect();
    assert_eq!(rook, vec![(4, 4), (3, 4), (2, 4), (1, 4), (0, 4), (6, 4)]);
}

#[test]
fn a_side_in_check_must_answer_it() {
    let mut board = EMPTY;
    board[7][4] = 1;
    board[5][0] = 3;
    board[0][4] = -3;
    board[0][7] = -1;
    let state = state_of(board);
    assert_eq!(king_is_checked(&state, Color::White), Ok(true));
    assert_eq!(king_is_checked(&state, Color::Black), Ok(false));
    let moves = get_possible_moves(&state, Color::White, false).unwrap();
    let expected: Vec<Move> = vec![
        ((5, 0), (5, 4)),
        ((7, 4), (7, 5)),
        ((7, 4), (7, 3)),
        ((7, 4), (6, 5)),
        ((7, 4), (6, 3)),
    ];
    assert_eq!(moves, expected);
    let (next, _) =
        next_state(&state, Color::White, MoveStruct::Normal(((5, 0), (5, 4)))).unwrap();
    assert_eq!(king_is_checked(&next, Color::White), Ok(false));
}

#[test]
fn no_legal_move_of_another_piece_leaves_the_king_attacked() {
    let mut boards: Vec<Board> = vec![DEFAULT_BOARD];
    let mut board = EMPTY;
    board[7][4] = 1;
    board[6][3] = 6;
    board[6][4] = 2;
    board[5][5] = 5;
    board[0][4] = -3;
    board[3][0] = -4;
    board[2][7] = -2;
    board[0][0] = -1;
    boards.push(board);
    for board in boards {
        for player in [Color::White, Color::Black] {
            let state = state_of(board);
            let map_before = get_possible_moves(&state, player, false).unwrap();
            for mv in map_before {
                let king = if player == Color::White { 1 } else { -1 };
                if state.board[(mv.0).0 as usize][(mv.0).1 as usize] == king {
                    continue;
                }
                let (next, _) = next_state(&state, player, MoveStruct::Normal(mv)).unwrap();
                assert_eq!(king_is_checked(&next, player), Ok(false));
                let other = if player == Color::White { Color::Black } else { Color::White };
                let attacked = get_squares_under_attack_by_player(&next, other).unwrap();
                for rank in 0..8 {
                    for file in 0..8 {
                        if next.board[rank][file] == king {
                            assert!(!attacked.contains_key(&(rank * 8 + file)));
                        }
                    }
                }
            }
        }
    }
}

#[test]
fn a_king_may_step_back_along_the_ray_that_checks_it() {
    let mut board = EMPTY;
    board[6][4] = 1;
    board[0][4] = -3;
    board[0][0] = -1;
    let state = state_of(board);
    let moves = get_possible_moves(&state, Color::White, false).unwrap();
    assert!(moves.contains(&((6, 4), (7, 4))));
    assert!(!moves.contains(&((6, 4), (5, 4))));
}

#[test]
fn the_check_of_a_move_fails_on_an_empty_origin() {
    let state = state_of(DEFAULT_BOARD);
    assert_eq!(
        move_leaves_king_checked(&state, Color::White, ((4, 4), (3, 4))),
        Err(ChessError::IllegalMove)
    );
}

#[test]
fn a_side_without_a_king_is_never_in_check() {
    let mut board = EMPTY;
    board[0][4] = -3;
    board[7][7] = 3;
    let state = state_of(board);
    assert_eq!(king_is_checked(&state, Color::White), Ok(false));
    assert_eq!(king_is_checked(&state, Color::Black), Ok(false));
}

#[test]
fn update_player_king_checked_reads_the_given_map() {
    let mut state = lone(1, 7, 4);
    let mut map: HashMap<usize, bool> = HashMap::new();
    state.update_player_king_checked(Color::White, &map);
    assert!(!state.white_king_is_checked);
    map.insert(60, true);
    state.update_player_king_checked(Color::White, &map);
    assert!(state.white_king_is_checked);
    assert!(!state.black_king_is_checked);
    state.update_player_king_checked(Color::Black, &map);
    assert!(!state.black_king_is_checked);
    assert!(state.white_king_is_checked);
    let mut elsewhere: HashMap<usize, bool> = HashMap::new();
    elsewhere.insert(59, true);
    state.update_player_king_checked(Color::White, &elsewhere);
    assert!(!state.white_king_is_checked);
}

#[test]
fn boards_are_checked_against_the_catalog() {
    assert!(board_is_valid(&DEFAULT_BOARD));
    assert!(board_is_valid(&EMPTY));
    let mut board = DEFAULT_BOARD;
    board[3][3] = 7;
    assert!(!board_is_valid(&board));
    board[3][3] = -7;
    assert!(!board_is_valid(&board));
    board[3][3] = -6;
    assert!(board_is_valid(&board));
    assert!(piece_is_on_board(&DEFAULT_BOARD, 1));
    assert!(piece_is_on_board(&DEFAULT_BOARD, -2));
    assert!(!piece_is_on_board(&EMPTY, 1));
}
