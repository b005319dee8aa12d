use gym_chess::{evaluate, get_color, get_mobility, get_value, Board, Color, State, DEFAULT_BOARD};

const EMPTY: Board = [[0; 8]; 8];

fn state_of(board: Board) -> State {
    State::new(board, "WHITE", false, false, false, false).unwrap()
}

#[test]
fn weights_of_the_pieces() {
    let weights = [(6, 100), (5, 300), (4, 325), (3, 500), (2, 900), (1, 20000), (0, 0)];
    for (id, weight) in weights {
        assert_eq!(get_value(id), weight);
        assert_eq!(get_value(-id), weight);
    }
    assert_eq!(get_value(7), 0);
    assert_eq!(get_value(-9), 0);
}

#[test]
fn sides_of_the_pieces() {
    assert_eq!(get_color(3), Some(Color::White));
    assert_eq!(get_color(-3), Some(Color::Black));
    assert_eq!(get_color(0), None);
}

#[test]
fn the_initial_position_scores_its_pawn_mobility() {
    let state = state_of(DEFAULT_BOARD);
    assert_eq!(evaluate(&state, Color::White), 22);
    assert_eq!(evaluate(&state, Color::Black), 22);
}

#[test]
fn an_empty_board_scores_nothing() {
    let state = state_of(EMPTY);
    assert_eq!(evaluate(&state, Color::White), 0);
    assert_eq!(evaluate(&state, Color::Black), 0);
}

#[test]
fn a_lone_centre_pawn() {
    let mut board = EMPTY;
    board[4][3] = 6;
    let state = state_of(board);
    // weight 100, two ranks from home, centre 10, eight free neighbours
    assert_eq!(evaluate(&state, Color::White), 100 + 2 + 10 + 8);
    assert_eq!(evaluate(&state, Color::Black), -100 - 2 - 10);
}

#[test]
fn pawns_count_their_distance_from_home() {
    for (rank, white, black) in [(5, 1, 4), (4, 2, 3), (3, 3, 2), (2, 4, 1)] {
        let mut board = EMPTY;
        board[rank][0] = 6;
        let state = state_of(board);
        assert_eq!(evaluate(&state, Color::White), 100 + white + 5);
        let mut board = EMPTY;
        board[rank][0] = -6;
        let state = state_of(board);
        assert_eq!(evaluate(&state, Color::Black), 100 + black + 5);
        assert_eq!(evaluate(&state, Color::White), -100 - black);
    }
}

#[test]
fn pawns_near_either_edge_count_no_distance() {
    for rank in [0, 1, 6, 7] {
        let mut board = EMPTY;
        board[rank][0] = 6;
        let state = state_of(board);
        let neighbours = if rank == 0 || rank == 7 { 3 } else { 5 };
        assert_eq!(evaluate(&state, Color::White), 100 + neighbours);
    }
}

#[test]
fn every_piece_counts_for_its_owner_and_against_the_other() {
    let mut board = EMPTY;
    board[0][0] = 3;
    board[7][7] = -2;
    let state = state_of(board);
    assert_eq!(evaluate(&state, Color::White), 500 - 900 + 3);
    assert_eq!(evaluate(&state, Color::Black), 900 - 500 + 3);
}

#[test]
fn neighbours_of_the_own_side_are_not_free() {
    let mut board = EMPTY;
    board[4][4] = 5;
    board[3][3] = 6;
    board[5][5] = -6;
    let state = state_of(board);
    assert_eq!(get_mobility(5, &state, (4, 4)), 7);
    assert_eq!(get_mobility(-5, &state, (4, 4)), 7);
    assert_eq!(get_mobility(5, &state, (0, 0)), 3);
    assert_eq!(get_mobility(5, &state, (0, 3)), 5);
    assert_eq!(get_mobility(6, &state, (4, 3)), 6);
}
