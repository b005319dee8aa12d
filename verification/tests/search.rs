use gym_chess::{
    evaluate, get_all_possible_moves, minimax, next_state, Board, Castle, ChessError, Color, Move,
    MoveStruct, State, _minimax, DEFAULT_BOARD,
};

const EMPTY: Board = [[0; 8]; 8];

fn state_of(board: Board, player: &str) -> State {
    State::new(board, player, true, true, true, true).unwrap()
}

fn other(player: Color) -> Color {
    match player {
        Color::White => Color::Black,
        Color::Black => Color::White,
    }
}

fn everything(state: &State, player: Color) -> Vec<MoveStruct> {
    let (moves, castles): (Vec<Move>, Vec<Castle>) =
        get_all_possible_moves(state, player, false).unwrap();
    let mut all: Vec<MoveStruct> = moves.into_iter().map(MoveStruct::Normal).collect();
    all.extend(castles.into_iter().map(MoveStruct::Castle));
    all
}

// Minimax without any cut-off, to hold the search against.
fn plain_value(state: &State, player: Color, depth: u32, max: Color) -> isize {
    let all = everything(state, player);
    if depth == 0 || all.is_empty() {
        let score = evaluate(state, player);
        return if player == max { score } else { -score };
    }
    let values = all.iter().map(|mv| {
        let (next, _) = next_state(state, player, *mv).unwrap();
        plain_value(&next, other(player), depth - 1, max)
    });
    if player == max {
        values.max().unwrap()
    } else {
        values.min().unwrap()
    }
}

fn plain_best(state: &State, player: Color, depth: u32) -> (isize, Option<MoveStruct>) {
    let all = everything(state, player);
    if depth == 0 || all.is_empty() {
        return (plain_value(state, player, depth, player), None);
    }
    let mut best: Option<(isize, MoveStruct)> = None;
    for mv in all {
        let (next, _) = next_state(state, player, mv).unwrap();
        let value = plain_value(&next, other(player), depth - 1, player);
        match best {
            Some((so_far, _)) if value <= so_far => {}
            _ => best = Some((value, mv)),
        }
    }
    let (value, mv) = best.unwrap();
    (value, Some(mv))
}

fn skirmish() -> Board {
    let mut board = EMPTY;
    board[7][4] = 1;
    board[0][4] = -1;
    board[6][0] = 6;
    board[4][3] = 6;
    board[3][4] = -6;
    board[1][7] = -6;
    board[5][2] = 5;
    board[2][5] = -4;
    board[7][0] = 3;
    board[0][7] = -3;
    board
}

#[test]
fn depth_zero_returns_the_static_score_and_no_move() {
    let state = state_of(DEFAULT_BOARD, "WHITE");
    let (score, best) = minimax(&state, 0, Color::White).unwrap();
    assert_eq!(score, evaluate(&state, Color::White));
    assert_eq!(score, 22);
    assert_eq!(best, None);
}

#[test]
fn depth_one_picks_the_arg_max_of_the_one_ply_scores() {
    for (board, player) in [
        (DEFAULT_BOARD, Color::White),
        (DEFAULT_BOARD, Color::Black),
        (skirmish(), Color::White),
        (skirmish(), Color::Black),
    ] {
        let state = state_of(board, "WHITE");
        let before = evaluate(&state, player);
        let mut best: Option<(isize, MoveStruct)> = None;
        for mv in everything(&state, player) {
            let (next, _) = next_state(&state, player, mv).unwrap();
            let delta = -evaluate(&next, other(player)) - before;
            match best {
                Some((so_far, _)) if delta <= so_far => {}
                _ => best = Some((delta, mv)),
            }
        }
        let (delta, mv) = best.unwrap();
        let (score, found) = minimax(&state, 1, player).unwrap();
        assert_eq!(found, Some(mv));
        assert_eq!(score, delta + before);
    }
}

#[test]
fn depth_one_takes_the_hanging_rook() {
    let mut board = EMPTY;
    board[7][4] = 1;
    board[0][0] = -1;
    board[4][1] = 3;
    board[4][6] = -3;
    let state = state_of(board, "WHITE");
    let (_, best) = minimax(&state, 1, Color::White).unwrap();
    assert_eq!(best, Some(MoveStruct::Normal(((4, 1), (4, 6)))));
}

#[test]
fn the_search_agrees_with_plain_minimax_at_depth_two() {
    for player in [Color::White, Color::Black] {
        let state = state_of(DEFAULT_BOARD, "WHITE");
        assert_eq!(minimax(&state, 2, player).unwrap(), plain_best(&state, player, 2));
    }
}

#[test]
fn the_search_agrees_with_plain_minimax_on_a_skirmish() {
    for player in [Color::White, Color::Black] {
        for depth in 0..4 {
            let state = state_of(skirmish(), "WHITE");
            assert_eq!(
                minimax(&state, depth, player).unwrap(),
                plain_best(&state, player, depth)
            );
        }
    }
}

#[test]
fn the_search_agrees_with_plain_minimax_where_castles_are_open() {
    let mut board = EMPTY;
    board[7][4] = 1;
    board[7][7] = 3;
    board[0][4] = -1;
    board[0][0] = -3;
    board[1][3] = -6;
    board[6][5] = 6;
    for player in [Color::White, Color::Black] {
        for depth in 1..4 {
            let state = state_of(board, "WHITE");
            assert_eq!(
                minimax(&state, depth, player).unwrap(),
                plain_best(&state, player, depth)
            );
        }
    }
}

#[test]
fn a_narrow_window_bounds_the_score() {
    let state = state_of(skirmish(), "WHITE");
    let value = plain_value(&state, Color::White, 2, Color::White);
    let (score, _) = _minimax(&state, Color::White, 2, value + 5, value + 50, Color::White).unwrap();
    assert!(score <= value + 5);
    let (score, _) = _minimax(&state, Color::White, 2, value - 50, value - 5, Color::White).unwrap();
    assert!(score >= value - 5);
    let (score, best) =
        _minimax(&state, Color::White, 2, value - 1, value + 1, Color::White).unwrap();
    assert_eq!(score, value);
    assert_eq!(best, plain_best(&state, Color::White, 2).1);
}

#[test]
fn the_minimising_side_returns_no_move() {
    let state = state_of(skirmish(), "WHITE");
    let (score, best) =
        _minimax(&state, Color::Black, 2, isize::MIN, isize::MAX, Color::White).unwrap();
    assert_eq!(best, None);
    assert_eq!(score, plain_value(&state, Color::Black, 2, Color::White));
}

#[test]
fn a_side_that_cannot_move_is_a_leaf() {
    let mut board = EMPTY;
    board[0][0] = -1;
    board[1][2] = 2;
    board[2][1] = 1;
    let state = state_of(board, "BLACK");
    assert!(everything(&state, Color::Black).is_empty());
    let (score, best) = minimax(&state, 3, Color::Black).unwrap();
    assert_eq!(best, None);
    assert_eq!(score, evaluate(&state, Color::Black));
}

#[test]
fn the_search_fails_where_kings_touch() {
    let mut board = EMPTY;
    board[4][4] = 1;
    board[4][5] = -1;
    let state = state_of(board, "WHITE");
    assert_eq!(
        minimax(&state, 2, Color::White).err(),
        Some(ChessError::InternalInvariant)
    );
    assert_eq!(
        minimax(&state, 0, Color::White).err(),
        Some(ChessError::InternalInvariant)
    );
}

fn first_line(state: &State, player: Color, depth: u32, max: Color) -> isize {
    let all = everything(state, player);
    if depth == 0 || all.is_empty() {
        let score = evaluate(state, player);
        return if player == max { score } else { -score };
    }
    let (next, _) = next_state(state, player, all[0]).unwrap();
    first_line(&next, other(player), depth - 1, max)
}

#[test]
fn a_leaf_returns_its_value_whatever_the_window() {
    let state = state_of(skirmish(), "WHITE");
    let white = evaluate(&state, Color::White);
    let black = evaluate(&state, Color::Black);
    let windows = [
        (isize::MIN, isize::MAX),
        (white + 10, white + 20),
        (white - 20, white - 10),
        (white + 10, white - 10),
        (0, 0),
        (isize::MAX, isize::MIN),
    ];
    for (alpha, beta) in windows {
        assert_eq!(
            _minimax(&state, Color::White, 0, alpha, beta, Color::White).unwrap(),
            (white, None)
        );
        assert_eq!(
            _minimax(&state, Color::Black, 0, alpha, beta, Color::White).unwrap(),
            (-black, None)
        );
    }
    let mut board = EMPTY;
    board[0][0] = -1;
    board[1][2] = 2;
    board[2][1] = 1;
    let stuck = state_of(board, "BLACK");
    let value = evaluate(&stuck, Color::Black);
    for (alpha, beta) in windows {
        assert_eq!(
            _minimax(&stuck, Color::Black, 3, alpha, beta, Color::Black).unwrap(),
            (value, None)
        );
        assert_eq!(
            _minimax(&stuck, Color::Black, 3, alpha, beta, Color::White).unwrap(),
            (-value, None)
        );
    }
}

#[test]
fn a_window_without_room_follows_the_first_moves() {
    let state = state_of(skirmish(), "WHITE");
    for depth in 1..4 {
        for player in [Color::White, Color::Black] {
            let line = first_line(&state, player, depth, Color::White);
            let first = everything(&state, player)[0];
            for (alpha, beta) in [(line - 1, line - 1), (line, line), (line + 7, line - 7)] {
                let (score, best) =
                    _minimax(&state, player, depth, alpha, beta, Color::White).unwrap();
                assert_eq!(score, line);
                let expected =
                    if player == Color::White && line > alpha { Some(first) } else { None };
                assert_eq!(best, expected);
            }
        }
    }
}
