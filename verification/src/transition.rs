//! Applying a move: from a state and a move to the next state and a reward.

use vstd::prelude::*;
use crate::board::{
    Board, board_valid, cell, get_other_player, lemma_put_cell, Move, MoveStruct, on_board,
    piece_at, put, set_piece, Square,
};
use crate::error::ChessError;
use crate::pieces::{
    Castle, Color, CONVERT_PAWN_TO_QUEEN_REWARD, EMPTY_SQUARE_ID, KING_ID, PAWN_ID, piece_color,
    piece_type_of, piece_type, piece_value_of, piece_value, PieceType, ROOK_ID, valid_piece_id,
};
use crate::state::State;

verus! {

/// A pawn `piece` that arrives on `to` has reached the far rank of its side:
/// rank 0 for a white pawn, rank 7 for a black one.
pub open spec fn promotes(piece: isize, to: Square) -> bool {
    (piece == 6 && to.0 == 0) || (piece == -6 && to.0 == 7)
}

/// What stands on `to` once `piece` has arrived there: a queen of its side if
/// it is a pawn on its far rank, else the piece itself.
pub open spec fn arriving_piece(piece: isize, to: Square) -> isize {
    if promotes(piece, to) {
        if piece > 0 {
            2isize
        } else {
            -2isize
        }
    } else {
        piece
    }
}

/// The grid after the piece on `mv.0` has gone to `mv.1`.
pub open spec fn board_after_move(b: Board, mv: Move) -> Board {
    put(put(b, mv.0, 0), mv.1, arriving_piece(cell(b, mv.0), mv.1))
}

/// The grid after a castle: king and rook stand on their castled squares and
/// the squares they left, or passed over on the queen's side, are empty.
pub open spec fn board_after_castle(b: Board, castle: Castle) -> Board {
    match castle {
        Castle::KingSideWhite => put(
            put(put(put(b, (7, 4), 0), (7, 5), 3), (7, 6), 1),
            (7, 7),
            0,
        ),
        Castle::QueenSideWhite => put(
            put(put(put(put(b, (7, 0), 0), (7, 1), 0), (7, 2), 1), (7, 3), 3),
            (7, 4),
            0,
        ),
        Castle::KingSideBlack => put(
            put(put(put(b, (0, 4), 0), (0, 5), -3isize), (0, 6), -1isize),
            (0, 7),
            0,
        ),
        Castle::QueenSideBlack => put(
            put(put(put(put(b, (0, 0), 0), (0, 1), 0), (0, 2), -1isize), (0, 3), -3isize),
            (0, 4),
            0,
        ),
    }
}

/// The grid after `mv`.
pub open spec fn board_after(b: Board, mv: MoveStruct) -> Board {
    match mv {
        MoveStruct::Normal(m) => board_after_move(b, m),
        MoveStruct::Castle(c) => board_after_castle(b, c),
    }
}

/// What `mv` earns: the value of what stood on the square of arrival, and ten
/// more for a pawn that becomes a queen. A castle earns nothing.
pub open spec fn reward_of(b: Board, mv: MoveStruct) -> int {
    match mv {
        MoveStruct::Normal(m) => piece_value_of(cell(b, m.1) as int) + if promotes(
            cell(b, m.0),
            m.1,
        ) {
            10int
        } else {
            0int
        },
        MoveStruct::Castle(_) => 0,
    }
}

/// Whether `mv`, made by `player`, ends the right of `side` to castle on the
/// king's side: a castle of `side` does, and so does a move that `side`
/// makes with a king, or with a rook that leaves file 7.
pub open spec fn ends_king_side(b: Board, player: Color, mv: MoveStruct, side: Color) -> bool {
    match mv {
        MoveStruct::Normal(m) => player == side && (piece_type_of(cell(b, m.0) as int)
            == PieceType::King || (piece_type_of(cell(b, m.0) as int) == PieceType::Rook && m.0.1
            == 7)),
        MoveStruct::Castle(c) => c.side() == side,
    }
}

/// As `ends_king_side`, for the queen's side and a rook that leaves file 0.
pub open spec fn ends_queen_side(b: Board, player: Color, mv: MoveStruct, side: Color) -> bool {
    match mv {
        MoveStruct::Normal(m) => player == side && (piece_type_of(cell(b, m.0) as int)
            == PieceType::King || (piece_type_of(cell(b, m.0) as int) == PieceType::Rook && m.0.1
            == 0)),
        MoveStruct::Castle(c) => c.side() == side,
    }
}

/// The state after `player` has made `mv`. The grid changes, rights to castle
/// may end, and the opponent of `player` is to move. The flags that say
/// whether a king is on the grid or in check are carried over as they are.
pub open spec fn state_after(s: State, player: Color, mv: MoveStruct) -> State {
    State {
        board: board_after(s.board, mv),
        current_player: player.opponent(),
        white_king_on_board: s.white_king_on_board,
        black_king_on_board: s.black_king_on_board,
        white_king_castle_is_possible: s.white_king_castle_is_possible && !ends_king_side(
            s.board,
            player,
            mv,
            Color::White,
        ),
        white_queen_castle_is_possible: s.white_queen_castle_is_possible && !ends_queen_side(
            s.board,
            player,
            mv,
            Color::White,
        ),
        black_king_castle_is_possible: s.black_king_castle_is_possible && !ends_king_side(
            s.board,
            player,
            mv,
            Color::Black,
        ),
        black_queen_castle_is_possible: s.black_queen_castle_is_possible && !ends_queen_side(
            s.board,
            player,
            mv,
            Color::Black,
        ),
        white_king_is_checked: s.white_king_is_checked,
        black_king_is_checked: s.black_king_is_checked,
    }
}

/// `mv` can be applied to `b`: a castle always, a relocation when both its
/// squares are on the grid and a piece stands on its origin.
pub open spec fn applicable(b: Board, mv: MoveStruct) -> bool {
    match mv {
        MoveStruct::Normal(m) => on_board(m.0) && on_board(m.1) && cell(b, m.0) != 0,
        MoveStruct::Castle(_) => true,
    }
}

/// A move leaves a valid grid valid.
pub proof fn lemma_board_after_valid(b: Board, mv: MoveStruct)
    requires
        board_valid(b),
        mv matches MoveStruct::Normal(m) ==> on_board(m.0) && on_board(m.1),
    ensures
        board_valid(board_after(b, mv)),
{
    assert forall|sq: Square| on_board(sq) implies valid_piece_id(
        #[trigger] cell(board_after(b, mv), sq) as int,
    ) by {
        assert(valid_piece_id(cell(b, sq) as int));
        match mv {
            MoveStruct::Normal(m) => {
                assert(valid_piece_id(cell(b, m.0) as int));
                lemma_put_cell(b, m.0, 0, sq);
                lemma_put_cell(put(b, m.0, 0), m.1, arriving_piece(cell(b, m.0), m.1), sq);
            },
            MoveStruct::Castle(c) => {
                lemma_castle_cells(b, c, sq);
            },
        }
    }
}

/// What a castle leaves on each square.
pub proof fn lemma_castle_cells(b: Board, castle: Castle, sq: Square)
    requires
        on_board(sq),
    ensures
        cell(board_after_castle(b, castle), sq) == castle_cell(b, castle, sq),
{
    match castle {
        Castle::KingSideWhite => {
            let b1 = put(b, (7, 4), 0);
            let b2 = put(b1, (7, 5), 3);
            let b3 = put(b2, (7, 6), 1);
            lemma_put_cell(b, (7, 4), 0, sq);
            lemma_put_cell(b1, (7, 5), 3, sq);
            lemma_put_cell(b2, (7, 6), 1, sq);
            lemma_put_cell(b3, (7, 7), 0, sq);
        },
        Castle::QueenSideWhite => {
            let b1 = put(b, (7, 0), 0);
            let b2 = put(b1, (7, 1), 0);
            let b3 = put(b2, (7, 2), 1);
            let b4 = put(b3, (7, 3), 3);
            lemma_put_cell(b, (7, 0), 0, sq);
            lemma_put_cell(b1, (7, 1), 0, sq);
            lemma_put_cell(b2, (7, 2), 1, sq);
            lemma_put_cell(b3, (7, 3), 3, sq);
            lemma_put_cell(b4, (7, 4), 0, sq);
        },
        Castle::KingSideBlack => {
            let b1 = put(b, (0, 4), 0);
            let b2 = put(b1, (0, 5), -3isize);
            let b3 = put(b2, (0, 6), -1isize);
            lemma_put_cell(b, (0, 4), 0, sq);
            lemma_put_cell(b1, (0, 5), -3isize, sq);
            lemma_put_cell(b2, (0, 6), -1isize, sq);
            lemma_put_cell(b3, (0, 7), 0, sq);
        },
        Castle::QueenSideBlack => {
            let b1 = put(b, (0, 0), 0);
            let b2 = put(b1, (0, 1), 0);
            let b3 = put(b2, (0, 2), -1isize);
            let b4 = put(b3, (0, 3), -3isize);
            lemma_put_cell(b, (0, 0), 0, sq);
            lemma_put_cell(b1, (0, 1), 0, sq);
            lemma_put_cell(b2, (0, 2), -1isize, sq);
            lemma_put_cell(b3, (0, 3), -3isize, sq);
            lemma_put_cell(b4, (0, 4), 0, sq);
        },
    }
}

/// What stands on `sq` after `castle`, square by square.
pub open spec fn castle_cell(b: Board, castle: Castle, sq: Square) -> isize {
    let rank: isize = if castle.side() == Color::White {
        7
    } else {
        0
    };
    let king: isize = castle.side().king_id();
    let rook: isize = if castle.side() == Color::White {
        3isize
    } else {
        -3isize
    };
    if sq.0 != rank {
        cell(b, sq)
    } else {
        match castle {
            Castle::KingSideWhite | Castle::KingSideBlack => if sq.1 == 4 || sq.1 == 7 {
                0
            } else if sq.1 == 5 {
                rook
            } else if sq.1 == 6 {
                king
            } else {
                cell(b, sq)
            },
            Castle::QueenSideWhite | Castle::QueenSideBlack => if sq.1 == 0 || sq.1 == 1 || sq.1
                == 4 {
                0
            } else if sq.1 == 2 {
                king
            } else if sq.1 == 3 {
                rook
            } else {
                cell(b, sq)
            },
        }
    }
}

/// The state after `player` has taken the piece on the origin of
/// `normal_move` to its square of arrival, and what the move earns.
fn relocate(state: &State, player: Color, normal_move: Move) -> (made: (State, isize))
    requires
        on_board(normal_move.0),
        on_board(normal_move.1),
        cell(state.board, normal_move.0) != 0,
    ensures
        made.0 == state_after(*state, player, MoveStruct::Normal(normal_move)),
        made.1 == reward_of(state.board, MoveStruct::Normal(normal_move)),
        0 <= made.1 <= 20,
{
    let mut new_state = *state;
    let from = normal_move.0;
    let to = normal_move.1;
    let piece_to_move = piece_at(&new_state.board, from);
    let captured_piece = piece_at(&new_state.board, to);
    let mut reward: isize = piece_value(captured_piece);

    // A pawn on its far rank becomes a queen.
    let mut arriving = piece_to_move;
    if (piece_to_move == PAWN_ID && to.0 == 0) || (piece_to_move == -PAWN_ID && to.0 == 7) {
        arriving = piece_color(piece_to_move).queen();
        reward += CONVERT_PAWN_TO_QUEEN_REWARD;
    }
    set_piece(&mut new_state.board, from, EMPTY_SQUARE_ID);
    set_piece(&mut new_state.board, to, arriving);

    // A king or a rook that has moved ends rights to castle.
    let piece_type = piece_type(piece_to_move);
    if piece_type == PieceType::King {
        if player == Color::White {
            new_state.white_king_castle_is_possible = false;
            new_state.white_queen_castle_is_possible = false;
        } else {
            new_state.black_king_castle_is_possible = false;
            new_state.black_queen_castle_is_possible = false;
        }
    } else if piece_type == PieceType::Rook {
        if from.1 == 0 {
            if player == Color::White {
                new_state.white_queen_castle_is_possible = false;
            } else {
                new_state.black_queen_castle_is_possible = false;
            }
        } else if from.1 == 7 {
            if player == Color::White {
                new_state.white_king_castle_is_possible = false;
            } else {
                new_state.black_king_castle_is_possible = false;
            }
        }
    }
    new_state.current_player = get_other_player(player);
    (new_state, reward)
}

/// The grid with king and rook on their castled squares.
fn castle_board(board: &Board, castle: Castle) -> (castled: Board)
    ensures
        castled == board_after_castle(*board, castle),
{
    let mut castled = *board;
    match castle {
        Castle::KingSideWhite => {
            set_piece(&mut castled, (7, 4), EMPTY_SQUARE_ID);
            set_piece(&mut castled, (7, 5), ROOK_ID);
            set_piece(&mut castled, (7, 6), KING_ID);
            set_piece(&mut castled, (7, 7), EMPTY_SQUARE_ID);
        },
        Castle::QueenSideWhite => {
            set_piece(&mut castled, (7, 0), EMPTY_SQUARE_ID);
            set_piece(&mut castled, (7, 1), EMPTY_SQUARE_ID);
            set_piece(&mut castled, (7, 2), KING_ID);
            set_piece(&mut castled, (7, 3), ROOK_ID);
            set_piece(&mut castled, (7, 4), EMPTY_SQUARE_ID);
        },
        Castle::KingSideBlack => {
            set_piece(&mut castled, (0, 4), EMPTY_SQUARE_ID);
            set_piece(&mut castled, (0, 5), -ROOK_ID);
            set_piece(&mut castled, (0, 6), -KING_ID);
            set_piece(&mut castled, (0, 7), EMPTY_SQUARE_ID);
        },
        Castle::QueenSideBlack => {
            set_piece(&mut castled, (0, 0), EMPTY_SQUARE_ID);
            set_piece(&mut castled, (0, 1), EMPTY_SQUARE_ID);
            set_piece(&mut castled, (0, 2), -KING_ID);
            set_piece(&mut castled, (0, 3), -ROOK_ID);
            set_piece(&mut castled, (0, 4), EMPTY_SQUARE_ID);
        },
    }
    castled
}

/// The state after `player` has made `castle`.
fn castle_state(state: &State, player: Color, castle: Castle) -> (made: State)
    ensures
        made == state_after(*state, player, MoveStruct::Castle(castle)),
{
    let mut new_state = *state;
    new_state.board = castle_board(&state.board, castle);
    match castle {
        Castle::KingSideWhite | Castle::QueenSideWhite => {
            new_state.white_king_castle_is_possible = false;
            new_state.white_queen_castle_is_possible = false;
        },
        Castle::KingSideBlack | Castle::QueenSideBlack => {
            new_state.black_king_castle_is_possible = false;
            new_state.black_queen_castle_is_possible = false;
        },
    }
    new_state.current_player = get_other_player(player);
    new_state
}

/// Applies `move_struct`, made by `player`, to `state`.
///
/// Fails, and only then, on a relocation whose origin holds no piece.
/// Otherwise gives the next state and the reward of the move.
pub fn next_state(state: &State, player: Color, move_struct: MoveStruct) -> (outcome: Result<
    (State, isize),
    ChessError,
>)
    requires
        move_struct matches MoveStruct::Normal(m) ==> on_board(m.0) && on_board(m.1),
    ensures
        outcome is Ok <==> applicable(state.board, move_struct),
        outcome matches Err(e) ==> e == ChessError::IllegalMove,
        outcome matches Ok((next, reward)) ==> {
            &&& next == state_after(*state, player, move_struct)
            &&& reward == reward_of(state.board, move_struct)
            &&& 0 <= reward <= 20
        },
{
    match move_struct {
        MoveStruct::Normal(normal_move) => {
            if piece_at(&state.board, normal_move.0) == EMPTY_SQUARE_ID {
                return Err(ChessError::IllegalMove);
            }
            Ok(relocate(state, player, normal_move))
        },
        MoveStruct::Castle(castle) => Ok((castle_state(state, player, castle), 0)),
    }
}

/// What a move leaves on each square.
pub proof fn lemma_move_cells(b: Board, mv: Move, sq: Square)
    requires
        on_board(mv.0),
        on_board(mv.1),
        on_board(sq),
    ensures
        cell(board_after_move(b, mv), sq) == if sq == mv.1 {
            arriving_piece(cell(b, mv.0), mv.1)
        } else if sq == mv.0 {
            0
        } else {
            cell(b, sq)
        },
{
    lemma_put_cell(b, mv.0, 0, sq);
    lemma_put_cell(put(b, mv.0, 0), mv.1, arriving_piece(cell(b, mv.0), mv.1), sq);
}

} // verus!
