//! The 8x8 grid, its squares and the moves between them.
//!
//! A square is a `(rank, file)` pair with both parts in `0..=7`. Rank 0 is
//! Black's back rank and rank 7 White's, so White's pawns walk towards rank 0.

use vstd::prelude::*;
use vstd::array::spec_array_update;
use crate::pieces::{Castle, Color, PAWN_ID, piece_color_of, valid_piece_id};

verus! {

/// The grid: eight ranks of eight squares, each holding a piece identifier.
pub type Board = [[isize; 8]; 8];

/// A square as `(rank, file)`.
pub type Square = (isize, isize);

/// A relocation as `(from, to)`.
pub type Move = (Square, Square);

/// The position from which a game starts.
pub const DEFAULT_BOARD: Board = [
    [-3, -5, -4, -2, -1, -4, -5, -3],
    [-6, -6, -6, -6, -6, -6, -6, -6],
    [0, 0, 0, 0, 0, 0, 0, 0],
    [0, 0, 0, 0, 0, 0, 0, 0],
    [0, 0, 0, 0, 0, 0, 0, 0],
    [0, 0, 0, 0, 0, 0, 0, 0],
    [6, 6, 6, 6, 6, 6, 6, 6],
    [3, 5, 4, 2, 1, 4, 5, 3],
];

/// Either a relocation of one piece or one of the four castles.
#[derive(Debug, Copy, Clone, PartialEq, Eq)]
pub enum MoveStruct {
    Normal(Move),
    Castle(Castle),
}

impl MoveStruct {
    /// The relocation `normal_move` as a move.
    pub fn normal(normal_move: Move) -> (boxed: MoveStruct)
        ensures
            boxed == MoveStruct::Normal(normal_move),
    {
        MoveStruct::Normal(normal_move)
    }

    /// The castle `castle` as a move.
    pub fn castle(castle: Castle) -> (boxed: MoveStruct)
        ensures
            boxed == MoveStruct::Castle(castle),
    {
        MoveStruct::Castle(castle)
    }

    /// Whether this move is a castle.
    pub fn is_castle(&self) -> (yes: bool)
        ensures
            yes == (*self is Castle),
    {
        match self {
            MoveStruct::Normal(_) => false,
            MoveStruct::Castle(_) => true,
        }
    }
}

/// `sq` is one of the sixty-four squares.
pub open spec fn on_board(sq: Square) -> bool {
    0 <= sq.0 <= 7 && 0 <= sq.1 <= 7
}

/// The identifier on square `sq`.
pub open spec fn cell(b: Board, sq: Square) -> isize {
    b[sq.0 as int][sq.1 as int]
}

/// The board `b` with `v` written on square `sq`.
pub open spec fn put(b: Board, sq: Square, v: isize) -> Board {
    spec_array_update(b, sq.0 as int, spec_array_update(b[sq.0 as int], sq.1 as int, v))
}

/// Every square holds an identifier of the catalog.
pub open spec fn board_valid(b: Board) -> bool {
    forall|sq: Square| on_board(sq) ==> valid_piece_id(#[trigger] cell(b, sq) as int)
}

/// The number under which the attack map files a square.
pub open spec fn flat(sq: Square) -> usize {
    (sq.0 * 8 + sq.1) as usize
}

/// The square that the scan of the board reaches at step `index`, rank by
/// rank and file by file.
pub open spec fn square_at(index: int) -> Square {
    ((index / 8) as isize, (index % 8) as isize)
}

/// The square `d` away from `sq`.
pub open spec fn shift(sq: Square, d: Square) -> Square {
    ((sq.0 + d.0) as isize, (sq.1 + d.1) as isize)
}

/// A piece of `player` stands on `sq`.
pub open spec fn owned_by(b: Board, player: Color, sq: Square) -> bool {
    cell(b, sq) != 0 && piece_color_of(cell(b, sq) as int) == player
}

/// The king of `player` stands on `sq`.
pub open spec fn king_of(b: Board, player: Color, sq: Square) -> bool {
    cell(b, sq) == player.king_id()
}

/// Some square of the board holds `id`.
pub open spec fn has_piece(b: Board, id: isize) -> bool {
    exists|sq: Square| on_board(sq) && #[trigger] cell(b, sq) == id
}

/// Writing on one square changes that square and no other.
pub proof fn lemma_put_cell(b: Board, sq: Square, v: isize, at: Square)
    requires
        on_board(sq),
        on_board(at),
    ensures
        cell(put(b, sq, v), at) == if at == sq {
            v
        } else {
            cell(b, at)
        },
{
    broadcast use vstd::array::group_array_axioms;

}

/// The position from which a game starts holds identifiers of the catalog
/// only.
pub proof fn lemma_default_board_valid()
    ensures
        board_valid(DEFAULT_BOARD),
{
    assert forall|sq: Square| on_board(sq) implies valid_piece_id(
        #[trigger] cell(DEFAULT_BOARD, sq) as int,
    ) by {
        let row = DEFAULT_BOARD[sq.0 as int];
        assert(-6 <= row[sq.1 as int] <= 6);
    }
}

/// The identifier on `square`.
pub fn piece_at(board: &Board, square: Square) -> (id: isize)
    requires
        on_board(square),
    ensures
        id == cell(*board, square),
{
    board[square.0 as usize][square.1 as usize]
}

/// Writes `id` on `square`.
pub fn set_piece(board: &mut Board, square: Square, id: isize)
    requires
        on_board(square),
    ensures
        *final(board) == put(*old(board), square, id),
{
    broadcast use vstd::array::group_array_axioms;

    board[square.0 as usize][square.1 as usize] = id;
    assert(*board =~~= put(*old(board), square, id));
}

/// Whether every square holds an identifier of the catalog.
pub fn board_is_valid(board: &Board) -> (ok: bool)
    ensures
        ok == board_valid(*board),
{
    let mut i: usize = 0;
    while i < 8
        invariant
            i <= 8,
            forall|sq: Square| on_board(sq) && sq.0 < i ==> valid_piece_id(#[trigger] cell(*board, sq) as int),
        decreases 8 - i,
    {
        let mut j: usize = 0;
        while j < 8
            invariant
                i < 8,
                j <= 8,
                forall|sq: Square| on_board(sq) && sq.0 < i ==> valid_piece_id(#[trigger] cell(*board, sq) as int),
                forall|sq: Square| on_board(sq) && sq.0 == i && sq.1 < j ==> valid_piece_id(#[trigger] cell(*board, sq) as int),
            decreases 8 - j,
        {
            let id = board[i][j];
            if id < -PAWN_ID || id > PAWN_ID {
                assert(cell(*board, (i as isize, j as isize)) == id);
                return false;
            }
            j += 1;
        }
        i += 1;
    }
    true
}

/// The opponent of `player`.
pub fn get_other_player(player: Color) -> (other: Color)
    ensures
        other == player.opponent(),
{
    match player {
        Color::White => Color::Black,
        Color::Black => Color::White,
    }
}

/// Whether `square` is one of the sixty-four squares.
pub fn square_is_on_board(square: Square) -> (yes: bool)
    ensures
        yes == on_board(square),
{
    !(square.0 < 0 || square.0 > 7 || square.1 < 0 || square.1 > 7)
}

/// The number under which the attack map files `square`: `8 * rank + file`.
pub fn square_tuple_to_flat(square: Square) -> (index: usize)
    requires
        on_board(square),
    ensures
        index == flat(square),
        index < 64,
{
    (square.0 * 8 + square.1) as usize
}

/// Whether some square of `board` holds `piece_id`.
pub fn piece_is_on_board(board: &Board, piece_id: isize) -> (found: bool)
    ensures
        found == has_piece(*board, piece_id),
{
    let mut i: usize = 0;
    while i < 8
        invariant
            i <= 8,
            forall|sq: Square| on_board(sq) && sq.0 < i ==> #[trigger] cell(*board, sq) != piece_id,
        decreases 8 - i,
    {
        let mut j: usize = 0;
        while j < 8
            invariant
                i < 8,
                j <= 8,
                forall|sq: Square| on_board(sq) && sq.0 < i ==> #[trigger] cell(*board, sq) != piece_id,
                forall|sq: Square| on_board(sq) && sq.0 == i && sq.1 < j ==> #[trigger] cell(*board, sq) != piece_id,
            decreases 8 - j,
        {
            if board[i][j] == piece_id {
                assert(cell(*board, (i as isize, j as isize)) == piece_id);
                return true;
            }
            j += 1;
        }
        i += 1;
    }
    false
}

} // verus!
