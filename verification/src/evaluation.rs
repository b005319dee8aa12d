//! The static evaluation of a position, as the search sees it at its leaves.
//!
//! The score of a grid for a player is a sum over the squares. A piece counts
//! its weight, for the player if it is the player's and against otherwise.
//! A pawn on ranks 2 to 5 counts its distance from the rank its side starts
//! from. A piece on one of the four centre squares counts ten. A piece of the
//! player counts one for each neighbouring square that is empty or held by
//! the opponent. The weights used here are not the rewards of captures.

use vstd::prelude::*;
use crate::board::{Board, cell, on_board, piece_at, shift, Square, square_at};
use crate::movegen::{king_step, king_steps};
use crate::pieces::{Color, PAWN_ID, piece_type_of, piece_type, PieceType};
use crate::state::State;

verus! {

/// The weight of the piece `id` in the evaluation.
pub open spec fn weight_of(id: int) -> int {
    match piece_type_of(id) {
        PieceType::Pawn => 100,
        PieceType::Knight => 300,
        PieceType::Bishop => 325,
        PieceType::Rook => 500,
        PieceType::Queen => 900,
        PieceType::King => 20000,
        PieceType::Empty => 0,
    }
}

/// The side of the piece `id`, if it is a piece.
pub open spec fn color_of(id: int) -> Option<Color> {
    if id > 0 {
        Some(Color::White)
    } else if id < 0 {
        Some(Color::Black)
    } else {
        None
    }
}

/// `+1` for a piece of `player` and `-1` for anything else.
pub open spec fn side_sign(id: int, player: Color) -> int {
    if color_of(id) == Some(player) {
        1
    } else {
        -1
    }
}

/// What a pawn on rank `rank` counts for having advanced: its distance from
/// rank 6 if white, from rank 1 if black.
pub open spec fn advance_of(id: int, rank: int) -> int {
    if id == 6 {
        6 - rank
    } else if id == -6 {
        rank - 1
    } else {
        0
    }
}

/// `sq` is one of the four squares in the middle of the grid.
pub open spec fn is_centre(sq: Square) -> bool {
    (sq.0 == 3 || sq.0 == 4) && (sq.1 == 3 || sq.1 == 4)
}

/// The piece `id` could move to `sq` as far as `sq` goes: it is a square of
/// the grid that is empty or held by the other side.
pub open spec fn is_free_for(b: Board, id: int, sq: Square) -> bool {
    on_board(sq) && (cell(b, sq) == 0 || color_of(cell(b, sq) as int) != color_of(id))
}

/// How many of the first `n` neighbours of `from`, in the order of the steps
/// of a king, are free for the piece `id`.
pub open spec fn mobility_upto(b: Board, id: int, from: Square, n: nat) -> int
    decreases n,
{
    if n == 0 {
        0
    } else {
        mobility_upto(b, id, from, (n - 1) as nat) + if is_free_for(
            b,
            id,
            shift(from, king_steps()[n - 1]),
        ) {
            1int
        } else {
            0int
        }
    }
}

/// How many of the eight neighbours of `from` are free for the piece `id`.
pub open spec fn mobility_of(b: Board, id: int, from: Square) -> int {
    mobility_upto(b, id, from, 8)
}

/// What the square `sq` adds to the score of `player`.
pub open spec fn square_score(b: Board, player: Color, sq: Square) -> int {
    let id = cell(b, sq) as int;
    let sign = side_sign(id, player);
    weight_of(id) * sign + (if 2 <= sq.0 <= 5 {
        advance_of(id, sq.0 as int) * sign
    } else {
        0
    }) + (if id != 0 && is_centre(sq) {
        10 * sign
    } else {
        0
    }) + (if color_of(id) == Some(player) {
        mobility_of(b, id, sq)
    } else {
        0
    })
}

/// What the first `n` squares of the scan add to the score of `player`.
pub open spec fn score_upto(b: Board, player: Color, n: nat) -> int
    decreases n,
{
    if n == 0 {
        0
    } else {
        score_upto(b, player, (n - 1) as nat) + square_score(b, player, square_at(n - 1))
    }
}

/// The score of the grid `b` for `player`.
pub open spec fn evaluation(b: Board, player: Color) -> int {
    score_upto(b, player, 64)
}

/// No score is larger than this, in either direction.
pub open spec fn score_bound() -> int {
    1281408
}

/// Of `n` neighbours at most `n` are free.
pub proof fn lemma_mobility_bounds(b: Board, id: int, from: Square, n: nat)
    ensures
        0 <= mobility_upto(b, id, from, n) <= n,
    decreases n,
{
    if n > 0 {
        lemma_mobility_bounds(b, id, from, (n - 1) as nat);
    }
}

/// No square adds more than a king, a centre bonus, a pawn bonus and eight
/// free neighbours.
pub proof fn lemma_square_score_bounds(b: Board, player: Color, sq: Square)
    requires
        on_board(sq),
    ensures
        -20022 <= square_score(b, player, sq) <= 20022,
{
    lemma_mobility_bounds(b, cell(b, sq) as int, sq, 8);
}

/// The first `n` squares add no more than `n` times what one square may add.
pub proof fn lemma_score_bounds(b: Board, player: Color, n: nat)
    requires
        n <= 64,
    ensures
        -20022 * n <= score_upto(b, player, n) <= 20022 * n,
    decreases n,
{
    if n > 0 {
        lemma_score_bounds(b, player, (n - 1) as nat);
        lemma_square_score_bounds(b, player, square_at(n - 1));
    }
}

/// Every score lies within the bound.
pub proof fn lemma_evaluation_bounds(b: Board, player: Color)
    ensures
        -score_bound() <= evaluation(b, player) <= score_bound(),
{
    lemma_score_bounds(b, player, 64);
}

/// The weight of `piece` in the evaluation.
pub fn get_value(piece: isize) -> (weight: i32)
    ensures
        weight == weight_of(piece as int),
{
    match piece_type(piece) {
        PieceType::Pawn => 100,
        PieceType::Knight => 300,
        PieceType::Bishop => 325,
        PieceType::Rook => 500,
        PieceType::Queen => 900,
        PieceType::King => 20000,
        PieceType::Empty => 0,
    }
}

/// The side of `piece`, if it is a piece.
pub fn get_color(piece: isize) -> (side: Option<Color>)
    ensures
        side == color_of(piece as int),
{
    if piece > 0 {
        Some(Color::White)
    } else if piece < 0 {
        Some(Color::Black)
    } else {
        None
    }
}

/// Whether `a` and `b` are the same side, or both none.
fn same_side(a: Option<Color>, b: Option<Color>) -> (same: bool)
    ensures
        same == (a == b),
{
    match (a, b) {
        (None, None) => true,
        (Some(x), Some(y)) => x == y,
        _ => false,
    }
}

/// How many of the eight neighbours of `position` are empty or held by the
/// other side than that of `piece`.
pub fn get_mobility(piece: isize, state: &State, position: (usize, usize)) -> (mobility: i32)
    requires
        position.0 < 8,
        position.1 < 8,
    ensures
        mobility == mobility_of(
            state.board,
            piece as int,
            (position.0 as isize, position.1 as isize),
        ),
        0 <= mobility <= 8,
{
    let from: Square = (position.0 as isize, position.1 as isize);
    let mut mobility: i32 = 0;
    let mut k: usize = 0;
    while k < 8
        invariant
            k <= 8,
            on_board(from),
            mobility == mobility_upto(state.board, piece as int, from, k as nat),
            0 <= mobility <= k,
        decreases 8 - k,
    {
        let step = king_step(k);
        let square: Square = (from.0 + step.0, from.1 + step.1);
        assert(square == shift(from, king_steps()[k as int]));
        if 0 <= square.0 && square.0 < 8 && 0 <= square.1 && square.1 < 8 {
            let there = piece_at(&state.board, square);
            if there == 0 || !same_side(get_color(there), get_color(piece)) {
                mobility += 1;
            }
        }
        k += 1;
    }
    mobility
}

/// What the square on `rank` and `file` adds to the score of `player`.
pub fn square_value(state: &State, player: Color, rank: usize, file: usize) -> (value: i32)
    requires
        rank < 8,
        file < 8,
    ensures
        value == square_score(state.board, player, (rank as isize, file as isize)),
        -20022 <= value <= 20022,
{
    proof {
        lemma_square_score_bounds(state.board, player, (rank as isize, file as isize));
    }
    let piece = state.board[rank][file];
    let own = same_side(get_color(piece), Some(player));
    let sign: i32 = if own {
        1
    } else {
        -1
    };
    // Material
    let mut value: i32 = get_value(piece) * sign;
    // Pawns that have advanced
    if 2 <= rank && rank <= 5 {
        if piece == PAWN_ID {
            value += (6 - rank as i32) * sign;
        } else if piece == -PAWN_ID {
            value += (rank as i32 - 1) * sign;
        }
    }
    // The centre
    if piece != 0 && (rank == 3 || rank == 4) && (file == 3 || file == 4) {
        value += 10 * sign;
    }
    // Room to move
    if own {
        value += get_mobility(piece, state, (rank, file));
    }
    value
}

/// The score of `state` for `player`.
pub fn evaluate(state: &State, player: Color) -> (score: isize)
    ensures
        score == evaluation(state.board, player),
        -score_bound() <= score <= score_bound(),
{
    let mut score: i32 = 0;
    let mut rank: usize = 0;
    while rank < 8
        invariant
            rank <= 8,
            score == score_upto(state.board, player, (rank * 8) as nat),
        decreases 8 - rank,
    {
        let mut file: usize = 0;
        while file < 8
            invariant
                rank < 8,
                file <= 8,
                score == score_upto(state.board, player, (rank * 8 + file) as nat),
            decreases 8 - file,
        {
            proof {
                assert(square_at(rank * 8 + file) == (rank as isize, file as isize));
                lemma_score_bounds(state.board, player, (rank * 8 + file) as nat);
            }
            score += square_value(state, player, rank, file);
            file += 1;
        }
        rank += 1;
    }
    proof {
        lemma_evaluation_bounds(state.board, player);
    }
    score as isize
}

} // verus!
