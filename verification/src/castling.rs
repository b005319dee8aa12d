//! When a side may castle.
//!
//! A side may castle on a wing while it still has the right for that wing,
//! its king and the rook of that wing stand on their first squares, the
//! squares between them are empty, and the opponent attacks neither the
//! square of the king nor the two squares that the king crosses and reaches.
//! On the queen's side the square next to the rook must be empty but may be
//! attacked.

use vstd::prelude::*;
use std::collections::HashMap;
use crate::attack::{attack_set, kings_adjacent, opposing_attack_map};
use crate::board::{Board, cell, flat, on_board, piece_at, Square, square_tuple_to_flat};
use crate::error::ChessError;
use crate::lists::lemma_filter_push;
use crate::pieces::{Castle, Color, EMPTY_SQUARE_ID, KING_ID, ROOK_ID};
use crate::state::State;

verus! {

/// The rank on which `player` castles.
pub open spec fn back_rank(player: Color) -> isize {
    match player {
        Color::White => 7isize,
        Color::Black => 0isize,
    }
}

/// The identifier of the rooks of `player`.
pub open spec fn rook_id(player: Color) -> isize {
    match player {
        Color::White => 3isize,
        Color::Black => -3isize,
    }
}

/// The castle of `player` on the king's side.
pub open spec fn king_side(player: Color) -> Castle {
    match player {
        Color::White => Castle::KingSideWhite,
        Color::Black => Castle::KingSideBlack,
    }
}

/// The castle of `player` on the queen's side.
pub open spec fn queen_side(player: Color) -> Castle {
    match player {
        Color::White => Castle::QueenSideWhite,
        Color::Black => Castle::QueenSideBlack,
    }
}

/// King and rook of `player` stand ready to castle on the king's side, with
/// nothing between them and no square of the king's way in `attacked`.
pub open spec fn king_side_open(b: Board, player: Color, attacked: Set<usize>) -> bool {
    let r = back_rank(player);
    &&& cell(b, (r, 7)) == rook_id(player)
    &&& cell(b, (r, 6)) == 0
    &&& cell(b, (r, 5)) == 0
    &&& cell(b, (r, 4)) == player.king_id()
    &&& !attacked.contains(flat((r, 4)))
    &&& !attacked.contains(flat((r, 5)))
    &&& !attacked.contains(flat((r, 6)))
}

/// As `king_side_open`, on the queen's side.
pub open spec fn queen_side_open(b: Board, player: Color, attacked: Set<usize>) -> bool {
    let r = back_rank(player);
    &&& cell(b, (r, 0)) == rook_id(player)
    &&& cell(b, (r, 1)) == 0
    &&& cell(b, (r, 2)) == 0
    &&& cell(b, (r, 3)) == 0
    &&& cell(b, (r, 4)) == player.king_id()
    &&& !attacked.contains(flat((r, 4)))
    &&& !attacked.contains(flat((r, 3)))
    &&& !attacked.contains(flat((r, 2)))
}

/// Whether `s` remembers a king of `player` on the grid.
pub open spec fn king_flag(s: State, player: Color) -> bool {
    match player {
        Color::White => s.white_king_on_board,
        Color::Black => s.black_king_on_board,
    }
}

/// Whether `player` still has the right to castle on the king's side.
pub open spec fn king_side_right(s: State, player: Color) -> bool {
    match player {
        Color::White => s.white_king_castle_is_possible,
        Color::Black => s.black_king_castle_is_possible,
    }
}

/// Whether `player` still has the right to castle on the queen's side.
pub open spec fn queen_side_right(s: State, player: Color) -> bool {
    match player {
        Color::White => s.white_queen_castle_is_possible,
        Color::Black => s.black_queen_castle_is_possible,
    }
}

/// `castle` if `wanted`, else nothing.
pub open spec fn maybe_castle(wanted: bool, castle: Castle) -> Seq<Castle> {
    if wanted {
        seq![castle]
    } else {
        Seq::empty()
    }
}

/// The castles for which king and rook of `player` stand ready, with
/// nothing between them and no square of the king's way in `attacked`: the
/// queen's side first. The rights to castle are not looked at.
pub open spec fn standing_castles(b: Board, player: Color, attacked: Set<usize>) -> Seq<Castle> {
    maybe_castle(queen_side_open(b, player, attacked), queen_side(player)) + maybe_castle(
        king_side_open(b, player, attacked),
        king_side(player),
    )
}

/// Whether `s` still holds the right to make `castle`.
pub open spec fn wing_right(s: State, castle: Castle) -> bool {
    match castle {
        Castle::KingSideWhite => s.white_king_castle_is_possible,
        Castle::QueenSideWhite => s.white_queen_castle_is_possible,
        Castle::KingSideBlack => s.black_king_castle_is_possible,
        Castle::QueenSideBlack => s.black_queen_castle_is_possible,
    }
}

/// The test that a castle passes while `s` holds the right to make it.
pub open spec fn holds_right(s: State) -> spec_fn(Castle) -> bool {
    |castle: Castle| wing_right(s, castle)
}

/// The castles open to `player`, the queen's side first: those for which
/// king and rook stand ready and for which `s` still holds the right.
pub open spec fn open_castles(s: State, player: Color, attacked: Set<usize>) -> Seq<Castle> {
    maybe_castle(
        queen_side_right(s, player) && queen_side_open(s.board, player, attacked),
        queen_side(player),
    ) + maybe_castle(
        king_side_right(s, player) && king_side_open(s.board, player, attacked),
        king_side(player),
    )
}

/// The castles that `player` may make in `s`, given the squares that its
/// opponent attacks. There is none in attack mode, nor where `s` remembers
/// no king of `player`.
pub open spec fn castle_moves_of(
    s: State,
    player: Color,
    attack: bool,
    attacked: Set<usize>,
) -> Seq<Castle> {
    if attack || !king_flag(s, player) {
        Seq::empty()
    } else {
        open_castles(s, player, attacked)
    }
}

/// The castles that `player` may make in `s`.
pub open spec fn castle_moves(s: State, player: Color) -> Seq<Castle> {
    castle_moves_of(s, player, false, attack_set(s.board, player.opponent()))
}

/// Whether the map does not file `square`.
fn free_of_attack(squares_under_attack_map: &HashMap<usize, bool>, square: Square) -> (free: bool)
    requires
        on_board(square),
    ensures
        free == !squares_under_attack_map@.dom().contains(flat(square)),
{
    broadcast use vstd::std_specs::hash::group_hash_axioms;

    !squares_under_attack_map.contains_key(&square_tuple_to_flat(square))
}

/// The castles for which king and rook of `player` stand ready, the queen's
/// side first: rook and king on their first squares, the squares between
/// them empty, and the square of the king and the two squares that it
/// crosses and reaches not in the map. The rights to castle are not looked
/// at.
pub fn calc_castle_moves(
    state: &State,
    player: Color,
    squares_under_attack_map: &HashMap<usize, bool>,
) -> (castle_moves: Vec<Castle>)
    ensures
        castle_moves@ == standing_castles(state.board, player, squares_under_attack_map@.dom()),
{
    let mut castle_moves: Vec<Castle> = Vec::new();
    let (rank, king_id, rook_id, queen_castle, king_castle) = match player {
        Color::White => (7isize, KING_ID, ROOK_ID, Castle::QueenSideWhite, Castle::KingSideWhite),
        Color::Black => (
            0isize,
            -KING_ID,
            -ROOK_ID,
            Castle::QueenSideBlack,
            Castle::KingSideBlack,
        ),
    };
    let board = &state.board;

    // Queen side
    if piece_at(board, (rank, 0)) == rook_id && piece_at(board, (rank, 1)) == EMPTY_SQUARE_ID
        && piece_at(board, (rank, 2)) == EMPTY_SQUARE_ID && piece_at(board, (rank, 3))
        == EMPTY_SQUARE_ID && piece_at(board, (rank, 4)) == king_id && free_of_attack(
        squares_under_attack_map,
        (rank, 4),
    ) && free_of_attack(squares_under_attack_map, (rank, 3)) && free_of_attack(
        squares_under_attack_map,
        (rank, 2),
    ) {
        castle_moves.push(queen_castle);
    }
    // King side
    if piece_at(board, (rank, 7)) == rook_id && piece_at(board, (rank, 6)) == EMPTY_SQUARE_ID
        && piece_at(board, (rank, 5)) == EMPTY_SQUARE_ID && piece_at(board, (rank, 4)) == king_id
        && free_of_attack(squares_under_attack_map, (rank, 4)) && free_of_attack(
        squares_under_attack_map,
        (rank, 5),
    ) && free_of_attack(squares_under_attack_map, (rank, 6)) {
        castle_moves.push(king_castle);
    }
    assert(castle_moves@ =~= standing_castles(
        state.board,
        player,
        squares_under_attack_map@.dom(),
    ));
    castle_moves
}

/// Whether `state` still holds the right to make `castle`.
pub fn has_right(state: &State, castle: Castle) -> (yes: bool)
    ensures
        yes == wing_right(*state, castle),
{
    match castle {
        Castle::KingSideWhite => state.white_king_castle_is_possible,
        Castle::QueenSideWhite => state.white_queen_castle_is_possible,
        Castle::KingSideBlack => state.black_king_castle_is_possible,
        Castle::QueenSideBlack => state.black_queen_castle_is_possible,
    }
}

/// Of the castles for which king and rook stand ready, those whose right is
/// held are the castles that are open.
pub proof fn lemma_rights_gate_wings(s: State, player: Color, attacked: Set<usize>)
    ensures
        standing_castles(s.board, player, attacked).filter(holds_right(s)) == open_castles(
            s,
            player,
            attacked,
        ),
{
    let keep = holds_right(s);
    let none = Seq::<Castle>::empty();
    let queen = queen_side(player);
    let king = king_side(player);
    let standing = standing_castles(s.board, player, attacked);
    assert(keep(queen) == queen_side_right(s, player));
    assert(keep(king) == king_side_right(s, player));
    assert(none.filter(keep) =~= none) by {
        reveal(Seq::filter);
    }
    lemma_filter_push(none, queen, keep);
    lemma_filter_push(none, king, keep);
    lemma_filter_push(none.push(queen), king, keep);
    assert(seq![queen] =~= none.push(queen));
    assert(seq![king] =~= none.push(king));
    let with_queen = queen_side_open(s.board, player, attacked);
    let with_king = king_side_open(s.board, player, attacked);
    if with_queen && with_king {
        assert(standing =~= none.push(queen).push(king));
    } else if with_queen {
        assert(standing =~= none.push(queen));
    } else if with_king {
        assert(standing =~= none.push(king));
    } else {
        assert(standing =~= none);
    }
    assert(standing.filter(keep) =~= open_castles(s, player, attacked));
}

/// The castles that `player` may make, given the attack map of its opponent:
/// those for which king and rook stand ready and whose right is still held.
/// There is none in attack mode, nor where `state` remembers no king of
/// `player`.
pub fn _get_possible_castle_moves(
    state: &State,
    player: Color,
    attack: bool,
    squares_under_attack_map: &HashMap<usize, bool>,
) -> (castle_moves: Vec<Castle>)
    ensures
        castle_moves@ == castle_moves_of(*state, player, attack, squares_under_attack_map@.dom()),
{
    // Castles attack nothing.
    if attack {
        return Vec::new();
    }
    if (player == Color::White && !state.white_king_on_board) || (player == Color::Black
        && !state.black_king_on_board) {
        return Vec::new();
    }
    let standing = calc_castle_moves(state, player, squares_under_attack_map);
    let ghost keep = holds_right(*state);
    let mut castle_moves: Vec<Castle> = Vec::new();
    let mut i: usize = 0;
    while i < standing.len()
        invariant
            i <= standing.len(),
            keep == holds_right(*state),
            castle_moves@ == standing@.take(i as int).filter(keep),
        decreases standing.len() - i,
    {
        let castle = standing[i];
        proof {
            lemma_filter_push(standing@.take(i as int), castle, keep);
            assert(standing@.take(i as int).push(castle) =~= standing@.take(i + 1));
        }
        if has_right(state, castle) {
            castle_moves.push(castle);
        }
        i += 1;
    }
    proof {
        assert(standing@.take(standing.len() as int) =~= standing@);
        lemma_rights_gate_wings(*state, player, squares_under_attack_map@.dom());
    }
    castle_moves
}

/// The castles that `player` may make. Fails, in playable mode, on a grid
/// whose kings are side by side.
pub fn get_possible_castle_moves(state: &State, player: Color, attack: bool) -> (found: Result<
    Vec<Castle>,
    ChessError,
>)
    ensures
        found is Err <==> !attack && kings_adjacent(state.board),
        found matches Err(e) ==> e == ChessError::InternalInvariant,
        found matches Ok(castles) ==> castles@ == if attack {
            Seq::<Castle>::empty()
        } else {
            castle_moves(*state, player)
        },
{
    let squares_under_attack_map = match opposing_attack_map(state, player, attack) {
        Ok(map) => map,
        Err(e) => {
            return Err(e);
        },
    };
    Ok(_get_possible_castle_moves(state, player, attack, &squares_under_attack_map))
}

} // verus!
