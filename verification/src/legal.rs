//! The legal moves of a side: what its pieces may do, less what would leave
//! its own king in check.

use vstd::prelude::*;
use std::collections::HashMap;
use crate::attack::{
    attack_moves, attack_set, in_check, king_is_checked, kings_adjacent,
    lemma_blocked_means_adjacent, neighbours, opposing_attack_map,
};
use crate::board::{
    Board, cell, king_of, lemma_put_cell, Move, MoveStruct, on_board, owned_by, piece_at, put,
    Square,
};
use crate::castling::{castle_moves_of, castle_moves, _get_possible_castle_moves};
use crate::error::ChessError;
use crate::lists::{all_sound, lemma_filter_push, lemma_pseudo_moves_sound};
use crate::movegen::{pseudo_legal_moves, pseudo_moves_of, scan_blocked};
use crate::pieces::{Castle, Color};
use crate::state::State;
use crate::transition::{arriving_piece, board_after_move, next_state};

verus! {

/// The move `mv` of `player` is not made with its king and leaves its king
/// in check. The moves of a king are not tested here: a king is kept off
/// attacked squares when its moves are generated.
pub open spec fn leaves_king_checked(b: Board, player: Color, mv: Move) -> bool {
    !king_of(b, player, mv.0) && in_check(board_after_move(b, mv), player)
}

/// The test that the moves of `player` must pass to be legal.
pub open spec fn keeps_king_safe(b: Board, player: Color) -> spec_fn(Move) -> bool {
    |mv: Move| !leaves_king_checked(b, player, mv)
}

/// The moves of `player`: those that the movement of its pieces allows and
/// that do not leave its king in check, in the order of the scan.
pub open spec fn legal_moves(b: Board, player: Color) -> Seq<Move> {
    pseudo_moves_of(b, player, false, attack_set(b, player.opponent())).filter(
        keeps_king_safe(b, player),
    )
}

/// The move `mv` of `player` is not made with its king and brings the two
/// kings side by side.
pub open spec fn exposes_kings(b: Board, player: Color, mv: Move) -> bool {
    !king_of(b, player, mv.0) && kings_adjacent(board_after_move(b, mv))
}

/// Some move of `moves` is made with another piece than the king of `player`
/// and brings the two kings side by side.
pub open spec fn some_move_exposes_kings(b: Board, player: Color, moves: Seq<Move>) -> bool {
    exists|i: int| 0 <= i < moves.len() && exposes_kings(b, player, #[trigger] moves[i])
}

/// The legal moves are generated moves that keep the king safe.
pub proof fn lemma_legal_moves_are_generated(b: Board, player: Color, i: int)
    requires
        0 <= i < legal_moves(b, player).len(),
    ensures
        pseudo_moves_of(b, player, false, attack_set(b, player.opponent())).contains(
            legal_moves(b, player)[i],
        ),
        !leaves_king_checked(b, player, legal_moves(b, player)[i]),
        on_board(legal_moves(b, player)[i].0),
        on_board(legal_moves(b, player)[i].1),
        owned_by(b, player, legal_moves(b, player)[i].0),
{
    let attacked = attack_set(b, player.opponent());
    let pseudo = pseudo_moves_of(b, player, false, attacked);
    let keep = keeps_king_safe(b, player);
    #[allow(deprecated)]
    pseudo.filter_lemma(keep);
    let mv = legal_moves(b, player)[i];
    assert(keep(mv));
    assert(pseudo.contains(mv)) by {
        pseudo.lemma_filter_contains_rev(keep, mv);
    }
    lemma_pseudo_moves_sound(b, player, false, attacked);
    let at = choose|at: int| 0 <= at < pseudo.len() && pseudo[at] == mv;
    assert(pseudo[at] == mv);
}

/// A move made with a piece other than a king brings no two kings side by
/// side that were not so before.
pub proof fn lemma_plain_move_keeps_kings_apart(b: Board, player: Color, mv: Move)
    requires
        on_board(mv.0),
        on_board(mv.1),
        owned_by(b, player, mv.0),
        !king_of(b, player, mv.0),
        kings_adjacent(board_after_move(b, mv)),
    ensures
        kings_adjacent(b),
{
    let after = board_after_move(b, mv);
    let (w, k) = choose|w: Square, k: Square|
        #![trigger cell(after, w), cell(after, k)]
        on_board(w) && on_board(k) && neighbours(w, k) && cell(after, w) == 1 && cell(after, k)
            == -1;
    let placed = arriving_piece(cell(b, mv.0), mv.1);
    lemma_put_cell(b, mv.0, 0, w);
    lemma_put_cell(put(b, mv.0, 0), mv.1, placed, w);
    lemma_put_cell(b, mv.0, 0, k);
    lemma_put_cell(put(b, mv.0, 0), mv.1, placed, k);
    assert(cell(b, w) == 1 && cell(b, k) == -1);
}

/// Whether the king of `player` stands on `square`.
fn piece_at_is_king(state: &State, player: Color, square: Square) -> (yes: bool)
    requires
        on_board(square),
    ensures
        yes == king_of(state.board, player, square),
{
    piece_at(&state.board, square) == player.king()
}

/// Whether the move `_move` of `player` leaves its own king in check. The
/// answer is no for a move of the king itself.
///
/// Fails with `IllegalMove` on an empty origin, and with `InternalInvariant`
/// where the move brings the two kings side by side.
pub fn move_leaves_king_checked(state: &State, player: Color, _move: Move) -> (checked: Result<
    bool,
    ChessError,
>)
    requires
        on_board(_move.0),
        on_board(_move.1),
    ensures
        checked is Err <==> cell(state.board, _move.0) == 0 || exposes_kings(
            state.board,
            player,
            _move,
        ),
        checked matches Err(e) ==> e == if cell(state.board, _move.0) == 0 {
            ChessError::IllegalMove
        } else {
            ChessError::InternalInvariant
        },
        checked matches Ok(yes) ==> yes == leaves_king_checked(state.board, player, _move),
{
    if piece_at_is_king(state, player, _move.0) {
        return Ok(false);
    }
    match next_state(state, player, MoveStruct::Normal(_move)) {
        Err(e) => Err(e),
        Ok((next, _)) => king_is_checked(&next, player),
    }
}

/// Those of `moves` that do not leave the king of `player` in check, in
/// their order. Fails when one of them, not made with the king, brings the
/// two kings side by side.
pub fn keep_safe_moves(state: &State, player: Color, moves: &Vec<Move>) -> (found: Result<
    Vec<Move>,
    ChessError,
>)
    requires
        all_sound(state.board, player, moves@),
    ensures
        found is Err <==> some_move_exposes_kings(state.board, player, moves@),
        found matches Err(e) ==> e == ChessError::InternalInvariant,
        found matches Ok(kept) ==> kept@ == moves@.filter(keeps_king_safe(state.board, player)),
{
    let ghost keep = keeps_king_safe(state.board, player);
    let mut kept: Vec<Move> = Vec::new();
    let mut i: usize = 0;
    while i < moves.len()
        invariant
            i <= moves.len(),
            keep == keeps_king_safe(state.board, player),
            all_sound(state.board, player, moves@),
            kept@ == moves@.take(i as int).filter(keep),
            forall|j: int| 0 <= j < i ==> !exposes_kings(state.board, player, #[trigger] moves@[j]),
        decreases moves.len() - i,
    {
        let candidate = moves[i];
        proof {
            lemma_filter_push(moves@.take(i as int), candidate, keep);
            assert(moves@.take(i as int).push(candidate) =~= moves@.take(i + 1));
        }
        match move_leaves_king_checked(state, player, candidate) {
            Err(e) => {
                assert(exposes_kings(state.board, player, moves@[i as int]));
                return Err(e);
            },
            Ok(checked) => {
                if !checked {
                    kept.push(candidate);
                }
            },
        }
        i += 1;
    }
    assert(moves@.take(moves.len() as int) =~= moves@);
    Ok(kept)
}

/// The moves of `player`, given the attack map of its opponent.
///
/// In attack mode these are the squares that its pieces threaten or defend.
/// In playable mode they are the moves that its pieces may make and that do
/// not leave its king in check. Fails when a king of `player` finds the other
/// king beside it, or when a move would bring the kings side by side.
pub fn _get_possible_moves(
    state: &State,
    player: Color,
    attack: bool,
    squares_under_attack_map: &HashMap<usize, bool>,
) -> (found: Result<Vec<Move>, ChessError>)
    ensures
        found is Err <==> scan_blocked(
            state.board,
            player,
            attack,
            squares_under_attack_map@.dom(),
        ) || (!attack && some_move_exposes_kings(
            state.board,
            player,
            pseudo_moves_of(state.board, player, attack, squares_under_attack_map@.dom()),
        )),
        found matches Err(e) ==> e == ChessError::InternalInvariant,
        found matches Ok(moves) ==> moves@ == if attack {
            pseudo_moves_of(state.board, player, attack, squares_under_attack_map@.dom())
        } else {
            pseudo_moves_of(state.board, player, attack, squares_under_attack_map@.dom()).filter(
                keeps_king_safe(state.board, player),
            )
        },
{
    let moves = match pseudo_legal_moves(state, player, attack, squares_under_attack_map) {
        Ok(moves) => moves,
        Err(e) => {
            return Err(e);
        },
    };
    if attack {
        return Ok(moves);
    }
    proof {
        lemma_pseudo_moves_sound(state.board, player, attack, squares_under_attack_map@.dom());
    }
    keep_safe_moves(state, player, &moves)
}

/// On a grid whose kings are apart, no generated move brings them side by
/// side unless it is made with a king.
pub proof fn lemma_no_move_exposes_kings(
    b: Board,
    player: Color,
    attack: bool,
    attacked: Set<usize>,
)
    requires
        !kings_adjacent(b),
    ensures
        !some_move_exposes_kings(b, player, pseudo_moves_of(b, player, attack, attacked)),
{
    let moves = pseudo_moves_of(b, player, attack, attacked);
    lemma_pseudo_moves_sound(b, player, attack, attacked);
    assert forall|i: int| 0 <= i < moves.len() implies !exposes_kings(
        b,
        player,
        #[trigger] moves[i],
    ) by {
        if exposes_kings(b, player, moves[i]) {
            lemma_plain_move_keeps_kings_apart(b, player, moves[i]);
        }
    }
}

/// Generating the moves of `player` fails only on a grid whose kings are
/// side by side, and in attack mode on every such grid.
pub proof fn lemma_generation_fails_where_kings_touch(
    b: Board,
    player: Color,
    attack: bool,
    attacked: Set<usize>,
)
    ensures
        !kings_adjacent(b) ==> !scan_blocked(b, player, attack, attacked)
            && !some_move_exposes_kings(b, player, pseudo_moves_of(b, player, attack, attacked)),
        attack ==> (scan_blocked(b, player, attack, attacked) <==> kings_adjacent(b)),
{
    lemma_blocked_means_adjacent(b, player, attack, attacked);
    if !kings_adjacent(b) {
        lemma_no_move_exposes_kings(b, player, attack, attacked);
    }
}

/// The moves of `player`: in attack mode the squares that its pieces threaten
/// or defend, in playable mode its legal moves. Fails, and only then, on a
/// grid whose kings are side by side.
pub fn get_possible_moves(state: &State, player: Color, attack: bool) -> (found: Result<
    Vec<Move>,
    ChessError,
>)
    ensures
        found is Err <==> kings_adjacent(state.board),
        found matches Err(e) ==> e == ChessError::InternalInvariant,
        found matches Ok(moves) ==> moves@ == if attack {
            attack_moves(state.board, player)
        } else {
            legal_moves(state.board, player)
        },
{
    let squares_under_attack_map = match opposing_attack_map(state, player, attack) {
        Ok(map) => map,
        Err(e) => {
            return Err(e);
        },
    };
    proof {
        lemma_generation_fails_where_kings_touch(
            state.board,
            player,
            attack,
            squares_under_attack_map@.dom(),
        );
    }
    _get_possible_moves(state, player, attack, &squares_under_attack_map)
}

/// Moves and castles of `player`, given the attack map of its opponent.
pub fn _get_all_possible_moves(
    state: &State,
    player: Color,
    attack: bool,
    squares_under_attack_map: &HashMap<usize, bool>,
) -> (found: Result<(Vec<Move>, Vec<Castle>), ChessError>)
    ensures
        found is Err <==> scan_blocked(
            state.board,
            player,
            attack,
            squares_under_attack_map@.dom(),
        ) || (!attack && some_move_exposes_kings(
            state.board,
            player,
            pseudo_moves_of(state.board, player, attack, squares_under_attack_map@.dom()),
        )),
        found matches Err(e) ==> e == ChessError::InternalInvariant,
        found matches Ok((moves, castles)) ==> {
            &&& moves@ == if attack {
                pseudo_moves_of(state.board, player, attack, squares_under_attack_map@.dom())
            } else {
                pseudo_moves_of(
                    state.board,
                    player,
                    attack,
                    squares_under_attack_map@.dom(),
                ).filter(keeps_king_safe(state.board, player))
            }
            &&& castles@ == castle_moves_of(
                *state,
                player,
                attack,
                squares_under_attack_map@.dom(),
            )
        },
{
    let moves = match _get_possible_moves(state, player, attack, squares_under_attack_map) {
        Ok(moves) => moves,
        Err(e) => {
            return Err(e);
        },
    };
    let castle_moves = _get_possible_castle_moves(state, player, attack, squares_under_attack_map);
    Ok((moves, castle_moves))
}

/// Moves and castles of `player`: in attack mode the squares that its pieces
/// threaten or defend and no castle, in playable mode its legal moves and
/// the castles open to it. Fails, and only then, on a grid whose kings are
/// side by side.
pub fn get_all_possible_moves(state: &State, player: Color, attack: bool) -> (found: Result<
    (Vec<Move>, Vec<Castle>),
    ChessError,
>)
    ensures
        found is Err <==> kings_adjacent(state.board),
        found matches Err(e) ==> e == ChessError::InternalInvariant,
        found matches Ok((moves, castles)) ==> {
            &&& moves@ == if attack {
                attack_moves(state.board, player)
            } else {
                legal_moves(state.board, player)
            }
            &&& castles@ == if attack {
                Seq::<Castle>::empty()
            } else {
                castle_moves(*state, player)
            }
        },
{
    let squares_under_attack_map = match opposing_attack_map(state, player, attack) {
        Ok(map) => map,
        Err(e) => {
            return Err(e);
        },
    };
    proof {
        lemma_generation_fails_where_kings_touch(
            state.board,
            player,
            attack,
            squares_under_attack_map@.dom(),
        );
    }
    _get_all_possible_moves(state, player, attack, &squares_under_attack_map)
}

} // verus!
