//! Attack maps and check.
//!
//! The attack map of a side is the set of squares that its pieces threaten or
//! defend, each filed under `8 * rank + file`.

use vstd::prelude::*;
use std::collections::HashMap;
use crate::board::{
    Board, cell, flat, get_other_player, king_of, Move, on_board, owned_by, shift, Square,
    square_at, square_tuple_to_flat,
};
use crate::error::ChessError;
use crate::lists::{
    all_sound, lemma_king_moves_contain, lemma_piece_moves_leave, lemma_pseudo_moves_sound,
    lemma_scan_contains, lemma_scan_member,
};
use crate::movegen::{
    king_blocked, king_meets_king, king_moves_of, king_steps, piece_moves_of, pseudo_legal_moves,
    pseudo_moves_of, scan_blocked,
};
use crate::pieces::Color;
use crate::state::State;

verus! {

/// `sq` is the square on which check is tested for `player`: the square of
/// its king. Should a grid hold several kings of one side, it is the one on
/// the highest rank number, and on that rank the one on the lowest file.
pub open spec fn reference_king(b: Board, player: Color, sq: Square) -> bool {
    &&& on_board(sq)
    &&& king_of(b, player, sq)
    &&& forall|o: Square|
        on_board(o) && #[trigger] king_of(b, player, o) ==> o.0 < sq.0 || (o.0 == sq.0 && o.1
            >= sq.1)
}

/// The king of `player` stands on a square of `attacked`. A side without a
/// king is never hit.
pub open spec fn king_hit(b: Board, player: Color, attacked: Set<usize>) -> bool {
    exists|sq: Square| #[trigger] reference_king(b, player, sq) && attacked.contains(flat(sq))
}

/// Two different squares that touch, by a side or by a corner.
pub open spec fn neighbours(a: Square, c: Square) -> bool {
    a != c && -1 <= a.0 - c.0 <= 1 && -1 <= a.1 - c.1 <= 1
}

/// A white king and a black king stand on neighbouring squares. No game
/// reaches such a grid, and move generation fails on it.
pub open spec fn kings_adjacent(b: Board) -> bool {
    exists|w: Square, k: Square|
        #![trigger cell(b, w), cell(b, k)]
        on_board(w) && on_board(k) && neighbours(w, k) && cell(b, w) == 1 && cell(b, k) == -1
}

/// The numbers under which the squares of arrival of `moves` are filed.
pub open spec fn arrivals(moves: Seq<Move>) -> Set<usize> {
    Set::new(|k: usize| exists|i: int| 0 <= i < moves.len() && flat(#[trigger] moves[i].1) == k)
}

/// The moves of `player` in attack mode: every square that a piece of
/// `player` threatens or defends, once for each piece that does.
pub open spec fn attack_moves(b: Board, player: Color) -> Seq<Move> {
    pseudo_moves_of(b, player, true, Set::empty())
}

/// The attack map of `player`.
pub open spec fn attack_set(b: Board, player: Color) -> Set<usize> {
    arrivals(attack_moves(b, player))
}

/// The king of `player` stands on a square that the other side attacks.
pub open spec fn in_check(b: Board, player: Color) -> bool {
    king_hit(b, player, attack_set(b, player.opponent()))
}

/// The state `s` with both check flags brought up to date.
pub open spec fn refreshed(s: State) -> State {
    State {
        white_king_is_checked: in_check(s.board, Color::White),
        black_king_is_checked: in_check(s.board, Color::Black),
        ..s
    }
}

/// A step of a king leads to a neighbouring square.
pub proof fn lemma_step_is_neighbour(a: Square, k: int)
    requires
        on_board(a),
        0 <= k < 8,
    ensures
        neighbours(a, shift(a, king_steps()[k])),
{
}

/// Every neighbouring square is one step of a king away.
pub proof fn lemma_neighbour_is_step(a: Square, c: Square) -> (k: int)
    requires
        on_board(a),
        on_board(c),
        neighbours(a, c),
    ensures
        0 <= k < 8,
        shift(a, king_steps()[k]) == c,
{
    let d0 = c.0 - a.0;
    let d1 = c.1 - a.1;
    if d0 == 1 && d1 == 0 {
        0
    } else if d0 == -1 && d1 == 0 {
        1
    } else if d0 == 0 && d1 == 1 {
        2
    } else if d0 == 0 && d1 == -1 {
        3
    } else if d0 == 1 && d1 == 1 {
        4
    } else if d0 == 1 && d1 == -1 {
        5
    } else if d0 == -1 && d1 == 1 {
        6
    } else {
        7
    }
}

/// Move generation fails on a king that finds the other king beside it only
/// where the two kings are side by side; in attack mode, exactly there.
pub proof fn lemma_blocked_means_adjacent(
    b: Board,
    player: Color,
    attack: bool,
    attacked: Set<usize>,
)
    ensures
        scan_blocked(b, player, attack, attacked) ==> kings_adjacent(b),
        attack ==> (scan_blocked(b, player, attack, attacked) <==> kings_adjacent(b)),
{
    if scan_blocked(b, player, attack, attacked) {
        let from = choose|from: Square|
            on_board(from) && #[trigger] king_of(b, player, from) && king_blocked(
                b,
                player,
                attack,
                attacked,
                from,
            );
        let k = choose|k: int|
            0 <= k < 8 && king_meets_king(
                b,
                player,
                attack,
                attacked,
                #[trigger] shift(from, king_steps()[k]),
            );
        let to = shift(from, king_steps()[k]);
        lemma_step_is_neighbour(from, k);
        if player == Color::White {
            assert(cell(b, from) == 1 && cell(b, to) == -1);
        } else {
            assert(cell(b, to) == 1 && cell(b, from) == -1);
        }
    }
    if attack && kings_adjacent(b) {
        let (w, k) = choose|w: Square, k: Square|
            #![trigger cell(b, w), cell(b, k)]
            on_board(w) && on_board(k) && neighbours(w, k) && cell(b, w) == 1 && cell(b, k) == -1;
        let (from, to) = if player == Color::White {
            (w, k)
        } else {
            (k, w)
        };
        let i = lemma_neighbour_is_step(from, to);
        assert(king_meets_king(b, player, attack, attacked, shift(from, king_steps()[i])));
        assert(king_blocked(b, player, attack, attacked, from));
        assert(king_of(b, player, from));
    }
}

/// The square of arrival of a move that a piece of `p` has in attack mode is
/// in the attack map of `p`.
pub proof fn lemma_piece_attacks(b: Board, p: Color, from: Square, mv: Move)
    requires
        on_board(from),
        piece_moves_of(b, p, true, Set::empty(), from).contains(mv),
    ensures
        attack_set(b, p).contains(flat(mv.1)),
{
    let j = from.0 * 8 + from.1;
    assert(square_at(j) == from);
    lemma_scan_contains(b, p, true, Set::empty(), 64, j, mv);
    let moves = attack_moves(b, p);
    let at = choose|at: int| 0 <= at < moves.len() && moves[at] == mv;
    assert(flat(moves[at].1) == flat(mv.1));
}

/// A square in the attack map of `p` is the square of arrival of a move that
/// one of its pieces has in attack mode.
pub proof fn lemma_attacked_by_piece(b: Board, p: Color, t: Square) -> (from: Square)
    requires
        on_board(t),
        attack_set(b, p).contains(flat(t)),
    ensures
        on_board(from),
        owned_by(b, p, from),
        piece_moves_of(b, p, true, Set::empty(), from).contains((from, t)),
{
    let none = Set::<usize>::empty();
    let moves = attack_moves(b, p);
    let at = choose|at: int| 0 <= at < moves.len() && flat(#[trigger] moves[at].1) == flat(t);
    lemma_pseudo_moves_sound(b, p, true, none);
    let mv = moves[at];
    assert(mv.1 == t);
    let j = lemma_scan_member(b, p, true, none, 64, mv);
    lemma_piece_moves_leave(b, p, true, none, square_at(j));
    let here = piece_moves_of(b, p, true, none, square_at(j));
    let i = choose|i: int| 0 <= i < here.len() && here[i] == mv;
    assert(here[i].0 == square_at(j));
    square_at(j)
}

/// A king attacks every square of the grid beside it.
pub proof fn lemma_king_attacks_neighbours(b: Board, player: Color, king: Square, beside: Square)
    requires
        on_board(king),
        on_board(beside),
        king_of(b, player, king),
        neighbours(king, beside),
    ensures
        attack_set(b, player).contains(flat(beside)),
{
    let none = Set::<usize>::empty();
    let k = lemma_neighbour_is_step(king, beside);
    lemma_king_moves_contain(b, player, true, none, king, 8, k);
    let j = king.0 * 8 + king.1;
    assert(square_at(j) == king);
    assert(piece_moves_of(b, player, true, none, king) == king_moves_of(
        b,
        player,
        true,
        none,
        king,
    ));
    lemma_scan_contains(b, player, true, none, 64, j, (king, beside));
    let moves = attack_moves(b, player);
    let at = choose|at: int| 0 <= at < moves.len() && moves[at] == (king, beside);
    assert(flat(moves[at].1) == flat(beside));
}

/// The square on which check is tested for `player`, if it has a king.
pub fn find_king(board: &Board, player: Color) -> (found: Option<Square>)
    ensures
        match found {
            Some(sq) => reference_king(*board, player, sq),
            None => forall|o: Square| on_board(o) ==> !#[trigger] king_of(*board, player, o),
        },
{
    let king_id = player.king();
    let mut king_square: Option<Square> = None;
    let mut i: usize = 0;
    while i < 8
        invariant
            i <= 8,
            king_id == player.king_id(),
            match king_square {
                Some(sq) => {
                    &&& on_board(sq)
                    &&& sq.0 < i
                    &&& king_of(*board, player, sq)
                    &&& forall|o: Square|
                        on_board(o) && o.0 < i && #[trigger] king_of(*board, player, o) ==> o.0
                            < sq.0 || (o.0 == sq.0 && o.1 >= sq.1)
                },
                None => forall|o: Square|
                    on_board(o) && o.0 < i ==> !#[trigger] king_of(*board, player, o),
            },
        decreases 8 - i,
    {
        let mut j: usize = 0;
        let mut in_row: Option<Square> = None;
        while j < 8 && in_row.is_none()
            invariant
                i < 8,
                j <= 8,
                king_id == player.king_id(),
                match in_row {
                    Some(sq) => {
                        &&& on_board(sq)
                        &&& sq.0 == i
                        &&& king_of(*board, player, sq)
                        &&& forall|o: Square|
                            on_board(o) && o.0 == i && #[trigger] king_of(*board, player, o)
                                ==> o.1 >= sq.1
                    },
                    None => forall|o: Square|
                        on_board(o) && o.0 == i && o.1 < j ==> !#[trigger] king_of(
                            *board,
                            player,
                            o,
                        ),
                },
            decreases (8 - j) + (if in_row is None { 1int } else { 0int }),
        {
            if board[i][j] == king_id {
                in_row = Some((i as isize, j as isize));
            } else {
                j += 1;
            }
        }
        if in_row.is_some() {
            king_square = in_row;
        }
        i += 1;
    }
    king_square
}

/// Whether the king of `player` stands on a square that the map files.
pub fn _king_is_checked(
    state: &State,
    player: Color,
    squares_under_attack_map: &HashMap<usize, bool>,
) -> (checked: bool)
    ensures
        checked == king_hit(state.board, player, squares_under_attack_map@.dom()),
{
    broadcast use vstd::std_specs::hash::group_hash_axioms;

    match find_king(&state.board, player) {
        None => false,
        Some(square) => {
            let square_flat = square_tuple_to_flat(square);
            let checked = squares_under_attack_map.contains_key(&square_flat);
            proof {
                assert forall|sq: Square| #[trigger]
                    reference_king(state.board, player, sq) implies sq == square by {
                    assert(king_of(state.board, player, square));
                    assert(king_of(state.board, player, sq));
                }
            }
            checked
        },
    }
}

/// The attack map of `player`: every square that its pieces threaten or
/// defend, filed under `8 * rank + file` with the value `true`. Fails on a
/// grid whose kings are side by side.
pub fn get_squares_under_attack_by_player(state: &State, player: Color) -> (found: Result<
    HashMap<usize, bool>,
    ChessError,
>)
    ensures
        found is Err <==> kings_adjacent(state.board),
        found matches Err(e) ==> e == ChessError::InternalInvariant,
        found matches Ok(map) ==> {
            &&& map@.dom() == attack_set(state.board, player)
            &&& forall|k: usize| map@.contains_key(k) ==> map@[k]
        },
{
    broadcast use vstd::std_specs::hash::group_hash_axioms;

    let mut squares_under_attack_map: HashMap<usize, bool> = HashMap::new();
    proof {
        lemma_blocked_means_adjacent(state.board, player, true, Set::empty());
        lemma_pseudo_moves_sound(state.board, player, true, Set::empty());
        assert(squares_under_attack_map@.dom() =~= Set::<usize>::empty());
    }
    let moves = match pseudo_legal_moves(state, player, true, &squares_under_attack_map) {
        Ok(moves) => moves,
        Err(e) => {
            return Err(e);
        },
    };
    let mut i: usize = 0;
    while i < moves.len()
        invariant
            i <= moves.len(),
            all_sound(state.board, player, moves@),
            forall|k: usize|
                squares_under_attack_map@.contains_key(k) <==> exists|j: int|
                    0 <= j < i && flat(#[trigger] moves@[j].1) == k,
            forall|k: usize|
                squares_under_attack_map@.contains_key(k) ==> squares_under_attack_map@[k],
        decreases moves.len() - i,
    {
        let square_flat = square_tuple_to_flat(moves[i].1);
        squares_under_attack_map.insert(square_flat, true);
        i += 1;
    }
    assert(squares_under_attack_map@.dom() =~= attack_set(state.board, player));
    Ok(squares_under_attack_map)
}

/// The map that the moves of `player` are generated against: the attack map
/// of its opponent in playable mode, and an empty map in attack mode, where
/// none is needed. Fails, in playable mode, on a grid whose kings are side by
/// side.
pub fn opposing_attack_map(state: &State, player: Color, attack: bool) -> (found: Result<
    HashMap<usize, bool>,
    ChessError,
>)
    ensures
        found is Err <==> !attack && kings_adjacent(state.board),
        found matches Err(e) ==> e == ChessError::InternalInvariant,
        found matches Ok(map) ==> {
            &&& map@.dom() == if attack {
                Set::<usize>::empty()
            } else {
                attack_set(state.board, player.opponent())
            }
            &&& forall|k: usize| map@.contains_key(k) ==> map@[k]
        },
{
    if attack {
        let empty: HashMap<usize, bool> = HashMap::new();
        assert(empty@.dom() =~= Set::<usize>::empty());
        Ok(empty)
    } else {
        get_squares_under_attack_by_player(state, get_other_player(player))
    }
}

/// Whether the king of `player` is in check. Fails on a grid whose kings are
/// side by side.
pub fn king_is_checked(state: &State, player: Color) -> (checked: Result<bool, ChessError>)
    ensures
        checked is Err <==> kings_adjacent(state.board),
        checked matches Err(e) ==> e == ChessError::InternalInvariant,
        checked matches Ok(yes) ==> yes == in_check(state.board, player),
{
    let other_player = get_other_player(player);
    match get_squares_under_attack_by_player(state, other_player) {
        Ok(squares_under_attack_map) => Ok(
            _king_is_checked(state, player, &squares_under_attack_map),
        ),
        Err(e) => Err(e),
    }
}

/// Brings both check flags of `state` up to date. Fails, and then leaves
/// `state` as it was, on a grid whose kings are side by side.
pub fn update_state(state: &mut State) -> (done: Result<(), ChessError>)
    ensures
        done is Err <==> kings_adjacent(old(state).board),
        done matches Err(e) ==> e == ChessError::InternalInvariant && *final(state) == *old(state),
        done is Ok ==> *final(state) == refreshed(*old(state)),
{
    let squares_under_attack_by_black = match get_squares_under_attack_by_player(
        &*state,
        Color::Black,
    ) {
        Ok(map) => map,
        Err(e) => {
            return Err(e);
        },
    };
    let squares_under_attack_by_white = match get_squares_under_attack_by_player(
        &*state,
        Color::White,
    ) {
        Ok(map) => map,
        Err(e) => {
            return Err(e);
        },
    };
    state.update_player_king_checked(Color::White, &squares_under_attack_by_black);
    state.update_player_king_checked(Color::Black, &squares_under_attack_by_white);
    Ok(())
}

} // verus!
