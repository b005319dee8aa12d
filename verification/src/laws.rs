//! What holds of the engine as a whole.

use vstd::prelude::*;
use crate::attack::{attack_moves, attack_set};
use crate::board::{Board, cell, flat, MoveStruct, on_board};
use crate::castling::castle_moves;
use crate::legal::legal_moves;
use crate::lists::lemma_pseudo_moves_sound;
use crate::pieces::{Castle, Color};
use crate::search::{
    all_moves, best_move, child_value, first_best_upto, leaf_value, lemma_first_best, search_value,
};
use crate::state::State;
use crate::transition::{board_after, lemma_castle_cells, state_after};

verus! {

/// The same state gives the same moves, in the same order: the moves in
/// either mode and the castles are functions of the state alone.
pub proof fn lemma_generation_is_deterministic(first: State, second: State, player: Color)
    requires
        first == second,
    ensures
        attack_moves(first.board, player) == attack_moves(second.board, player),
        legal_moves(first.board, player) == legal_moves(second.board, player),
        castle_moves(first, player) == castle_moves(second, player),
        all_moves(first, player) == all_moves(second, player),
{
}

/// After White has castled on the king's side, the king stands on file 6
/// and the rook on file 5 of rank 7, and the squares they left are empty.
/// The other three castles are alike.
pub proof fn lemma_castle_places_king_and_rook(b: Board, castle: Castle)
    ensures
        ({
            let after = board_after(b, MoveStruct::Castle(castle));
            match castle {
                Castle::KingSideWhite => cell(after, (7, 4)) == 0 && cell(after, (7, 5)) == 3
                    && cell(after, (7, 6)) == 1 && cell(after, (7, 7)) == 0,
                Castle::QueenSideWhite => cell(after, (7, 0)) == 0 && cell(after, (7, 1)) == 0
                    && cell(after, (7, 2)) == 1 && cell(after, (7, 3)) == 3 && cell(
                    after,
                    (7, 4),
                ) == 0,
                Castle::KingSideBlack => cell(after, (0, 4)) == 0 && cell(after, (0, 5)) == -3
                    && cell(after, (0, 6)) == -1 && cell(after, (0, 7)) == 0,
                Castle::QueenSideBlack => cell(after, (0, 0)) == 0 && cell(after, (0, 1)) == 0
                    && cell(after, (0, 2)) == -1 && cell(after, (0, 3)) == -3 && cell(
                    after,
                    (0, 4),
                ) == 0,
            }
        }),
{
    let r: isize = if castle.side() == Color::White {
        7
    } else {
        0
    };
    lemma_castle_cells(b, castle, (r, 0));
    lemma_castle_cells(b, castle, (r, 1));
    lemma_castle_cells(b, castle, (r, 2));
    lemma_castle_cells(b, castle, (r, 3));
    lemma_castle_cells(b, castle, (r, 4));
    lemma_castle_cells(b, castle, (r, 5));
    lemma_castle_cells(b, castle, (r, 6));
    lemma_castle_cells(b, castle, (r, 7));
}

/// A castle ends both rights to castle of the side that castles, and leaves
/// those of the other side as they were.
pub proof fn lemma_castle_ends_rights(s: State, player: Color, castle: Castle)
    ensures
        ({
            let next = state_after(s, player, MoveStruct::Castle(castle));
            match castle.side() {
                Color::White => {
                    &&& !next.white_king_castle_is_possible
                    &&& !next.white_queen_castle_is_possible
                    &&& next.black_king_castle_is_possible == s.black_king_castle_is_possible
                    &&& next.black_queen_castle_is_possible == s.black_queen_castle_is_possible
                },
                Color::Black => {
                    &&& !next.black_king_castle_is_possible
                    &&& !next.black_queen_castle_is_possible
                    &&& next.white_king_castle_is_possible == s.white_king_castle_is_possible
                    &&& next.white_queen_castle_is_possible == s.white_queen_castle_is_possible
                },
            }
        }),
{
}

/// Among the children of a position, the one that the search picks has the
/// largest value, and no child before it has a value as large.
pub proof fn lemma_first_best_is_first_largest(s: State, player: Color, depth: nat, n: nat)
    requires
        depth > 0,
        n > 0,
    ensures
        forall|j: int|
            0 <= j < n ==> #[trigger] child_value(s, player, depth, player, j) <= child_value(
                s,
                player,
                depth,
                player,
                first_best_upto(s, player, depth, player, n),
            ),
        forall|j: int|
            0 <= j < first_best_upto(s, player, depth, player, n) ==> #[trigger] child_value(
                s,
                player,
                depth,
                player,
                j,
            ) < child_value(s, player, depth, player, first_best_upto(s, player, depth, player, n)),
    decreases n,
{
    if n > 1 {
        lemma_first_best_is_first_largest(s, player, depth, (n - 1) as nat);
        lemma_first_best(s, player, depth, (n - 1) as nat);
    }
}

/// What a move of `player` is worth one ply deep: the static score of the
/// position it leads to, seen from `player`.
pub open spec fn one_ply_value(s: State, player: Color, i: int) -> int {
    leaf_value(state_after(s, player, all_moves(s, player)[i]), player.opponent(), player)
}

/// At depth 1 the search returns the move with the largest one-ply value:
/// none of the moves of `player` is worth more, none before it is worth as
/// much, and the score returned is what it is worth.
pub proof fn lemma_depth_one_is_arg_max(s: State, player: Color) -> (k: int)
    requires
        all_moves(s, player).len() > 0,
    ensures
        0 <= k < all_moves(s, player).len(),
        best_move(s, player, 1) == Some(all_moves(s, player)[k]),
        search_value(s, player, 1, player) == one_ply_value(s, player, k),
        forall|j: int|
            0 <= j < all_moves(s, player).len() ==> #[trigger] one_ply_value(s, player, j)
                <= one_ply_value(s, player, k),
        forall|j: int| 0 <= j < k ==> #[trigger] one_ply_value(s, player, j) < one_ply_value(
            s,
            player,
            k,
        ),
{
    let n = all_moves(s, player).len();
    let k = first_best_upto(s, player, 1, player, n);
    lemma_first_best(s, player, 1, n);
    lemma_first_best_is_first_largest(s, player, 1, n);
    assert forall|j: int| 0 <= j < n implies #[trigger] one_ply_value(s, player, j)
        == child_value(s, player, 1, player, j) by {}
    k
}

/// A move touches neither what a state remembers of the kings on the grid
/// nor its check flags: those stay as they were until they are refreshed.
pub proof fn lemma_move_leaves_flags_stale(s: State, player: Color, mv: MoveStruct)
    ensures
        state_after(s, player, mv).white_king_on_board == s.white_king_on_board,
        state_after(s, player, mv).black_king_on_board == s.black_king_on_board,
        state_after(s, player, mv).white_king_is_checked == s.white_king_is_checked,
        state_after(s, player, mv).black_king_is_checked == s.black_king_is_checked,
        state_after(s, player, mv).current_player == player.opponent(),
{
}

/// No move gives back a right to castle.
pub proof fn lemma_rights_only_end(s: State, player: Color, mv: MoveStruct)
    ensures
        state_after(s, player, mv).white_king_castle_is_possible
            ==> s.white_king_castle_is_possible,
        state_after(s, player, mv).white_queen_castle_is_possible
            ==> s.white_queen_castle_is_possible,
        state_after(s, player, mv).black_king_castle_is_possible
            ==> s.black_king_castle_is_possible,
        state_after(s, player, mv).black_queen_castle_is_possible
            ==> s.black_queen_castle_is_possible,
{
}

/// Every number in an attack map is the number of a square of the grid.
pub proof fn lemma_attack_map_stays_on_grid(b: Board, player: Color, k: usize)
    requires
        attack_set(b, player).contains(k),
    ensures
        k < 64,
{
    let moves = attack_moves(b, player);
    lemma_pseudo_moves_sound(b, player, true, Set::empty());
    let at = choose|at: int| 0 <= at < moves.len() && flat(#[trigger] moves[at].1) == k;
    assert(on_board(moves[at].1));
}

} // verus!
