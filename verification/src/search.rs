//! The search: minimax to a fixed depth, with alpha-beta cut-offs.
//!
//! The value of a position is taken from the point of view of one player,
//! fixed at the root and here called `max`. At a leaf it is the static score
//! of the side to move, with its sign turned where that side is not `max`.
//! Elsewhere it is the largest value among the children where `max` is to
//! move, and the smallest where its opponent is. The cut-offs change which
//! positions are visited, never the value or the move found at the root.

use vstd::prelude::*;
use crate::attack::kings_adjacent;
use crate::board::{get_other_player, Move, MoveStruct};
use crate::castling::castle_moves;
use crate::error::ChessError;
use crate::evaluation::{evaluate, evaluation, lemma_evaluation_bounds, score_bound};
use crate::legal::{get_all_possible_moves, legal_moves, lemma_legal_moves_are_generated};
use crate::pieces::{Castle, Color};
use crate::safety::{lemma_castle_keeps_kings_apart, lemma_legal_move_keeps_kings_apart};
use crate::state::State;
use crate::transition::{applicable, board_after, next_state, state_after};

verus! {

/// `moves`, each as a relocation, followed by `castles`, each as a castle.
pub open spec fn joined(moves: Seq<Move>, castles: Seq<Castle>) -> Seq<MoveStruct> {
    Seq::new(
        moves.len() + castles.len(),
        |i: int|
            if i < moves.len() {
                MoveStruct::Normal(moves[i])
            } else {
                MoveStruct::Castle(castles[i - moves.len()])
            },
    )
}

/// Everything that `player` may do in `s`: its legal moves in the order of
/// the scan, then the castles open to it.
pub open spec fn all_moves(s: State, player: Color) -> Seq<MoveStruct> {
    joined(legal_moves(s.board, player), castle_moves(s, player))
}

/// The value of `s` as a leaf with `player` to move: its static score for
/// `player`, with the sign turned if `player` is not `max`.
pub open spec fn leaf_value(s: State, player: Color, max: Color) -> int {
    if player == max {
        evaluation(s.board, player)
    } else {
        -evaluation(s.board, player)
    }
}

/// The minimax value of `s` with `player` to move and `depth` plies to go.
pub open spec fn search_value(s: State, player: Color, depth: nat, max: Color) -> int
    decreases depth, 1nat, 0nat,
{
    let moves = all_moves(s, player);
    if depth == 0 || moves.len() == 0 {
        leaf_value(s, player, max)
    } else {
        best_upto(s, player, depth, max, moves.len())
    }
}

/// The best value among the first `n` children of `s`: the largest where
/// `player` is `max`, the smallest where it is not.
pub open spec fn best_upto(s: State, player: Color, depth: nat, max: Color, n: nat) -> int
    decreases depth, 0nat, n,
{
    if depth == 0 || n == 0 {
        0
    } else {
        let value = search_value(
            state_after(s, player, all_moves(s, player)[n - 1]),
            player.opponent(),
            (depth - 1) as nat,
            max,
        );
        if n == 1 {
            value
        } else {
            let before = best_upto(s, player, depth, max, (n - 1) as nat);
            if player == max {
                if value > before {
                    value
                } else {
                    before
                }
            } else {
                if value < before {
                    value
                } else {
                    before
                }
            }
        }
    }
}

/// The value of the child of `s` that move number `i` leads to.
pub open spec fn child_value(s: State, player: Color, depth: nat, max: Color, i: int) -> int {
    search_value(
        state_after(s, player, all_moves(s, player)[i]),
        player.opponent(),
        (depth - 1) as nat,
        max,
    )
}

/// Among the first `n` children of `s`, the number of the first one whose
/// value is the largest.
pub open spec fn first_best_upto(s: State, player: Color, depth: nat, max: Color, n: nat) -> int
    decreases n,
{
    if n <= 1 {
        0
    } else {
        let before = first_best_upto(s, player, depth, max, (n - 1) as nat);
        if child_value(s, player, depth, max, n - 1) > child_value(s, player, depth, max, before) {
            n - 1
        } else {
            before
        }
    }
}

/// The move that the search picks for `player` in `s`: the first of its
/// moves whose child has the largest value, or none at depth 0 and where
/// `player` has no move.
pub open spec fn best_move(s: State, player: Color, depth: nat) -> Option<MoveStruct> {
    let moves = all_moves(s, player);
    if depth == 0 || moves.len() == 0 {
        None
    } else {
        Some(moves[first_best_upto(s, player, depth, player, moves.len())])
    }
}

/// `score` tells as much of `value` as a search between `alpha` and `beta`
/// has to: it is `value` where that lies strictly between the two, and lies
/// on the same side as `value` where it does not.
pub open spec fn agrees_within(score: int, value: int, alpha: int, beta: int) -> bool {
    &&& value <= alpha ==> score <= alpha
    &&& value >= beta ==> score >= beta
    &&& alpha < value < beta ==> score == value
}

/// The value of the leaf at the end of the line of first moves: from `s`,
/// each side makes the first of its moves until `depth` plies are made or
/// a side cannot move. This is all that a search looks at when it is given
/// no room between its two bounds.
pub open spec fn first_line_value(s: State, player: Color, depth: nat, max: Color) -> int
    decreases depth,
{
    let moves = all_moves(s, player);
    if depth == 0 || moves.len() == 0 {
        leaf_value(s, player, max)
    } else {
        first_line_value(
            state_after(s, player, moves[0]),
            player.opponent(),
            (depth - 1) as nat,
            max,
        )
    }
}

/// What a search from `s` answers between `alpha` and `beta`.
///
/// At a leaf, the value of the leaf. With room between the bounds, a score
/// that agrees with the minimax value within them. Without room, the value
/// at the end of the line of first moves.
pub open spec fn answers(
    s: State,
    player: Color,
    depth: nat,
    max: Color,
    alpha: int,
    beta: int,
    score: int,
) -> bool {
    &&& (depth == 0 || all_moves(s, player).len() == 0) ==> score == leaf_value(s, player, max)
    &&& alpha < beta ==> agrees_within(score, search_value(s, player, depth, max), alpha, beta)
    &&& alpha >= beta ==> score == first_line_value(s, player, depth, max)
}

/// The move that a search from `s` answers between `alpha` and `beta` for a
/// score `score`.
///
/// None for the opponent of `max`, at depth 0, and where `player` cannot
/// move. With room between the bounds and the minimax value strictly within
/// them, the first move whose child has that value. Without room, the first
/// move if the score is above `alpha`, else none.
pub open spec fn answers_move(
    s: State,
    player: Color,
    depth: nat,
    max: Color,
    alpha: int,
    beta: int,
    score: int,
    best: Option<MoveStruct>,
) -> bool {
    let value = search_value(s, player, depth, max);
    let moves = all_moves(s, player);
    let inner = player == max && depth > 0 && moves.len() > 0;
    &&& !inner ==> best is None
    &&& inner && alpha < value < beta ==> best == Some(
        moves[first_best_upto(s, player, depth, max, moves.len())],
    )
    &&& inner && alpha >= beta ==> best == if score > alpha {
        Some(moves[0])
    } else {
        None
    }
}

/// The value at the end of the line of first moves lies within the bound of
/// the static score.
pub proof fn lemma_first_line_bounds(s: State, player: Color, depth: nat, max: Color)
    ensures
        -score_bound() <= first_line_value(s, player, depth, max) <= score_bound(),
    decreases depth,
{
    lemma_evaluation_bounds(s.board, player);
    let moves = all_moves(s, player);
    if depth > 0 && moves.len() > 0 {
        lemma_first_line_bounds(
            state_after(s, player, moves[0]),
            player.opponent(),
            (depth - 1) as nat,
            max,
        );
    }
}

/// Every value of the search lies within the bound of the static score.
pub proof fn lemma_search_value_bounds(s: State, player: Color, depth: nat, max: Color)
    ensures
        -score_bound() <= search_value(s, player, depth, max) <= score_bound(),
    decreases depth, 1nat, 0nat,
{
    lemma_evaluation_bounds(s.board, player);
    let moves = all_moves(s, player);
    if depth > 0 && moves.len() > 0 {
        lemma_best_upto_bounds(s, player, depth, max, moves.len());
    }
}

/// The best value among the first `n` children lies within the bound of the
/// static score.
pub proof fn lemma_best_upto_bounds(s: State, player: Color, depth: nat, max: Color, n: nat)
    requires
        depth > 0,
        n > 0,
    ensures
        -score_bound() <= best_upto(s, player, depth, max, n) <= score_bound(),
    decreases depth, 0nat, n,
{
    lemma_search_value_bounds(
        state_after(s, player, all_moves(s, player)[n - 1]),
        player.opponent(),
        (depth - 1) as nat,
        max,
    );
    if n > 1 {
        lemma_best_upto_bounds(s, player, depth, max, (n - 1) as nat);
    }
}

/// With more children looked at, the best value can only get better.
pub proof fn lemma_best_upto_grows(s: State, player: Color, depth: nat, max: Color, n: nat, m: nat)
    requires
        depth > 0,
        0 < n <= m,
    ensures
        player == max ==> best_upto(s, player, depth, max, n) <= best_upto(
            s,
            player,
            depth,
            max,
            m,
        ),
        player != max ==> best_upto(s, player, depth, max, n) >= best_upto(
            s,
            player,
            depth,
            max,
            m,
        ),
    decreases m,
{
    if n < m {
        lemma_best_upto_grows(s, player, depth, max, n, (m - 1) as nat);
    }
}

/// The first best child has the best value.
pub proof fn lemma_first_best(s: State, player: Color, depth: nat, n: nat)
    requires
        depth > 0,
        n > 0,
    ensures
        0 <= first_best_upto(s, player, depth, player, n) < n,
        child_value(s, player, depth, player, first_best_upto(s, player, depth, player, n))
            == best_upto(s, player, depth, player, n),
    decreases n,
{
    if n > 1 {
        lemma_first_best(s, player, depth, (n - 1) as nat);
    }
}

/// Whatever `player` may do in `s` can be applied, and leaves the kings apart
/// if they were apart.
pub proof fn lemma_play_keeps_kings_apart(s: State, player: Color, i: int)
    requires
        !kings_adjacent(s.board),
        0 <= i < all_moves(s, player).len(),
    ensures
        applicable(s.board, all_moves(s, player)[i]),
        !kings_adjacent(board_after(s.board, all_moves(s, player)[i])),
{
    let moves = legal_moves(s.board, player);
    if i < moves.len() {
        lemma_legal_moves_are_generated(s.board, player, i);
        lemma_legal_move_keeps_kings_apart(s.board, player, i);
    } else {
        lemma_castle_keeps_kings_apart(s, player, i - moves.len());
    }
}

/// `moves`, each as a relocation, followed by `castle_moves`, each as a
/// castle.
fn join_moves(moves: &Vec<Move>, castle_moves: &Vec<Castle>) -> (all: Vec<MoveStruct>)
    ensures
        all@ == joined(moves@, castle_moves@),
{
    let mut all: Vec<MoveStruct> = Vec::new();
    let mut i: usize = 0;
    while i < moves.len()
        invariant
            i <= moves.len(),
            all@.len() == i,
            forall|j: int| 0 <= j < i ==> all@[j] == MoveStruct::Normal(moves@[j]),
        decreases moves.len() - i,
    {
        all.push(MoveStruct::Normal(moves[i]));
        i += 1;
    }
    let mut k: usize = 0;
    while k < castle_moves.len()
        invariant
            k <= castle_moves.len(),
            all@.len() == moves.len() + k,
            forall|j: int| 0 <= j < moves.len() ==> all@[j] == MoveStruct::Normal(moves@[j]),
            forall|j: int|
                0 <= j < k ==> all@[moves.len() + j] == MoveStruct::Castle(castle_moves@[j]),
        decreases castle_moves.len() - k,
    {
        all.push(MoveStruct::Castle(castle_moves[k]));
        k += 1;
    }
    assert(all@ =~= joined(moves@, castle_moves@));
    all
}

/// Searches `state` with `player` to move, `depth` plies deep, between
/// `alpha` and `beta`, for the player `max`.
///
/// Fails, and only then, on a grid whose kings are side by side. At depth 0
/// and where `player` cannot move, the score is the value of the leaf,
/// whatever the bounds. Elsewhere, with `alpha` below `beta`, the score
/// agrees with the minimax value within the two; where `player` is `max` and
/// the value lies strictly between them, the move is the first one whose
/// child has that value. With `alpha` not below `beta` the first move alone
/// is followed, down to a leaf. There is no move for the opponent of `max`,
/// at depth 0, and where `player` cannot move.
pub fn _minimax(
    state: &State,
    player: Color,
    depth: u32,
    alpha: isize,
    beta: isize,
    max: Color,
) -> (found: Result<(isize, Option<MoveStruct>), ChessError>)
    ensures
        found is Err <==> kings_adjacent(state.board),
        found matches Err(e) ==> e == ChessError::InternalInvariant,
        found matches Ok((score, best)) ==> {
            &&& answers(*state, player, depth as nat, max, alpha as int, beta as int, score as int)
            &&& answers_move(
                *state,
                player,
                depth as nat,
                max,
                alpha as int,
                beta as int,
                score as int,
                best,
            )
            &&& -score_bound() <= score <= score_bound()
        },
    decreases depth,
{
    let (moves, castle_moves) = match get_all_possible_moves(state, player, false) {
        Ok(found) => found,
        Err(e) => {
            return Err(e);
        },
    };
    let all = join_moves(&moves, &castle_moves);
    if all.len() == 0 || depth == 0 {
        let score = evaluate(state, player);
        if player == max {
            return Ok((score, None));
        } else {
            return Ok((-score, None));
        }
    }
    let other = get_other_player(player);
    let ghost d = depth as nat;
    let mut low = alpha;
    let mut high = beta;
    let mut best_score: isize = if player == max {
        isize::MIN
    } else {
        isize::MAX
    };
    let mut best_move: Option<MoveStruct> = None;
    let mut i: usize = 0;
    while i < all.len()
        invariant
            i <= all.len(),
            all.len() > 0,
            depth > 0,
            d == depth as nat,
            other == player.opponent(),
            all@ == all_moves(*state, player),
            !kings_adjacent(state.board),
            alpha < beta ==> low < high,
            alpha >= beta ==> {
                &&& i == 0
                &&& low == alpha
                &&& high == beta
                &&& best_move is None
                &&& best_score == if player == max {
                    isize::MIN
                } else {
                    isize::MAX
                }
            },
            alpha < beta && player == max ==> {
                &&& high == beta
                &&& i == 0 ==> best_score == isize::MIN && low == alpha && best_move is None
                &&& i > 0 ==> {
                    let seen = best_upto(*state, player, d, max, i as nat);
                    &&& seen < beta
                    &&& seen <= alpha ==> low == alpha && best_score <= alpha && best_move is None
                    &&& seen > alpha ==> low == seen && best_score == seen && best_move == Some(
                        all@[first_best_upto(*state, player, d, max, i as nat)],
                    )
                    &&& -score_bound() <= best_score <= score_bound()
                }
            },
            alpha < beta && player != max ==> {
                &&& low == alpha
                &&& best_move is None
                &&& i == 0 ==> best_score == isize::MAX && high == beta
                &&& i > 0 ==> {
                    let seen = best_upto(*state, player, d, max, i as nat);
                    &&& seen > alpha
                    &&& seen >= beta ==> high == beta && best_score >= beta
                    &&& seen < beta ==> high == seen && best_score == seen
                    &&& -score_bound() <= best_score <= score_bound()
                }
            },
        decreases all.len() - i,
    {
        let candidate = all[i];
        proof {
            lemma_play_keeps_kings_apart(*state, player, i as int);
        }
        let next = match next_state(state, player, candidate) {
            Ok((next, _)) => next,
            Err(e) => {
                return Err(e);
            },
        };
        let score = match _minimax(&next, other, depth - 1, low, high, max) {
            Ok((score, _)) => score,
            Err(e) => {
                return Err(e);
            },
        };
        let ghost child = child_value(*state, player, d, max, i as int);
        proof {
            assert(child == search_value(next, other, (depth - 1) as nat, max));
            lemma_search_value_bounds(next, other, (depth - 1) as nat, max);
            if i > 0 {
                lemma_first_best(*state, player, d, i as nat);
            }
            lemma_best_upto_grows(*state, player, d, max, (i + 1) as nat, all.len() as nat);
        }
        if player == max {
            if score > best_score {
                best_score = score;
            }
            if best_score > low {
                low = best_score;
                best_move = Some(candidate);
            }
        } else {
            if score < best_score {
                best_score = score;
            }
            if best_score < high {
                high = best_score;
            }
        }
        i += 1;
        // Nothing further down this branch can matter.
        if low >= high {
            proof {
                if alpha < beta {
                    let value = search_value(*state, player, d, max);
                    let seen = best_upto(*state, player, d, max, i as nat);
                    assert(value == best_upto(*state, player, d, max, all.len() as nat));
                    if player == max {
                        assert(child >= beta);
                        assert(seen >= child);
                        assert(value >= seen);
                    } else {
                        assert(child <= alpha);
                        assert(seen <= child);
                        assert(value <= seen);
                    }
                } else {
                    assert(score == first_line_value(*state, player, d, max));
                }
            }
            return Ok((best_score, best_move));
        }
    }
    proof {
        if player == max {
            lemma_first_best(*state, player, d, all.len() as nat);
        }
    }
    Ok((best_score, best_move))
}

/// The value of `state` for `player`, `depth` plies deep, and the move that
/// achieves it: the first move of `player` whose child has the largest
/// value. There is no move at depth 0 and where `player` cannot move. Fails,
/// and only then, on a grid whose kings are side by side.
pub fn minimax(state: &State, depth: u32, player: Color) -> (found: Result<
    (isize, Option<MoveStruct>),
    ChessError,
>)
    ensures
        found is Err <==> kings_adjacent(state.board),
        found matches Err(e) ==> e == ChessError::InternalInvariant,
        found matches Ok((score, best)) ==> {
            &&& score == search_value(*state, player, depth as nat, player)
            &&& best == best_move(*state, player, depth as nat)
        },
{
    proof {
        lemma_search_value_bounds(*state, player, depth as nat, player);
    }
    _minimax(state, player, depth, isize::MIN, isize::MAX, player)
}

} // verus!
