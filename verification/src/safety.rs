//! What legal play does to the safety of the kings.

use vstd::prelude::*;
use crate::attack::{
    attack_set, in_check, kings_adjacent, lemma_attacked_by_piece, lemma_king_attacks_neighbours,
    lemma_piece_attacks, lemma_step_is_neighbour, neighbours, reference_king,
};
use crate::board::{
    Board, cell, flat, king_of, lemma_put_cell, on_board, owned_by, put, shift, Square, square_at,
};
use crate::castling::{
    back_rank, castle_moves, king_side_open, king_side, queen_side_open, queen_side,
};
use crate::legal::{
    legal_moves, lemma_legal_moves_are_generated, lemma_plain_move_keeps_kings_apart,
};
use crate::lists::{
    lemma_contains_concat, lemma_king_move_is_step, lemma_king_moves_accepted,
    lemma_king_moves_contain, lemma_knight_move_is_jump, lemma_knight_moves_contain,
    lemma_piece_moves_leave, lemma_rays_contain, lemma_rays_member, lemma_scan_king_moves_accepted,
    lemma_scan_member,
};
use crate::movegen::{
    bishop_steps, is_direction, king_accepts, king_moves_upto, king_steps, pawn_moves_of,
    piece_moves_of, pseudo_moves_of, ray_moves, rays_upto, reach, rook_steps, room,
};
use crate::pieces::{Castle, Color, piece_type_of, PieceType};
use crate::state::State;
use crate::transition::{
    arriving_piece, board_after_castle, board_after_move, lemma_castle_cells, lemma_move_cells,
};

verus! {

/// `c` lies ahead of `a` for one who walks in direction `d`.
pub open spec fn ahead(a: Square, c: Square, d: Square) -> bool {
    &&& d.0 > 0 ==> c.0 > a.0
    &&& d.0 < 0 ==> c.0 < a.0
    &&& d.0 == 0 ==> c.0 == a.0
    &&& d.1 > 0 ==> c.1 > a.1
    &&& d.1 < 0 ==> c.1 < a.1
    &&& d.1 == 0 ==> c.1 == a.1
}

/// The square on which the king stands after `castle`.
pub open spec fn landing(castle: Castle) -> Square {
    match castle {
        Castle::KingSideWhite => (7isize, 6isize),
        Castle::QueenSideWhite => (7isize, 2isize),
        Castle::KingSideBlack => (0isize, 6isize),
        Castle::QueenSideBlack => (0isize, 2isize),
    }
}

/// A piece of kind `kind` moves along direction `d`.
pub open spec fn moves_along(kind: PieceType, d: Square) -> bool {
    match kind {
        PieceType::Rook => rook_steps().contains(d),
        PieceType::Bishop => bishop_steps().contains(d),
        PieceType::Queen => rook_steps().contains(d) || bishop_steps().contains(d),
        _ => false,
    }
}

/// A rook, bishop or queen of `p` on `q` attacks `a` along direction `d`.
pub open spec fn attacks_along(b: Board, p: Color, q: Square, d: Square, a: Square) -> bool {
    &&& on_board(q)
    &&& owned_by(b, p, q)
    &&& moves_along(piece_type_of(cell(b, q) as int), d)
    &&& ray_moves(b, p, true, q, q, d).contains((q, a))
}

/// A piece of the other side attacks the king of `player` on `a` along a
/// line, and `t` is the next square on that line behind the king.
pub open spec fn steps_back_along_attack(b: Board, player: Color, a: Square, t: Square) -> bool {
    exists|q: Square, d: Square|
        #[trigger] attacks_along(b, player.opponent(), q, d, a) && t == shift(a, d)
}

/// A square that a piece attacks along a ray lies ahead of where the ray
/// starts.
proof fn lemma_ray_ahead(b: Board, p: Color, from: Square, cur: Square, d: Square, t: Square)
    requires
        ray_moves(b, p, true, from, cur, d).contains((from, t)),
    ensures
        ahead(cur, t, d),
        on_board(t),
    decreases room(cur, d),
{
    let sq = shift(cur, d);
    let ray = ray_moves(b, p, true, from, cur, d);
    let at = choose|at: int| 0 <= at < ray.len() && ray[at] == (from, t);
    if !is_direction(d) || !on_board(cur) || !on_board(sq) {
    } else if reach(b, p, true, sq).1 {
    } else {
        let rest = ray_moves(b, p, true, from, sq, d);
        lemma_contains_concat(seq![(from, sq)], rest, (from, t));
        if rest.contains((from, t)) {
            lemma_ray_ahead(b, p, from, sq, d, t);
        } else {
            assert(seq![(from, sq)].contains((from, t)));
            let i = choose|i: int|
                0 <= i < seq![(from, sq)].len() && seq![(from, sq)][i] == (from, t);
        }
    }
}

/// What a piece attacks along a ray on one grid, it attacks on another grid
/// too, unless a piece of the other grid stands in the way; and then it
/// attacks that piece.
proof fn lemma_ray_transfer(
    b1: Board,
    b2: Board,
    p: Color,
    from: Square,
    cur: Square,
    d: Square,
    t: Square,
) -> (y: Square)
    requires
        ray_moves(b1, p, true, from, cur, d).contains((from, t)),
    ensures
        ray_moves(b2, p, true, from, cur, d).contains((from, y)),
        on_board(y),
        is_direction(d),
        y == t || (cell(b2, y) != 0 && cell(b1, y) == 0 && ahead(cur, y, d) && ahead(y, t, d)),
    decreases room(cur, d),
{
    let sq = shift(cur, d);
    let ray1 = ray_moves(b1, p, true, from, cur, d);
    let ray2 = ray_moves(b2, p, true, from, cur, d);
    let at = choose|at: int| 0 <= at < ray1.len() && ray1[at] == (from, t);
    assert(is_direction(d) && on_board(cur) && on_board(sq));
    assert(ray2[0] == (from, sq));
    if reach(b1, p, true, sq).1 {
        sq
    } else {
        let rest1 = ray_moves(b1, p, true, from, sq, d);
        lemma_contains_concat(seq![(from, sq)], rest1, (from, t));
        if rest1.contains((from, t)) {
            if reach(b2, p, true, sq).1 {
                lemma_ray_ahead(b1, p, from, sq, d, t);
                sq
            } else {
                let y = lemma_ray_transfer(b1, b2, p, from, sq, d, t);
                let rest2 = ray_moves(b2, p, true, from, sq, d);
                lemma_contains_concat(seq![(from, sq)], rest2, (from, y));
                y
            }
        } else {
            assert(seq![(from, sq)].contains((from, t)));
            let i = choose|i: int|
                0 <= i < seq![(from, sq)].len() && seq![(from, sq)][i] == (from, t);
            sq
        }
    }
}

/// What a piece attacks along its rays on one grid, it attacks on another
/// grid too and along the same ray, unless a piece of the other grid stands
/// in the way; and then it attacks that piece.
proof fn lemma_rays_transfer(
    b1: Board,
    b2: Board,
    p: Color,
    from: Square,
    steps: Seq<Square>,
    n: nat,
    t: Square,
) -> (found: (Square, int))
    requires
        rays_upto(b1, p, true, from, steps, n).contains((from, t)),
    ensures
        0 <= found.1 < n,
        ray_moves(b2, p, true, from, from, steps[found.1]).contains((from, found.0)),
        rays_upto(b2, p, true, from, steps, n).contains((from, found.0)),
        on_board(found.0),
        is_direction(steps[found.1]),
        found.0 == t || (cell(b2, found.0) != 0 && cell(b1, found.0) == 0 && ahead(
            from,
            found.0,
            steps[found.1],
        ) && ahead(found.0, t, steps[found.1])),
{
    let k = lemma_rays_member(b1, p, true, from, steps, n, (from, t));
    let y = lemma_ray_transfer(b1, b2, p, from, from, steps[k], t);
    lemma_rays_contain(b2, p, true, from, steps, n, k, (from, y));
    (y, k)
}

/// A ray that ends on a piece runs one square further once that piece has
/// gone and the squares before it are as they were.
proof fn lemma_ray_runs_on(
    b1: Board,
    b2: Board,
    p: Color,
    from: Square,
    cur: Square,
    d: Square,
    a: Square,
)
    requires
        ray_moves(b1, p, true, from, cur, d).contains((from, a)),
        cell(b1, a) != 0,
        cell(b2, a) == 0,
        on_board(shift(a, d)),
        forall|sq: Square|
            on_board(sq) && sq != a && sq != shift(a, d) ==> #[trigger] cell(b2, sq) == cell(b1, sq),
    ensures
        ray_moves(b2, p, true, from, cur, d).contains((from, shift(a, d))),
    decreases room(cur, d),
{
    let sq = shift(cur, d);
    let t = shift(a, d);
    let ray1 = ray_moves(b1, p, true, from, cur, d);
    let at = choose|at: int| 0 <= at < ray1.len() && ray1[at] == (from, a);
    assert(is_direction(d) && on_board(cur) && on_board(sq));
    let rest2 = ray_moves(b2, p, true, from, sq, d);
    lemma_contains_concat(seq![(from, sq)], rest2, (from, t));
    if sq == a {
        assert(ray_moves(b2, p, true, from, a, d)[0] == (from, t));
    } else {
        let rest1 = ray_moves(b1, p, true, from, sq, d);
        lemma_contains_concat(seq![(from, sq)], rest1, (from, a));
        if !rest1.contains((from, a)) {
            if reach(b1, p, true, sq).1 {
                assert(ray1 =~= seq![(from, sq)]);
            }
            assert(seq![(from, sq)].contains((from, a)));
            let i = choose|i: int|
                0 <= i < seq![(from, sq)].len() && seq![(from, sq)][i] == (from, a);
        }
        assert(cell(b1, sq) == 0);
        lemma_ray_ahead(b1, p, from, sq, d, a);
        assert(sq != t);
        lemma_ray_runs_on(b1, b2, p, from, sq, d, a);
    }
}

/// A piece that attacks a square along a line has that square in the attack
/// map of its side.
pub proof fn lemma_attack_along_is_attack(b: Board, p: Color, q: Square, d: Square, a: Square)
    requires
        attacks_along(b, p, q, d, a),
    ensures
        piece_moves_of(b, p, true, Set::empty(), q).contains((q, a)),
        attack_set(b, p).contains(flat(a)),
{
    let kind = piece_type_of(cell(b, q) as int);
    let rook = rays_upto(b, p, true, q, rook_steps(), 4);
    let bishop = rays_upto(b, p, true, q, bishop_steps(), 4);
    if rook_steps().contains(d) && (kind == PieceType::Rook || kind == PieceType::Queen) {
        let k = choose|k: int| 0 <= k < rook_steps().len() && rook_steps()[k] == d;
        lemma_rays_contain(b, p, true, q, rook_steps(), 4, k, (q, a));
    } else {
        let k = choose|k: int| 0 <= k < bishop_steps().len() && bishop_steps()[k] == d;
        lemma_rays_contain(b, p, true, q, bishop_steps(), 4, k, (q, a));
    }
    lemma_contains_concat(rook, bishop, (q, a));
    lemma_piece_attacks(b, p, q, (q, a));
}

/// What a rook, bishop or queen attacks on one grid it attacks on another
/// grid where it stands too, unless a piece of the other grid stands in the
/// way; and then it attacks that piece.
proof fn lemma_slider_attack_transfer(b1: Board, b2: Board, p: Color, q: Square, t: Square) -> (found:
    (Square, Square))
    requires
        on_board(q),
        owned_by(b1, p, q),
        cell(b1, q) == cell(b2, q),
        piece_type_of(cell(b1, q) as int) == PieceType::Rook || piece_type_of(cell(b1, q) as int)
            == PieceType::Bishop || piece_type_of(cell(b1, q) as int) == PieceType::Queen,
        piece_moves_of(b1, p, true, Set::empty(), q).contains((q, t)),
    ensures
        on_board(found.0),
        is_direction(found.1),
        attacks_along(b2, p, q, found.1, found.0),
        found.0 == t || (cell(b2, found.0) != 0 && cell(b1, found.0) == 0 && ahead(
            q,
            found.0,
            found.1,
        ) && ahead(found.0, t, found.1)),
{
    let kind = piece_type_of(cell(b1, q) as int);
    let hit = (q, t);
    let rook1 = rays_upto(b1, p, true, q, rook_steps(), 4);
    let bishop1 = rays_upto(b1, p, true, q, bishop_steps(), 4);
    lemma_contains_concat(rook1, bishop1, hit);
    let along_rook = kind == PieceType::Rook || (kind == PieceType::Queen && rook1.contains(hit));
    let steps = if along_rook {
        rook_steps()
    } else {
        bishop_steps()
    };
    let got = lemma_rays_transfer(b1, b2, p, q, steps, 4, t);
    assert(steps.contains(steps[got.1]));
    (got.0, steps[got.1])
}

/// What a king, a knight or a pawn attacks on one grid it attacks on another
/// grid where it stands too. For a pawn, the square must not hold the king
/// of its own side on the other grid.
proof fn lemma_stepper_attack_transfer(b1: Board, b2: Board, p: Color, q: Square, t: Square)
    requires
        on_board(q),
        on_board(t),
        owned_by(b1, p, q),
        cell(b1, q) == cell(b2, q),
        piece_type_of(cell(b1, q) as int) == PieceType::King || piece_type_of(cell(b1, q) as int)
            == PieceType::Knight || piece_type_of(cell(b1, q) as int) == PieceType::Pawn,
        piece_moves_of(b1, p, true, Set::empty(), q).contains((q, t)),
        !king_of(b2, p, t),
    ensures
        piece_moves_of(b2, p, true, Set::empty(), q).contains((q, t)),
{
    let none = Set::<usize>::empty();
    let kind = piece_type_of(cell(b1, q) as int);
    let hit = (q, t);
    if kind == PieceType::King {
        let k = lemma_king_move_is_step(b1, p, true, none, q, 8, hit);
        lemma_king_moves_contain(b2, p, true, none, q, 8, k);
    } else if kind == PieceType::Knight {
        let k = lemma_knight_move_is_jump(b1, p, true, q, 8, hit);
        lemma_knight_moves_contain(b2, p, true, q, 8, k);
    } else {
        let list = pawn_moves_of(b1, p, true, q);
        let same = pawn_moves_of(b2, p, true, q);
        let at = choose|at: int| 0 <= at < list.len() && list[at] == hit;
        let ahead_rank = (q.0 - p.sign()) as isize;
        let high = (ahead_rank, (q.1 + 1) as isize);
        let low = (ahead_rank, (q.1 - 1) as isize);
        if t == high {
            assert(same[0] == hit);
        } else {
            assert(t == low);
            assert(same[same.len() - 1] == hit);
        }
    }
}

/// What a side attacks on one grid it attacks on another grid on which the
/// attacking piece stands too, unless a piece of the other grid stands in
/// the way of a rook, bishop or queen; and then that one attacks the piece
/// in its way. The square must not hold the king of the attacking side on
/// the other grid.
proof fn lemma_attack_transfer(b1: Board, b2: Board, p: Color, q: Square, t: Square) -> (found: (
    Square,
    Square,
))
    requires
        on_board(q),
        on_board(t),
        owned_by(b1, p, q),
        cell(b1, q) == cell(b2, q),
        piece_moves_of(b1, p, true, Set::empty(), q).contains((q, t)),
        !king_of(b2, p, t),
    ensures
        on_board(found.0),
        attack_set(b2, p).contains(flat(found.0)),
        found.0 == t || (attacks_along(b2, p, q, found.1, found.0) && is_direction(found.1)
            && cell(b2, found.0) != 0 && cell(b1, found.0) == 0 && ahead(q, found.0, found.1)
            && ahead(found.0, t, found.1)),
{
    let kind = piece_type_of(cell(b1, q) as int);
    if kind == PieceType::King || kind == PieceType::Knight || kind == PieceType::Pawn {
        lemma_stepper_attack_transfer(b1, b2, p, q, t);
        lemma_piece_attacks(b2, p, q, (q, t));
        (t, t)
    } else if kind == PieceType::Empty {
        let list = piece_moves_of(b1, p, true, Set::empty(), q);
        let at = choose|at: int| 0 <= at < list.len() && list[at] == (q, t);
        (t, t)
    } else {
        let found = lemma_slider_attack_transfer(b1, b2, p, q, t);
        lemma_attack_along_is_attack(b2, p, q, found.1, found.0);
        found
    }
}

/// A legal move leaves the kings apart if they were apart.
pub proof fn lemma_legal_move_keeps_kings_apart(b: Board, player: Color, i: int)
    requires
        !kings_adjacent(b),
        0 <= i < legal_moves(b, player).len(),
    ensures
        !kings_adjacent(board_after_move(b, legal_moves(b, player)[i])),
{
    let attacked = attack_set(b, player.opponent());
    let pseudo = pseudo_moves_of(b, player, false, attacked);
    let mv = legal_moves(b, player)[i];
    lemma_legal_moves_are_generated(b, player, i);
    let after = board_after_move(b, mv);
    if kings_adjacent(after) {
        if !king_of(b, player, mv.0) {
            lemma_plain_move_keeps_kings_apart(b, player, mv);
        } else {
            lemma_scan_king_moves_accepted(b, player, false, attacked, 64);
            let at = choose|at: int| 0 <= at < pseudo.len() && pseudo[at] == mv;
            assert(king_accepts(b, player, false, attacked, pseudo[at].1));
            let (w, k) = choose|w: Square, k: Square|
                #![trigger cell(after, w), cell(after, k)]
                on_board(w) && on_board(k) && neighbours(w, k) && cell(after, w) == 1 && cell(
                    after,
                    k,
                ) == -1;
            let placed = arriving_piece(cell(b, mv.0), mv.1);
            lemma_put_cell(b, mv.0, 0, w);
            lemma_put_cell(put(b, mv.0, 0), mv.1, placed, w);
            lemma_put_cell(b, mv.0, 0, k);
            lemma_put_cell(put(b, mv.0, 0), mv.1, placed, k);
            let (mine, theirs) = if player == Color::White {
                (w, k)
            } else {
                (k, w)
            };
            assert(theirs != mv.1 && theirs != mv.0);
            assert(king_of(b, player.opponent(), theirs));
            if mine == mv.1 {
                lemma_king_attacks_neighbours(b, player.opponent(), theirs, mine);
            } else {
                assert(cell(b, w) == 1 && cell(b, k) == -1);
            }
        }
    }
}

/// A castle that is open leaves the kings apart if they were apart.
pub proof fn lemma_castle_keeps_kings_apart(s: State, player: Color, i: int)
    requires
        !kings_adjacent(s.board),
        0 <= i < castle_moves(s, player).len(),
    ensures
        !kings_adjacent(board_after_castle(s.board, castle_moves(s, player)[i])),
{
    let b = s.board;
    let attacked = attack_set(b, player.opponent());
    let castle = castle_moves(s, player)[i];
    let after = board_after_castle(b, castle);
    let r = back_rank(player);
    assert(castle == queen_side(player) || castle == king_side(player));
    assert(castle == queen_side(player) ==> queen_side_open(b, player, attacked));
    assert(castle == king_side(player) ==> king_side_open(b, player, attacked));
    if kings_adjacent(after) {
        let (w, k) = choose|w: Square, k: Square|
            #![trigger cell(after, w), cell(after, k)]
            on_board(w) && on_board(k) && neighbours(w, k) && cell(after, w) == 1 && cell(after, k)
                == -1;
        lemma_castle_cells(b, castle, w);
        lemma_castle_cells(b, castle, k);
        let (mine, theirs) = if player == Color::White {
            (w, k)
        } else {
            (k, w)
        };
        assert(king_of(b, player.opponent(), theirs));
        if cell(b, mine) == player.king_id() && cell(after, mine) == cell(b, mine) && !(mine.0 == r
            && (mine.1 == 2 || mine.1 == 6)) {
            assert(cell(b, w) == 1 && cell(b, k) == -1);
        } else {
            lemma_king_attacks_neighbours(b, player.opponent(), theirs, mine);
        }
    }
}

/// A king that stands on a square which the other side does not attack is
/// not in check.
pub proof fn lemma_king_on_safe_square_is_safe(b: Board, player: Color, sq: Square)
    requires
        reference_king(b, player, sq),
        !attack_set(b, player.opponent()).contains(flat(sq)),
    ensures
        !in_check(b, player),
{
    assert forall|other: Square| #[trigger] reference_king(b, player, other) implies other
        == sq by {
        assert(king_of(b, player, other));
        assert(king_of(b, player, sq));
    }
}

/// A legal move that is not made with the king leaves the mover's king out
/// of check: on the grid after the move, the square of that king is not in
/// the attack map of the other side.
pub proof fn lemma_legal_move_leaves_king_safe(b: Board, player: Color, i: int)
    requires
        0 <= i < legal_moves(b, player).len(),
        !king_of(b, player, legal_moves(b, player)[i].0),
    ensures
        !in_check(board_after_move(b, legal_moves(b, player)[i]), player),
{
    lemma_legal_moves_are_generated(b, player, i);
}

/// Once a side has castled, the other side does not attack the square on
/// which its king has landed.
pub proof fn lemma_castle_lands_on_safe_square(s: State, player: Color, i: int)
    requires
        0 <= i < castle_moves(s, player).len(),
    ensures
        !attack_set(
            board_after_castle(s.board, castle_moves(s, player)[i]),
            player.opponent(),
        ).contains(flat(landing(castle_moves(s, player)[i]))),
{
    let before = s.board;
    let opp = player.opponent();
    let attacked = attack_set(before, opp);
    let castle = castle_moves(s, player)[i];
    let after = board_after_castle(before, castle);
    let r = back_rank(player);
    let home = landing(castle);
    assert(castle == queen_side(player) || castle == king_side(player));
    assert(castle == queen_side(player) ==> queen_side_open(before, player, attacked));
    assert(castle == king_side(player) ==> king_side_open(before, player, attacked));
    assert(home.0 == r);
    assert(cell(before, home) == 0);
    if attack_set(after, opp).contains(flat(home)) {
        let q = lemma_attacked_by_piece(after, opp, home);
        lemma_castle_cells(before, castle, q);
        let found = lemma_attack_transfer(after, before, opp, q, home);
        let y = found.0;
        lemma_castle_cells(before, castle, y);
        assert(y == home || (y.0 == r && y.1 == 4));
        assert(attacked.contains(flat(y)));
    }
}

/// A legal move of a king is one of its eight steps, to a square of the grid
/// that holds no piece of its side and that the other side does not attack
/// as the grid stands before the move.
pub proof fn lemma_king_move_is_accepted(b: Board, player: Color, i: int) -> (k: int)
    requires
        0 <= i < legal_moves(b, player).len(),
        king_of(b, player, legal_moves(b, player)[i].0),
    ensures
        0 <= k < 8,
        legal_moves(b, player)[i].1 == shift(legal_moves(b, player)[i].0, king_steps()[k]),
        on_board(legal_moves(b, player)[i].0),
        on_board(legal_moves(b, player)[i].1),
        !attack_set(b, player.opponent()).contains(flat(legal_moves(b, player)[i].1)),
        !owned_by(b, player, legal_moves(b, player)[i].1),
{
    let attacked = attack_set(b, player.opponent());
    let mv = legal_moves(b, player)[i];
    lemma_legal_moves_are_generated(b, player, i);
    let j = lemma_scan_member(b, player, false, attacked, 64, mv);
    lemma_piece_moves_leave(b, player, false, attacked, square_at(j));
    let here = piece_moves_of(b, player, false, attacked, square_at(j));
    let at = choose|at: int| 0 <= at < here.len() && here[at] == mv;
    assert(here[at].0 == square_at(j));
    let k = lemma_king_move_is_step(b, player, false, attacked, mv.0, 8, mv);
    lemma_king_moves_accepted(b, player, false, attacked, mv.0, 8);
    assert(king_moves_upto(b, player, false, attacked, mv.0, 8)[at] == mv);
    k
}

/// A legal move of the king takes it to a square that the other side does
/// not attack once the move is made, unless the king steps back along the
/// very line on which a rook, bishop or queen attacks it.
pub proof fn lemma_king_move_lands_on_safe_square(b: Board, player: Color, i: int)
    requires
        !kings_adjacent(b),
        0 <= i < legal_moves(b, player).len(),
        king_of(b, player, legal_moves(b, player)[i].0),
        !steps_back_along_attack(
            b,
            player,
            legal_moves(b, player)[i].0,
            legal_moves(b, player)[i].1,
        ),
    ensures
        !attack_set(board_after_move(b, legal_moves(b, player)[i]), player.opponent()).contains(
            flat(legal_moves(b, player)[i].1),
        ),
{
    let opp = player.opponent();
    let mv = legal_moves(b, player)[i];
    let a = mv.0;
    let t = mv.1;
    let after = board_after_move(b, mv);
    let step = lemma_king_move_is_accepted(b, player, i);
    lemma_step_is_neighbour(a, step);
    if king_of(b, opp, t) {
        if player == Color::White {
            assert(cell(b, a) == 1 && cell(b, t) == -1);
        } else {
            assert(cell(b, t) == 1 && cell(b, a) == -1);
        }
    }
    if attack_set(after, opp).contains(flat(t)) {
        let q = lemma_attacked_by_piece(after, opp, t);
        lemma_move_cells(b, mv, q);
        let found = lemma_attack_transfer(after, b, opp, q, t);
        let y = found.0;
        let d = found.1;
        lemma_move_cells(b, mv, y);
        if y != t {
            assert(y == a);
            assert(attacks_along(b, opp, q, d, a));
            assert(t == shift(a, d));
        }
    }
}

/// A king that is not attacked where it stands cannot make a legal move to
/// a square that is attacked once the move is made.
pub proof fn lemma_king_out_of_check_stays_out(b: Board, player: Color, i: int)
    requires
        !kings_adjacent(b),
        0 <= i < legal_moves(b, player).len(),
        king_of(b, player, legal_moves(b, player)[i].0),
        !attack_set(b, player.opponent()).contains(flat(legal_moves(b, player)[i].0)),
    ensures
        !attack_set(board_after_move(b, legal_moves(b, player)[i]), player.opponent()).contains(
            flat(legal_moves(b, player)[i].1),
        ),
{
    let a = legal_moves(b, player)[i].0;
    let t = legal_moves(b, player)[i].1;
    if steps_back_along_attack(b, player, a, t) {
        let (q, d) = choose|q: Square, d: Square|
            #[trigger] attacks_along(b, player.opponent(), q, d, a) && t == shift(a, d);
        lemma_attack_along_is_attack(b, player.opponent(), q, d, a);
    }
    lemma_king_move_lands_on_safe_square(b, player, i);
}

/// A king that steps back along the line on which a rook, bishop or queen
/// attacks it is attacked on the square it steps to.
pub proof fn lemma_stepping_back_along_attack_is_unsafe(b: Board, player: Color, i: int)
    requires
        0 <= i < legal_moves(b, player).len(),
        king_of(b, player, legal_moves(b, player)[i].0),
        steps_back_along_attack(
            b,
            player,
            legal_moves(b, player)[i].0,
            legal_moves(b, player)[i].1,
        ),
    ensures
        attack_set(board_after_move(b, legal_moves(b, player)[i]), player.opponent()).contains(
            flat(legal_moves(b, player)[i].1),
        ),
{
    let opp = player.opponent();
    let mv = legal_moves(b, player)[i];
    let a = mv.0;
    let t = mv.1;
    let after = board_after_move(b, mv);
    let step = lemma_king_move_is_accepted(b, player, i);
    let (q, d) = choose|q: Square, d: Square|
        #[trigger] attacks_along(b, opp, q, d, a) && t == shift(a, d);
    assert forall|sq: Square| on_board(sq) && sq != a && sq != shift(a, d) implies #[trigger] cell(
        after,
        sq,
    ) == cell(b, sq) by {
        lemma_move_cells(b, mv, sq);
    }
    lemma_move_cells(b, mv, a);
    lemma_move_cells(b, mv, q);
    lemma_ray_ahead(b, opp, q, q, d, a);
    lemma_ray_runs_on(b, after, opp, q, q, d, a);
    assert(attacks_along(after, opp, q, d, t));
    lemma_attack_along_is_attack(after, opp, q, d, t);
}

} // verus!
