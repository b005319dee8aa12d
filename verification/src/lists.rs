//! What the lists of generated moves hold: where their moves leave from and
//! arrive, and which moves are in them.

use vstd::prelude::*;
use crate::board::{Board, king_of, Move, on_board, owned_by, shift, Square, square_at};
use crate::movegen::{
    bishop_steps, is_direction, king_accepts, king_moves_of, king_moves_upto, king_steps,
    knight_moves_upto, knight_steps, piece_moves_of, pseudo_moves_of, ray_moves, rays_upto, reach,
    rook_steps, room, scan_upto,
};
use crate::pieces::Color;

verus! {

/// What is in two sequences joined is in one of them.
pub proof fn lemma_contains_concat<A>(a: Seq<A>, b: Seq<A>, x: A)
    ensures
        (a + b).contains(x) <==> a.contains(x) || b.contains(x),
{
    if a.contains(x) {
        let i = choose|i: int| 0 <= i < a.len() && a[i] == x;
        assert((a + b)[i] == x);
    }
    if b.contains(x) {
        let i = choose|i: int| 0 <= i < b.len() && b[i] == x;
        assert((a + b)[a.len() + i] == x);
    }
    if (a + b).contains(x) {
        let i = choose|i: int| 0 <= i < (a + b).len() && (a + b)[i] == x;
        if i < a.len() {
            assert(a[i] == x);
        } else {
            assert(b[i - a.len()] == x);
        }
    }
}

/// What is in a sequence with one more item is that item or was there before.
pub proof fn lemma_contains_push<A>(a: Seq<A>, last: A, x: A)
    ensures
        a.push(last).contains(x) <==> a.contains(x) || last == x,
{
    assert(a.push(last) =~= a + seq![last]);
    lemma_contains_concat(a, seq![last], x);
    if seq![last].contains(x) {
        let i = choose|i: int| 0 <= i < seq![last].len() && seq![last][i] == x;
    }
    if last == x {
        assert(seq![last][0] == x);
    }
}

/// Filtering a sequence with one more item at its end.
pub proof fn lemma_filter_push<A>(s: Seq<A>, last: A, keep: spec_fn(A) -> bool)
    ensures
        s.push(last).filter(keep) == if keep(last) {
            s.filter(keep).push(last)
        } else {
            s.filter(keep)
        },
{
    reveal(Seq::filter);
    assert(s.push(last).drop_last() =~= s);
}

/// Filtering keeps what passes the test, so filtering twice changes nothing.
pub proof fn lemma_filter_again<A>(s: Seq<A>, keep: spec_fn(A) -> bool)
    ensures
        s.filter(keep).filter(keep) == s.filter(keep),
    decreases s.len(),
{
    reveal(Seq::filter);
    if s.len() > 0 {
        lemma_filter_again(s.drop_last(), keep);
        lemma_filter_push(s.drop_last().filter(keep), s.last(), keep);
    }
}

/// Every move of `moves` leaves from `from` and arrives on the grid.
pub open spec fn all_leave(moves: Seq<Move>, from: Square) -> bool {
    forall|i: int| 0 <= i < moves.len() ==> (#[trigger] moves[i]).0 == from && on_board(moves[i].1)
}

/// Every move of `moves` takes a piece of `player` from a square of the grid
/// to a square of the grid.
pub open spec fn all_sound(b: Board, player: Color, moves: Seq<Move>) -> bool {
    forall|i: int|
        0 <= i < moves.len() ==> on_board((#[trigger] moves[i]).0) && owned_by(
            b,
            player,
            moves[i].0,
        ) && on_board(moves[i].1)
}

/// The moves of the king on `from` leave from `from` and stay on the grid.
pub proof fn lemma_king_moves_leave(
    b: Board,
    player: Color,
    attack: bool,
    attacked: Set<usize>,
    from: Square,
    n: nat,
)
    ensures
        all_leave(king_moves_upto(b, player, attack, attacked, from, n), from),
    decreases n,
{
    if n > 0 {
        lemma_king_moves_leave(b, player, attack, attacked, from, (n - 1) as nat);
    }
}

/// The moves of the knight on `from` leave from `from` and stay on the grid.
pub proof fn lemma_knight_moves_leave(b: Board, player: Color, attack: bool, from: Square, n: nat)
    ensures
        all_leave(knight_moves_upto(b, player, attack, from, n), from),
    decreases n,
{
    if n > 0 {
        lemma_knight_moves_leave(b, player, attack, from, (n - 1) as nat);
    }
}

/// The moves along a ray of the piece on `from` leave from `from` and stay
/// on the grid.
pub proof fn lemma_ray_moves_leave(
    b: Board,
    player: Color,
    attack: bool,
    from: Square,
    cur: Square,
    step: Square,
)
    ensures
        all_leave(ray_moves(b, player, attack, from, cur, step), from),
    decreases room(cur, step),
{
    let sq = shift(cur, step);
    if !is_direction(step) || !on_board(cur) || !on_board(sq) {
    } else if reach(b, player, attack, sq).1 {
    } else {
        lemma_ray_moves_leave(b, player, attack, from, sq, step);
    }
}

/// The moves along the rays of the piece on `from` leave from `from` and
/// stay on the grid.
pub proof fn lemma_rays_leave(
    b: Board,
    player: Color,
    attack: bool,
    from: Square,
    steps: Seq<Square>,
    n: nat,
)
    ensures
        all_leave(rays_upto(b, player, attack, from, steps, n), from),
    decreases n,
{
    if n > 0 {
        lemma_rays_leave(b, player, attack, from, steps, (n - 1) as nat);
        lemma_ray_moves_leave(b, player, attack, from, from, steps[n - 1]);
    }
}

/// The moves of the piece on `from` leave from `from` and stay on the grid.
pub proof fn lemma_piece_moves_leave(
    b: Board,
    player: Color,
    attack: bool,
    attacked: Set<usize>,
    from: Square,
)
    ensures
        all_leave(piece_moves_of(b, player, attack, attacked, from), from),
        piece_moves_of(b, player, attack, attacked, from).len() > 0 ==> owned_by(b, player, from),
{
    lemma_king_moves_leave(b, player, attack, attacked, from, 8);
    lemma_knight_moves_leave(b, player, attack, from, 8);
    lemma_rays_leave(b, player, attack, from, rook_steps(), 4);
    lemma_rays_leave(b, player, attack, from, bishop_steps(), 4);
}

/// Every move of the scan takes a piece of `player` from a square of the
/// grid to a square of the grid.
pub proof fn lemma_scan_sound(b: Board, player: Color, attack: bool, attacked: Set<usize>, n: nat)
    requires
        n <= 64,
    ensures
        all_sound(b, player, scan_upto(b, player, attack, attacked, n)),
    decreases n,
{
    if n > 0 {
        lemma_scan_sound(b, player, attack, attacked, (n - 1) as nat);
        lemma_piece_moves_leave(b, player, attack, attacked, square_at(n - 1));
    }
}

/// Every generated move takes a piece of `player` from a square of the grid
/// to a square of the grid.
pub proof fn lemma_pseudo_moves_sound(
    b: Board,
    player: Color,
    attack: bool,
    attacked: Set<usize>,
)
    ensures
        all_sound(b, player, pseudo_moves_of(b, player, attack, attacked)),
{
    lemma_scan_sound(b, player, attack, attacked, 64);
}

/// Every step that a king accepts is among its moves.
pub proof fn lemma_king_moves_contain(
    b: Board,
    player: Color,
    attack: bool,
    attacked: Set<usize>,
    from: Square,
    n: nat,
    k: int,
)
    requires
        0 <= k < n <= 8,
        king_accepts(b, player, attack, attacked, shift(from, king_steps()[k])),
    ensures
        king_moves_upto(b, player, attack, attacked, from, n).contains(
            (from, shift(from, king_steps()[k])),
        ),
    decreases n,
{
    let all = king_moves_upto(b, player, attack, attacked, from, n);
    let before = king_moves_upto(b, player, attack, attacked, from, (n - 1) as nat);
    let wanted = (from, shift(from, king_steps()[k]));
    if k == n - 1 {
        assert(all[all.len() - 1] == wanted);
    } else {
        lemma_king_moves_contain(b, player, attack, attacked, from, (n - 1) as nat, k);
        let at = choose|at: int| 0 <= at < before.len() && before[at] == wanted;
        assert(all[at] == wanted);
    }
}

/// Every move of a king is one that it accepts.
pub proof fn lemma_king_moves_accepted(
    b: Board,
    player: Color,
    attack: bool,
    attacked: Set<usize>,
    from: Square,
    n: nat,
)
    requires
        n <= 8,
    ensures
        forall|i: int|
            0 <= i < king_moves_upto(b, player, attack, attacked, from, n).len() ==> king_accepts(
                b,
                player,
                attack,
                attacked,
                (#[trigger] king_moves_upto(b, player, attack, attacked, from, n)[i]).1,
            ),
    decreases n,
{
    if n > 0 {
        lemma_king_moves_accepted(b, player, attack, attacked, from, (n - 1) as nat);
        let all = king_moves_upto(b, player, attack, attacked, from, n);
        let before = king_moves_upto(b, player, attack, attacked, from, (n - 1) as nat);
        assert forall|i: int| 0 <= i < all.len() implies king_accepts(
            b,
            player,
            attack,
            attacked,
            (#[trigger] all[i]).1,
        ) by {
            if i < before.len() {
                assert(all[i] == before[i]);
            }
        }
    }
}

/// A move of a king is one of its steps.
pub proof fn lemma_king_move_is_step(
    b: Board,
    p: Color,
    attack: bool,
    attacked: Set<usize>,
    from: Square,
    n: nat,
    mv: Move,
) -> (k: int)
    requires
        n <= 8,
        king_moves_upto(b, p, attack, attacked, from, n).contains(mv),
    ensures
        0 <= k < n,
        mv == (from, shift(from, king_steps()[k])),
    decreases n,
{
    if n == 0 {
        let i = choose|i: int|
            0 <= i < king_moves_upto(b, p, attack, attacked, from, n).len() && king_moves_upto(
                b,
                p,
                attack,
                attacked,
                from,
                n,
            )[i] == mv;
        0
    } else {
        let before = king_moves_upto(b, p, attack, attacked, from, (n - 1) as nat);
        let sq = shift(from, king_steps()[n - 1]);
        lemma_contains_push(before, (from, sq), mv);
        if before.contains(mv) {
            lemma_king_move_is_step(b, p, attack, attacked, from, (n - 1) as nat, mv)
        } else {
            n - 1
        }
    }
}

/// A move of a knight is one of its jumps.
pub proof fn lemma_knight_move_is_jump(
    b: Board,
    p: Color,
    attack: bool,
    from: Square,
    n: nat,
    mv: Move,
) -> (k: int)
    requires
        n <= 8,
        knight_moves_upto(b, p, attack, from, n).contains(mv),
    ensures
        0 <= k < n,
        mv == (from, shift(from, knight_steps()[k])),
        reach(b, p, attack, mv.1).0,
    decreases n,
{
    if n == 0 {
        let i = choose|i: int|
            0 <= i < knight_moves_upto(b, p, attack, from, n).len() && knight_moves_upto(
                b,
                p,
                attack,
                from,
                n,
            )[i] == mv;
        0
    } else {
        let before = knight_moves_upto(b, p, attack, from, (n - 1) as nat);
        let sq = shift(from, knight_steps()[n - 1]);
        lemma_contains_push(before, (from, sq), mv);
        if before.contains(mv) {
            lemma_knight_move_is_jump(b, p, attack, from, (n - 1) as nat, mv)
        } else {
            n - 1
        }
    }
}

/// Every jump that a knight may make is among its moves.
pub proof fn lemma_knight_moves_contain(
    b: Board,
    p: Color,
    attack: bool,
    from: Square,
    n: nat,
    k: int,
)
    requires
        0 <= k < n <= 8,
        reach(b, p, attack, shift(from, knight_steps()[k])).0,
    ensures
        knight_moves_upto(b, p, attack, from, n).contains((from, shift(from, knight_steps()[k]))),
    decreases n,
{
    let before = knight_moves_upto(b, p, attack, from, (n - 1) as nat);
    let sq = shift(from, knight_steps()[n - 1]);
    let wanted = (from, shift(from, knight_steps()[k]));
    lemma_contains_push(before, (from, sq), wanted);
    if k < n - 1 {
        lemma_knight_moves_contain(b, p, attack, from, (n - 1) as nat, k);
    }
}

/// A move among the rays of a piece belongs to one of them.
pub proof fn lemma_rays_member(
    b: Board,
    p: Color,
    attack: bool,
    from: Square,
    steps: Seq<Square>,
    n: nat,
    mv: Move,
) -> (k: int)
    requires
        rays_upto(b, p, attack, from, steps, n).contains(mv),
    ensures
        0 <= k < n,
        ray_moves(b, p, attack, from, from, steps[k]).contains(mv),
    decreases n,
{
    if n == 0 {
        let i = choose|i: int|
            0 <= i < rays_upto(b, p, attack, from, steps, n).len() && rays_upto(
                b,
                p,
                attack,
                from,
                steps,
                n,
            )[i] == mv;
        0
    } else {
        let before = rays_upto(b, p, attack, from, steps, (n - 1) as nat);
        let last = ray_moves(b, p, attack, from, from, steps[n - 1]);
        lemma_contains_concat(before, last, mv);
        if last.contains(mv) {
            n - 1
        } else {
            lemma_rays_member(b, p, attack, from, steps, (n - 1) as nat, mv)
        }
    }
}

/// Each ray of a piece is among its rays.
pub proof fn lemma_rays_contain(
    b: Board,
    p: Color,
    attack: bool,
    from: Square,
    steps: Seq<Square>,
    n: nat,
    k: int,
    mv: Move,
)
    requires
        0 <= k < n,
        ray_moves(b, p, attack, from, from, steps[k]).contains(mv),
    ensures
        rays_upto(b, p, attack, from, steps, n).contains(mv),
    decreases n,
{
    let before = rays_upto(b, p, attack, from, steps, (n - 1) as nat);
    let last = ray_moves(b, p, attack, from, from, steps[n - 1]);
    lemma_contains_concat(before, last, mv);
    if k < n - 1 {
        lemma_rays_contain(b, p, attack, from, steps, (n - 1) as nat, k, mv);
    }
}

/// A move of the scan is a move of the piece that it starts from.
pub proof fn lemma_scan_member(
    b: Board,
    p: Color,
    attack: bool,
    attacked: Set<usize>,
    n: nat,
    mv: Move,
) -> (j: int)
    requires
        n <= 64,
        scan_upto(b, p, attack, attacked, n).contains(mv),
    ensures
        0 <= j < n,
        piece_moves_of(b, p, attack, attacked, square_at(j)).contains(mv),
    decreases n,
{
    if n == 0 {
        let i = choose|i: int|
            0 <= i < scan_upto(b, p, attack, attacked, n).len() && scan_upto(
                b,
                p,
                attack,
                attacked,
                n,
            )[i] == mv;
        0
    } else {
        let before = scan_upto(b, p, attack, attacked, (n - 1) as nat);
        let here = piece_moves_of(b, p, attack, attacked, square_at(n - 1));
        lemma_contains_concat(before, here, mv);
        if here.contains(mv) {
            n - 1
        } else {
            lemma_scan_member(b, p, attack, attacked, (n - 1) as nat, mv)
        }
    }
}

/// The scan holds the moves of every piece that it has passed.
pub proof fn lemma_scan_contains(
    b: Board,
    player: Color,
    attack: bool,
    attacked: Set<usize>,
    n: nat,
    j: int,
    mv: Move,
)
    requires
        0 <= j < n <= 64,
        piece_moves_of(b, player, attack, attacked, square_at(j)).contains(mv),
    ensures
        scan_upto(b, player, attack, attacked, n).contains(mv),
    decreases n,
{
    let all = scan_upto(b, player, attack, attacked, n);
    let before = scan_upto(b, player, attack, attacked, (n - 1) as nat);
    let here = piece_moves_of(b, player, attack, attacked, square_at(n - 1));
    if j == n - 1 {
        let at = choose|at: int| 0 <= at < here.len() && here[at] == mv;
        assert(all[before.len() + at] == mv);
    } else {
        lemma_scan_contains(b, player, attack, attacked, (n - 1) as nat, j, mv);
        let at = choose|at: int| 0 <= at < before.len() && before[at] == mv;
        assert(all[at] == mv);
    }
}

/// Every move that the scan gives to a king is one that the king accepts.
pub proof fn lemma_scan_king_moves_accepted(
    b: Board,
    player: Color,
    attack: bool,
    attacked: Set<usize>,
    n: nat,
)
    requires
        n <= 64,
    ensures
        forall|i: int|
            0 <= i < scan_upto(b, player, attack, attacked, n).len() && king_of(
                b,
                player,
                (#[trigger] scan_upto(b, player, attack, attacked, n)[i]).0,
            ) ==> king_accepts(
                b,
                player,
                attack,
                attacked,
                scan_upto(b, player, attack, attacked, n)[i].1,
            ),
    decreases n,
{
    if n > 0 {
        let from = square_at(n - 1);
        lemma_scan_king_moves_accepted(b, player, attack, attacked, (n - 1) as nat);
        lemma_piece_moves_leave(b, player, attack, attacked, from);
        lemma_king_moves_accepted(b, player, attack, attacked, from, 8);
        let before = scan_upto(b, player, attack, attacked, (n - 1) as nat);
        let here = piece_moves_of(b, player, attack, attacked, from);
        let all = scan_upto(b, player, attack, attacked, n);
        assert forall|i: int| 0 <= i < all.len() && king_of(b, player, (#[trigger] all[i]).0)
            implies king_accepts(b, player, attack, attacked, all[i].1) by {
            if i < before.len() {
                assert(all[i] == before[i]);
            } else {
                assert(all[i] == here[i - before.len()]);
                assert(here[i - before.len()].0 == from);
                assert(here == king_moves_of(b, player, attack, attacked, from));
            }
        }
    }
}

} // verus!
