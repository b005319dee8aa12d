//! Where each piece may go.
//!
//! Moves are generated in two modes. In playable mode a piece goes to empty
//! squares and captures opposing pieces. In attack mode every square that a
//! piece threatens or defends counts, whoever stands on it. The moves of a
//! side come out in a fixed order: square by square, rank by rank and file by
//! file, and for each piece in the order of its steps.

use vstd::prelude::*;
use std::collections::HashMap;
use crate::board::{
    Board, cell, flat, get_other_player, king_of, Move, on_board, owned_by, piece_at, shift,
    Square, square_at, square_is_on_board, square_tuple_to_flat,
};
use crate::error::ChessError;
use crate::pieces::{Color, piece_color, piece_type_of, piece_type, PieceType};
use crate::safety::ahead;
use crate::state::State;

verus! {

/// The eight steps of a king, in the order in which they are tried.
pub open spec fn king_steps() -> Seq<Square> {
    seq![
        (1isize, 0isize),
        (-1isize, 0isize),
        (0isize, 1isize),
        (0isize, -1isize),
        (1isize, 1isize),
        (1isize, -1isize),
        (-1isize, 1isize),
        (-1isize, -1isize),
    ]
}

/// The eight jumps of a knight, in the order in which they are tried.
pub open spec fn knight_steps() -> Seq<Square> {
    seq![
        (-2isize, -1isize),
        (-2isize, 1isize),
        (2isize, -1isize),
        (2isize, 1isize),
        (-1isize, -2isize),
        (-1isize, 2isize),
        (1isize, -2isize),
        (1isize, 2isize),
    ]
}

/// The four directions of a rook, in the order in which they are followed.
pub open spec fn rook_steps() -> Seq<Square> {
    seq![(-1isize, 0isize), (1isize, 0isize), (0isize, -1isize), (0isize, 1isize)]
}

/// The four directions of a bishop, in the order in which they are followed.
pub open spec fn bishop_steps() -> Seq<Square> {
    seq![(-1isize, -1isize), (-1isize, 1isize), (1isize, -1isize), (1isize, 1isize)]
}

/// What a piece of `player` may do with `sq` in playable mode, as a pair
/// `(add, stop)`: whether it may go there, and whether a ray ends there. It
/// goes to empty squares and on, takes an opposing piece and stops, and
/// stops short of its own pieces and of the edge.
pub open spec fn playable(b: Board, player: Color, sq: Square) -> (bool, bool) {
    if !on_board(sq) {
        (false, true)
    } else if cell(b, sq) == 0 {
        (true, false)
    } else if owned_by(b, player, sq) {
        (false, true)
    } else {
        (true, true)
    }
}

/// As `playable`, in attack mode: every square of the grid counts, and a ray
/// ends on the first piece, whose ever it is.
pub open spec fn attacking(b: Board, sq: Square) -> (bool, bool) {
    if !on_board(sq) {
        (false, true)
    } else if cell(b, sq) == 0 {
        (true, false)
    } else {
        (true, true)
    }
}

/// `playable` or `attacking`, by mode.
pub open spec fn reach(b: Board, player: Color, attack: bool, sq: Square) -> (bool, bool) {
    if attack {
        attacking(b, sq)
    } else {
        playable(b, player, sq)
    }
}

/// A king of `player` may step on `sq`. In playable mode the square must not
/// be in `attacked` nor hold a piece of its own side; in attack mode every
/// square of the grid counts.
pub open spec fn king_accepts(
    b: Board,
    player: Color,
    attack: bool,
    attacked: Set<usize>,
    sq: Square,
) -> bool {
    on_board(sq) && (attack || (!attacked.contains(flat(sq)) && !owned_by(b, player, sq)))
}

/// A king of `player` that looks at `sq` finds the opposing king there. This
/// is the error state of move generation. In playable mode a square in
/// `attacked` is turned down before it is looked at.
pub open spec fn king_meets_king(
    b: Board,
    player: Color,
    attack: bool,
    attacked: Set<usize>,
    sq: Square,
) -> bool {
    on_board(sq) && (attack || !attacked.contains(flat(sq))) && king_of(b, player.opponent(), sq)
}

/// The moves of the king on `from` over the first `n` of its steps.
pub open spec fn king_moves_upto(
    b: Board,
    player: Color,
    attack: bool,
    attacked: Set<usize>,
    from: Square,
    n: nat,
) -> Seq<Move>
    decreases n,
{
    if n == 0 {
        Seq::empty()
    } else {
        let before = king_moves_upto(b, player, attack, attacked, from, (n - 1) as nat);
        let sq = shift(from, king_steps()[n - 1]);
        if king_accepts(b, player, attack, attacked, sq) {
            before.push((from, sq))
        } else {
            before
        }
    }
}

/// The moves of the king on `from`.
pub open spec fn king_moves_of(
    b: Board,
    player: Color,
    attack: bool,
    attacked: Set<usize>,
    from: Square,
) -> Seq<Move> {
    king_moves_upto(b, player, attack, attacked, from, 8)
}

/// The king on `from` finds the opposing king on one of its eight squares.
pub open spec fn king_blocked(
    b: Board,
    player: Color,
    attack: bool,
    attacked: Set<usize>,
    from: Square,
) -> bool {
    exists|k: int|
        0 <= k < 8 && king_meets_king(
            b,
            player,
            attack,
            attacked,
            #[trigger] shift(from, king_steps()[k]),
        )
}

/// The moves of the knight on `from` over the first `n` of its jumps.
pub open spec fn knight_moves_upto(
    b: Board,
    player: Color,
    attack: bool,
    from: Square,
    n: nat,
) -> Seq<Move>
    decreases n,
{
    if n == 0 {
        Seq::empty()
    } else {
        let before = knight_moves_upto(b, player, attack, from, (n - 1) as nat);
        let sq = shift(from, knight_steps()[n - 1]);
        if reach(b, player, attack, sq).0 {
            before.push((from, sq))
        } else {
            before
        }
    }
}

/// The moves of the knight on `from`.
pub open spec fn knight_moves_of(b: Board, player: Color, attack: bool, from: Square) -> Seq<Move> {
    knight_moves_upto(b, player, attack, from, 8)
}

/// `step` is one of the eight directions of the grid.
pub open spec fn is_direction(step: Square) -> bool {
    -1 <= step.0 <= 1 && -1 <= step.1 <= 1 && step != (0isize, 0isize)
}

/// How many squares of the grid lie ahead of `cur` in direction `step`, at
/// most.
pub open spec fn room(cur: Square, step: Square) -> int {
    (if step.0 > 0 {
        7 - cur.0
    } else if step.0 < 0 {
        cur.0 as int
    } else {
        0
    }) + (if step.1 > 0 {
        7 - cur.1
    } else if step.1 < 0 {
        cur.1 as int
    } else {
        0
    })
}

/// The moves of the piece on `from` along the ray that leaves `cur` in
/// direction `step`: over empty squares up to the first piece or the edge.
/// In playable mode an opposing piece is taken and an own piece is not; in
/// attack mode the first piece counts whose ever it is.
pub open spec fn ray_moves(
    b: Board,
    player: Color,
    attack: bool,
    from: Square,
    cur: Square,
    step: Square,
) -> Seq<Move>
    decreases room(cur, step),
{
    let sq = shift(cur, step);
    if !is_direction(step) || !on_board(cur) || !on_board(sq) {
        Seq::empty()
    } else if reach(b, player, attack, sq).1 {
        if reach(b, player, attack, sq).0 {
            seq![(from, sq)]
        } else {
            Seq::empty()
        }
    } else {
        seq![(from, sq)] + ray_moves(b, player, attack, from, sq, step)
    }
}

/// The moves of the piece on `from` along the first `n` of `steps`.
pub open spec fn rays_upto(
    b: Board,
    player: Color,
    attack: bool,
    from: Square,
    steps: Seq<Square>,
    n: nat,
) -> Seq<Move>
    decreases n,
{
    if n == 0 {
        Seq::empty()
    } else {
        rays_upto(b, player, attack, from, steps, (n - 1) as nat) + ray_moves(
            b,
            player,
            attack,
            from,
            from,
            steps[n - 1],
        )
    }
}

/// The moves of the rook on `from`: its four rays, one after the other.
pub open spec fn rook_moves_of(b: Board, player: Color, attack: bool, from: Square) -> Seq<Move> {
    rays_upto(b, player, attack, from, rook_steps(), 4)
}

/// The moves of the bishop on `from`: its four rays, one after the other.
pub open spec fn bishop_moves_of(b: Board, player: Color, attack: bool, from: Square) -> Seq<Move> {
    rays_upto(b, player, attack, from, bishop_steps(), 4)
}

/// A queen moves as a rook and then as a bishop.
pub open spec fn queen_moves_of(b: Board, player: Color, attack: bool, from: Square) -> Seq<Move> {
    rook_moves_of(b, player, attack, from) + bishop_moves_of(b, player, attack, from)
}

/// The move from `from` to `to` if `wanted`, else no move.
pub open spec fn maybe(wanted: bool, from: Square, to: Square) -> Seq<Move> {
    if wanted {
        seq![(from, to)]
    } else {
        Seq::empty()
    }
}

/// The rank from which the pawns of `player` start.
pub open spec fn home_rank(player: Color) -> int {
    match player {
        Color::White => 6,
        Color::Black => 1,
    }
}

/// The moves of the pawn of `player` on `from`.
///
/// In playable mode: one square ahead if it is empty; two squares ahead from
/// the home rank if both are empty; then the capture towards the higher file
/// and the capture towards the lower file, each if an opposing piece stands
/// there. In attack mode: the two squares of capture, whatever stands there,
/// but for the king of its own side.
pub open spec fn pawn_moves_of(b: Board, player: Color, attack: bool, from: Square) -> Seq<Move> {
    let ahead = -player.sign();
    let one = ((from.0 + ahead) as isize, from.1);
    let two = ((from.0 + 2 * ahead) as isize, from.1);
    let high = ((from.0 + ahead) as isize, (from.1 + 1) as isize);
    let low = ((from.0 + ahead) as isize, (from.1 - 1) as isize);
    if attack {
        maybe(on_board(high) && !king_of(b, player, high), from, high) + maybe(
            on_board(low) && !king_of(b, player, low),
            from,
            low,
        )
    } else {
        maybe(on_board(one) && cell(b, one) == 0, from, one) + maybe(
            on_board(two) && from.0 == home_rank(player) && cell(b, one) == 0 && cell(b, two) == 0,
            from,
            two,
        ) + maybe(on_board(high) && owned_by(b, player.opponent(), high), from, high) + maybe(
            on_board(low) && owned_by(b, player.opponent(), low),
            from,
            low,
        )
    }
}

/// The moves of whatever stands on `from`, if it is a piece of `player`.
pub open spec fn piece_moves_of(
    b: Board,
    player: Color,
    attack: bool,
    attacked: Set<usize>,
    from: Square,
) -> Seq<Move> {
    if !owned_by(b, player, from) {
        Seq::empty()
    } else {
        match piece_type_of(cell(b, from) as int) {
            PieceType::King => king_moves_of(b, player, attack, attacked, from),
            PieceType::Queen => queen_moves_of(b, player, attack, from),
            PieceType::Rook => rook_moves_of(b, player, attack, from),
            PieceType::Bishop => bishop_moves_of(b, player, attack, from),
            PieceType::Knight => knight_moves_of(b, player, attack, from),
            PieceType::Pawn => pawn_moves_of(b, player, attack, from),
            PieceType::Empty => Seq::empty(),
        }
    }
}

/// The moves of the pieces of `player` on the first `n` squares of the scan.
pub open spec fn scan_upto(
    b: Board,
    player: Color,
    attack: bool,
    attacked: Set<usize>,
    n: nat,
) -> Seq<Move>
    decreases n,
{
    if n == 0 {
        Seq::empty()
    } else {
        scan_upto(b, player, attack, attacked, (n - 1) as nat) + piece_moves_of(
            b,
            player,
            attack,
            attacked,
            square_at(n - 1),
        )
    }
}

/// All moves of `player` that the movement of its pieces allows, before the
/// safety of its king is looked at.
pub open spec fn pseudo_moves_of(
    b: Board,
    player: Color,
    attack: bool,
    attacked: Set<usize>,
) -> Seq<Move> {
    scan_upto(b, player, attack, attacked, 64)
}

/// Some king of `player` finds the opposing king on one of its eight squares.
pub open spec fn scan_blocked(
    b: Board,
    player: Color,
    attack: bool,
    attacked: Set<usize>,
) -> bool {
    exists|from: Square|
        on_board(from) && #[trigger] king_of(b, player, from) && king_blocked(
            b,
            player,
            attack,
            attacked,
            from,
        )
}

/// Whether `square` holds no piece.
pub fn square_is_empty(state: &State, square: Square) -> (empty: bool)
    requires
        on_board(square),
    ensures
        empty == (cell(state.board, square) == 0),
{
    piece_at(&state.board, square) == 0
}

/// Whether a piece of `player` stands on `square`.
pub fn is_piece_from_player(state: &State, player: Color, square: Square) -> (yes: bool)
    requires
        on_board(square),
    ensures
        yes == owned_by(state.board, player, square),
{
    let piece_id = piece_at(&state.board, square);
    if piece_id == 0 {
        return false;
    }
    player == piece_color(piece_id)
}

/// Whether a piece of the opponent of `player` stands on `square`.
pub fn is_piece_from_other_player(state: &State, player: Color, square: Square) -> (yes: bool)
    requires
        on_board(square),
    ensures
        yes == owned_by(state.board, player.opponent(), square),
{
    let other_player = get_other_player(player);
    is_piece_from_player(state, other_player, square)
}

/// Whether the king of `player` stands on `square`.
pub fn is_king_from_player(state: &State, player: Color, square: Square) -> (yes: bool)
    requires
        on_board(square),
    ensures
        yes == king_of(state.board, player, square),
{
    let piece_id = piece_at(&state.board, square);
    if piece_type(piece_id) != PieceType::King {
        return false;
    }
    piece_color(piece_id) == player
}

/// Whether a piece of `player` may go to `square`, and whether a ray ends
/// there.
pub fn playable_move(state: &State, player: Color, square: Square) -> (add_stop: (bool, bool))
    ensures
        add_stop == playable(state.board, player, square),
{
    if !square_is_on_board(square) {
        return (false, true);
    }
    if square_is_empty(state, square) {
        return (true, false);
    }
    if is_piece_from_player(state, player, square) {
        return (false, true);
    }
    (true, true)
}

/// Whether a piece threatens or defends `square`, and whether a ray ends
/// there.
pub fn attacking_move(state: &State, player: Color, square: Square) -> (add_stop: (bool, bool))
    ensures
        add_stop == attacking(state.board, square),
{
    if !square_is_on_board(square) {
        return (false, true);
    }
    if square_is_empty(state, square) {
        return (true, false);
    }
    (true, true)
}

/// Whether the king of `player` may step on `square`. Fails when it finds the
/// opposing king there.
pub fn king_playable_move(
    state: &State,
    player: Color,
    square: Square,
    squares_under_attack_map: &HashMap<usize, bool>,
) -> (add: Result<bool, ChessError>)
    ensures
        add is Err <==> king_meets_king(
            state.board,
            player,
            false,
            squares_under_attack_map@.dom(),
            square,
        ),
        add matches Err(e) ==> e == ChessError::InternalInvariant,
        add matches Ok(yes) ==> yes == king_accepts(
            state.board,
            player,
            false,
            squares_under_attack_map@.dom(),
            square,
        ),
{
    broadcast use vstd::std_specs::hash::group_hash_axioms;

    let other_player = get_other_player(player);
    if !square_is_on_board(square) {
        return Ok(false);
    }
    let square_flat = square_tuple_to_flat(square);
    if squares_under_attack_map.contains_key(&square_flat) {
        return Ok(false);
    }
    if is_king_from_player(state, other_player, square) {
        return Err(ChessError::InternalInvariant);
    }
    if square_is_empty(state, square) || is_piece_from_player(state, other_player, square) {
        return Ok(true);
    }
    Ok(false)
}

/// Whether the king of `player` threatens or defends `square`. Fails when it
/// finds the opposing king there.
pub fn king_attacking_move(state: &State, player: Color, square: Square) -> (add: Result<
    bool,
    ChessError,
>)
    ensures
        add is Err <==> king_meets_king(state.board, player, true, Set::empty(), square),
        add matches Err(e) ==> e == ChessError::InternalInvariant,
        add matches Ok(yes) ==> yes == king_accepts(
            state.board,
            player,
            true,
            Set::empty(),
            square,
        ),
{
    let other_player = get_other_player(player);
    if !square_is_on_board(square) {
        return Ok(false);
    }
    if is_king_from_player(state, other_player, square) {
        return Err(ChessError::InternalInvariant);
    }
    Ok(true)
}

/// Step number `k` of a king.
pub fn king_step(k: usize) -> (step: Square)
    requires
        k < 8,
    ensures
        step == king_steps()[k as int],
        -1 <= step.0 <= 1,
        -1 <= step.1 <= 1,
{
    let steps: [Square; 8] = [(1, 0), (-1, 0), (0, 1), (0, -1), (1, 1), (1, -1), (-1, 1), (-1, -1)];
    steps[k]
}

/// Jump number `k` of a knight.
fn knight_step(k: usize) -> (step: Square)
    requires
        k < 8,
    ensures
        step == knight_steps()[k as int],
        -2 <= step.0 <= 2,
        -2 <= step.1 <= 2,
{
    let steps: [Square; 8] = [
        (-2, -1),
        (-2, 1),
        (2, -1),
        (2, 1),
        (-1, -2),
        (-1, 2),
        (1, -2),
        (1, 2),
    ];
    steps[k]
}

/// Direction number `k` of a rook.
fn rook_step(k: usize) -> (step: Square)
    requires
        k < 4,
    ensures
        step == rook_steps()[k as int],
        is_direction(step),
{
    let steps: [Square; 4] = [(-1, 0), (1, 0), (0, -1), (0, 1)];
    steps[k]
}

/// Direction number `k` of a bishop.
fn bishop_step(k: usize) -> (step: Square)
    requires
        k < 4,
    ensures
        step == bishop_steps()[k as int],
        is_direction(step),
{
    let steps: [Square; 4] = [(-1, -1), (-1, 1), (1, -1), (1, 1)];
    steps[k]
}

/// The moves of the king of `player` on `coords`. Fails when the king finds
/// the opposing king on one of its eight squares.
pub fn king_moves(
    state: &State,
    player: Color,
    coords: Square,
    squares_under_attack_map: &HashMap<usize, bool>,
    attack: bool,
) -> (found: Result<Vec<Move>, ChessError>)
    requires
        on_board(coords),
    ensures
        found is Err <==> king_blocked(
            state.board,
            player,
            attack,
            squares_under_attack_map@.dom(),
            coords,
        ),
        found matches Err(e) ==> e == ChessError::InternalInvariant,
        found matches Ok(moves) ==> moves@ == king_moves_of(
            state.board,
            player,
            attack,
            squares_under_attack_map@.dom(),
            coords,
        ),
{
    let ghost attacked = squares_under_attack_map@.dom();
    let mut moves: Vec<Move> = Vec::new();
    let mut k: usize = 0;
    while k < 8
        invariant
            k <= 8,
            on_board(coords),
            attacked == squares_under_attack_map@.dom(),
            moves@ == king_moves_upto(state.board, player, attack, attacked, coords, k as nat),
            forall|j: int|
                0 <= j < k ==> !king_meets_king(
                    state.board,
                    player,
                    attack,
                    attacked,
                    #[trigger] shift(coords, king_steps()[j]),
                ),
        decreases 8 - k,
    {
        let step = king_step(k);
        let square: Square = (coords.0 + step.0, coords.1 + step.1);
        assert(square == shift(coords, king_steps()[k as int]));
        let add = if attack {
            king_attacking_move(state, player, square)
        } else {
            king_playable_move(state, player, square, squares_under_attack_map)
        };
        match add {
            Err(e) => {
                assert(king_meets_king(
                    state.board,
                    player,
                    attack,
                    attacked,
                    shift(coords, king_steps()[k as int]),
                ));
                return Err(e);
            },
            Ok(yes) => {
                if yes {
                    moves.push((coords, square));
                }
            },
        }
        k += 1;
    }
    Ok(moves)
}

/// The moves of the piece on `coords` along the ray in direction `step`.
pub fn iterativesteps(
    state: &State,
    player: Color,
    coords: Square,
    step: Square,
    attack: bool,
) -> (moves: Vec<Move>)
    requires
        on_board(coords),
        is_direction(step),
    ensures
        moves@ == ray_moves(state.board, player, attack, coords, coords, step),
{
    let ghost whole = ray_moves(state.board, player, attack, coords, coords, step);
    let mut moves: Vec<Move> = Vec::new();
    let mut cur = coords;
    let mut done = false;
    while !done
        invariant
            is_direction(step),
            on_board(cur),
            whole == ray_moves(state.board, player, attack, coords, coords, step),
            done ==> moves@ == whole,
            !done ==> moves@ + ray_moves(state.board, player, attack, coords, cur, step) == whole,
        decreases
                room(cur, step) + if done {
                    0int
                } else {
                    1int
                },
    {
        let square: Square = (cur.0 + step.0, cur.1 + step.1);
        assert(square == shift(cur, step));
        let (add, stop) = if attack {
            attacking_move(state, player, square)
        } else {
            playable_move(state, player, square)
        };
        let ghost before = moves@;
        if add {
            moves.push((coords, square));
        }
        if stop {
            proof {
                assert(before + ray_moves(state.board, player, attack, coords, cur, step)
                    =~= moves@);
            }
            done = true;
        } else {
            proof {
                assert(before + ray_moves(state.board, player, attack, coords, cur, step)
                    =~= moves@ + ray_moves(state.board, player, attack, coords, square, step));
            }
            cur = square;
        }
    }
    moves
}

/// The moves of the rook of `player` on `coords`.
pub fn rook_moves(state: &State, player: Color, coords: Square, attack: bool) -> (moves: Vec<Move>)
    requires
        on_board(coords),
    ensures
        moves@ == rook_moves_of(state.board, player, attack, coords),
{
    let mut moves: Vec<Move> = Vec::new();
    let mut k: usize = 0;
    while k < 4
        invariant
            k <= 4,
            on_board(coords),
            moves@ == rays_upto(state.board, player, attack, coords, rook_steps(), k as nat),
        decreases 4 - k,
    {
        let mut ray = iterativesteps(state, player, coords, rook_step(k), attack);
        moves.append(&mut ray);
        k += 1;
    }
    moves
}

/// The moves of the bishop of `player` on `coords`.
pub fn bishop_moves(state: &State, player: Color, coords: Square, attack: bool) -> (moves: Vec<
    Move,
>)
    requires
        on_board(coords),
    ensures
        moves@ == bishop_moves_of(state.board, player, attack, coords),
{
    let mut moves: Vec<Move> = Vec::new();
    let mut k: usize = 0;
    while k < 4
        invariant
            k <= 4,
            on_board(coords),
            moves@ == rays_upto(state.board, player, attack, coords, bishop_steps(), k as nat),
        decreases 4 - k,
    {
        let mut ray = iterativesteps(state, player, coords, bishop_step(k), attack);
        moves.append(&mut ray);
        k += 1;
    }
    moves
}

/// The moves of the queen of `player` on `coords`.
pub fn queen_moves(state: &State, player: Color, coords: Square, attack: bool) -> (moves: Vec<Move>)
    requires
        on_board(coords),
    ensures
        moves@ == queen_moves_of(state.board, player, attack, coords),
{
    let mut moves = rook_moves(state, player, coords, attack);
    let mut moves_bishop = bishop_moves(state, player, coords, attack);
    moves.append(&mut moves_bishop);
    moves
}

/// The moves of the knight of `player` on `coords`.
pub fn knight_moves(state: &State, player: Color, coords: Square, attack: bool) -> (moves: Vec<
    Move,
>)
    requires
        on_board(coords),
    ensures
        moves@ == knight_moves_of(state.board, player, attack, coords),
{
    let mut moves: Vec<Move> = Vec::new();
    let mut k: usize = 0;
    while k < 8
        invariant
            k <= 8,
            on_board(coords),
            moves@ == knight_moves_upto(state.board, player, attack, coords, k as nat),
        decreases 8 - k,
    {
        let step = knight_step(k);
        let square: Square = (coords.0 + step.0, coords.1 + step.1);
        assert(square == shift(coords, knight_steps()[k as int]));
        let (add, _) = if attack {
            attacking_move(state, player, square)
        } else {
            playable_move(state, player, square)
        };
        if add {
            moves.push((coords, square));
        }
        k += 1;
    }
    moves
}

/// The moves of the pawn of `player` on `coords`.
pub fn pawn_moves(state: &State, player: Color, coords: Square, attack: bool) -> (moves: Vec<Move>)
    requires
        on_board(coords),
    ensures
        moves@ == pawn_moves_of(state.board, player, attack, coords),
{
    let mut moves: Vec<Move> = Vec::new();
    let player_int: isize = player.to_int();
    let high: Square = (coords.0 - player_int, coords.1 + 1);
    let low: Square = (coords.0 - player_int, coords.1 - 1);
    let one_step_square: Square = (coords.0 - player_int, coords.1);
    let two_step_square: Square = (coords.0 - 2 * player_int, coords.1);
    if attack {
        if square_is_on_board(high) && !is_king_from_player(state, player, high) {
            moves.push((coords, high));
        }
        if square_is_on_board(low) && !is_king_from_player(state, player, low) {
            moves.push((coords, low));
        }
    } else {
        if square_is_on_board(one_step_square) && square_is_empty(state, one_step_square) {
            moves.push((coords, one_step_square));
        }
        if square_is_on_board(two_step_square) {
            if (player == Color::White && coords.0 == 6) || (player == Color::Black && coords.0
                == 1) {
                if square_is_empty(state, one_step_square) && square_is_empty(
                    state,
                    two_step_square,
                ) {
                    moves.push((coords, two_step_square));
                }
            }
        }
        if square_is_on_board(high) && is_piece_from_other_player(state, player, high) {
            moves.push((coords, high));
        }
        if square_is_on_board(low) && is_piece_from_other_player(state, player, low) {
            moves.push((coords, low));
        }
    }
    assert(moves@ =~= pawn_moves_of(state.board, player, attack, coords));
    moves
}

/// The moves of whatever stands on `coords`, if it is a piece of `player`.
/// Fails when that piece is a king that finds the opposing king beside it.
pub fn piece_moves(
    state: &State,
    player: Color,
    coords: Square,
    squares_under_attack_map: &HashMap<usize, bool>,
    attack: bool,
) -> (found: Result<Vec<Move>, ChessError>)
    requires
        on_board(coords),
    ensures
        found is Err <==> king_of(state.board, player, coords) && king_blocked(
            state.board,
            player,
            attack,
            squares_under_attack_map@.dom(),
            coords,
        ),
        found matches Err(e) ==> e == ChessError::InternalInvariant,
        found matches Ok(moves) ==> moves@ == piece_moves_of(
            state.board,
            player,
            attack,
            squares_under_attack_map@.dom(),
            coords,
        ),
{
    let piece_id = piece_at(&state.board, coords);
    if piece_id == 0 {
        return Ok(Vec::new());
    }
    if piece_color(piece_id) != player {
        return Ok(Vec::new());
    }
    match piece_type(piece_id) {
        PieceType::King => king_moves(state, player, coords, squares_under_attack_map, attack),
        PieceType::Queen => Ok(queen_moves(state, player, coords, attack)),
        PieceType::Rook => Ok(rook_moves(state, player, coords, attack)),
        PieceType::Bishop => Ok(bishop_moves(state, player, coords, attack)),
        PieceType::Knight => Ok(knight_moves(state, player, coords, attack)),
        PieceType::Pawn => Ok(pawn_moves(state, player, coords, attack)),
        PieceType::Empty => Ok(Vec::new()),
    }
}

/// All moves of `player` that the movement of its pieces allows, in the
/// order of the scan. Fails when a king of `player` finds the opposing king
/// beside it.
pub fn pseudo_legal_moves(
    state: &State,
    player: Color,
    attack: bool,
    squares_under_attack_map: &HashMap<usize, bool>,
) -> (found: Result<Vec<Move>, ChessError>)
    ensures
        found is Err <==> scan_blocked(
            state.board,
            player,
            attack,
            squares_under_attack_map@.dom(),
        ),
        found matches Err(e) ==> e == ChessError::InternalInvariant,
        found matches Ok(moves) ==> moves@ == pseudo_moves_of(
            state.board,
            player,
            attack,
            squares_under_attack_map@.dom(),
        ),
{
    let ghost attacked = squares_under_attack_map@.dom();
    let mut moves: Vec<Move> = Vec::new();
    let mut i: isize = 0;
    while i < 8
        invariant
            0 <= i <= 8,
            attacked == squares_under_attack_map@.dom(),
            moves@ == scan_upto(state.board, player, attack, attacked, (i * 8) as nat),
            forall|from: Square|
                on_board(from) && from.0 < i && #[trigger] king_of(state.board, player, from)
                    ==> !king_blocked(state.board, player, attack, attacked, from),
        decreases 8 - i,
    {
        let mut j: isize = 0;
        while j < 8
            invariant
                0 <= i < 8,
                0 <= j <= 8,
                attacked == squares_under_attack_map@.dom(),
                moves@ == scan_upto(state.board, player, attack, attacked, (i * 8 + j) as nat),
                forall|from: Square|
                    on_board(from) && (from.0 < i || (from.0 == i && from.1 < j))
                        && #[trigger] king_of(state.board, player, from) ==> !king_blocked(
                        state.board,
                        player,
                        attack,
                        attacked,
                        from,
                    ),
            decreases 8 - j,
        {
            assert(square_at(i * 8 + j) == (i, j));
            match piece_moves(state, player, (i, j), squares_under_attack_map, attack) {
                Err(e) => {
                    return Err(e);
                },
                Ok(mut found) => {
                    moves.append(&mut found);
                },
            }
            j += 1;
        }
        i += 1;
    }
    Ok(moves)
}

} // verus!
