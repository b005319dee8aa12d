//! The engine as the host sees it: states in, tokens in, states and tokens
//! out.

use vstd::prelude::*;
use crate::attack::{attack_moves, attack_set, in_check, kings_adjacent, refreshed, update_state};
use crate::board::{Board, Move, MoveStruct, on_board, owned_by};
use crate::castling::{castle_moves, get_possible_castle_moves};
use crate::error::ChessError;
use crate::legal::{
    exposes_kings, get_all_possible_moves, keep_safe_moves, keeps_king_safe, legal_moves,
    lemma_legal_moves_are_generated, lemma_no_move_exposes_kings,
    lemma_plain_move_keeps_kings_apart, some_move_exposes_kings,
};
use crate::lists::{all_sound, lemma_filter_again, lemma_pseudo_moves_sound};
use crate::movegen::pseudo_moves_of;
use crate::notation::{
    convert_castle_move_to_string, convert_move_to_string, convert_move_to_type, move_token,
    parse_move, parse_player, player_string_to_enum,
};
use crate::pieces::{Castle, Color};
use crate::search::{
    all_moves, best_move, first_best_upto, joined, lemma_first_best, minimax, search_value,
};
use crate::state::State;
use crate::transition::{applicable, next_state, reward_of, state_after};

verus! {

/// The token of a move or of a castle.
pub open spec fn token_of(mv: MoveStruct) -> Seq<char> {
    match mv {
        MoveStruct::Normal(m) => move_token(m),
        MoveStruct::Castle(c) => c.token(),
    }
}

/// What `next_state` answers when the side named `player` makes the move
/// named `mv` in `s`. The first of these that applies decides: a token that
/// names no side; a token that names no move; an origin without a piece;
/// kings side by side after the move; both kings in check after the move.
pub open spec fn played(s: State, player: Seq<char>, mv: Seq<char>) -> Result<
    (State, isize),
    ChessError,
> {
    match parse_player(player) {
        Err(e) => Err(e),
        Ok(side) => match parse_move(mv) {
            Err(e) => Err(e),
            Ok(parsed) => {
                let next = state_after(s, side, parsed);
                if !applicable(s.board, parsed) {
                    Err(ChessError::IllegalMove)
                } else if kings_adjacent(next.board) {
                    Err(ChessError::InternalInvariant)
                } else if in_check(next.board, Color::White) && in_check(
                    next.board,
                    Color::Black,
                ) {
                    Err(ChessError::ImpossiblePosition)
                } else {
                    Ok((refreshed(next), reward_of(s.board, parsed) as isize))
                }
            },
        },
    }
}

/// The moves that `get_possible_moves` lists for `player`: its moves in the
/// mode asked for, less those that leave its king in check.
pub open spec fn listed_moves(s: State, player: Color, attack: bool) -> Seq<Move> {
    if attack {
        attack_moves(s.board, player).filter(keeps_king_safe(s.board, player))
    } else {
        legal_moves(s.board, player)
    }
}

/// `tokens` names the moves `moves`, one by one.
pub open spec fn names(tokens: Seq<String>, moves: Seq<MoveStruct>) -> bool {
    &&& tokens.len() == moves.len()
    &&& forall|i: int| 0 <= i < tokens.len() ==> (#[trigger] tokens[i])@ == token_of(moves[i])
}

/// What is left of sound moves after filtering is sound.
proof fn lemma_filter_keeps_sound(b: Board, player: Color, moves: Seq<Move>, kept: Seq<Move>)
    requires
        all_sound(b, player, moves),
        kept == moves.filter(keeps_king_safe(b, player)),
    ensures
        all_sound(b, player, kept),
{
    #[allow(deprecated)]
    moves.filter_lemma(keeps_king_safe(b, player));
    assert forall|i: int| 0 <= i < kept.len() implies on_board((#[trigger] kept[i]).0) && owned_by(
        b,
        player,
        kept[i].0,
    ) && on_board(kept[i].1) by {
        moves.lemma_filter_contains_rev(keeps_king_safe(b, player), kept[i]);
        let at = choose|at: int| 0 <= at < moves.len() && moves[at] == kept[i];
        assert(on_board(moves[at].0));
    }
}

/// On a grid whose kings are apart, the moves of `player` in either mode
/// are sound, none of them brings the kings side by side unless it is made
/// with a king, and those that keep the king safe are the listed moves.
proof fn lemma_listing(s: State, player: Color, attack: bool)
    requires
        !kings_adjacent(s.board),
    ensures
        ({
            let moves = if attack {
                attack_moves(s.board, player)
            } else {
                legal_moves(s.board, player)
            };
            &&& all_sound(s.board, player, moves)
            &&& !some_move_exposes_kings(s.board, player, moves)
            &&& moves.filter(keeps_king_safe(s.board, player)) == listed_moves(s, player, attack)
        }),
{
    let b = s.board;
    let keep = keeps_king_safe(b, player);
    if attack {
        lemma_pseudo_moves_sound(b, player, true, Set::empty());
        lemma_no_move_exposes_kings(b, player, true, Set::empty());
    } else {
        let attacked = attack_set(b, player.opponent());
        let generated = pseudo_moves_of(b, player, false, attacked);
        let moves = legal_moves(b, player);
        lemma_pseudo_moves_sound(b, player, false, attacked);
        lemma_filter_keeps_sound(b, player, generated, moves);
        lemma_filter_again(generated, keep);
        assert forall|i: int| 0 <= i < moves.len() implies !exposes_kings(
            b,
            player,
            #[trigger] moves[i],
        ) by {
            if exposes_kings(b, player, moves[i]) {
                lemma_plain_move_keeps_kings_apart(b, player, moves[i]);
            }
        }
    }
}

/// Tokens of moves followed by tokens of castles name the moves followed by
/// the castles.
proof fn lemma_names_joined(
    first: Seq<String>,
    second: Seq<String>,
    moves: Seq<Move>,
    castles: Seq<Castle>,
)
    requires
        first.len() == moves.len(),
        second.len() == castles.len(),
        forall|i: int| 0 <= i < first.len() ==> (#[trigger] first[i])@ == move_token(moves[i]),
        forall|i: int| 0 <= i < second.len() ==> (#[trigger] second[i])@ == castles[i].token(),
    ensures
        names(first + second, joined(moves, castles)),
{
    let all = joined(moves, castles);
    let tokens = first + second;
    assert forall|j: int| 0 <= j < tokens.len() implies (#[trigger] tokens[j])@ == token_of(
        all[j],
    ) by {
        if j < first.len() {
            assert(tokens[j] == first[j]);
        } else {
            assert(tokens[j] == second[j - first.len()]);
        }
    }
}

/// The tokens of `moves`, one by one.
fn move_tokens(moves: &Vec<Move>) -> (tokens: Vec<String>)
    requires
        forall|i: int|
            0 <= i < moves@.len() ==> on_board((#[trigger] moves@[i]).0) && on_board(moves@[i].1),
    ensures
        tokens@.len() == moves@.len(),
        forall|i: int| 0 <= i < tokens@.len() ==> (#[trigger] tokens@[i])@ == move_token(moves@[i]),
{
    let mut tokens: Vec<String> = Vec::new();
    let mut i: usize = 0;
    while i < moves.len()
        invariant
            i <= moves.len(),
            tokens@.len() == i,
            forall|j: int|
                0 <= j < moves@.len() ==> on_board((#[trigger] moves@[j]).0) && on_board(
                    moves@[j].1,
                ),
            forall|j: int| 0 <= j < i ==> (#[trigger] tokens@[j])@ == move_token(moves@[j]),
        decreases moves.len() - i,
    {
        tokens.push(convert_move_to_string(moves[i]));
        i += 1;
    }
    tokens
}

/// The tokens of `castles`, one by one.
fn castle_tokens(castles: &Vec<Castle>) -> (tokens: Vec<String>)
    ensures
        tokens@.len() == castles@.len(),
        forall|i: int| 0 <= i < tokens@.len() ==> (#[trigger] tokens@[i])@ == castles@[i].token(),
{
    let mut tokens: Vec<String> = Vec::new();
    let mut k: usize = 0;
    while k < castles.len()
        invariant
            k <= castles.len(),
            tokens@.len() == k,
            forall|j: int| 0 <= j < k ==> (#[trigger] tokens@[j])@ == castles@[j].token(),
        decreases castles.len() - k,
    {
        tokens.push(convert_castle_move_to_string(castles[k]));
        k += 1;
    }
    tokens
}

/// The engine. It holds nothing: every call is given the state it works on.
pub struct ChessEngine {}

impl ChessEngine {
    /// A new engine.
    pub fn new() -> Self {
        ChessEngine {  }
    }

    /// Makes the move named `_move` for the side named `_player`, and brings
    /// the check flags of the new state up to date. Gives the new state and
    /// the reward of the move.
    pub fn next_state(&mut self, state: &State, _player: &str, _move: &str) -> (outcome: Result<
        (State, isize),
        ChessError,
    >)
        ensures
            outcome == played(*state, _player@, _move@),
    {
        let player = match player_string_to_enum(_player) {
            Ok(player) => player,
            Err(e) => {
                return Err(e);
            },
        };
        let move_struct = match convert_move_to_type(_move) {
            Ok(parsed) => parsed,
            Err(e) => {
                return Err(e);
            },
        };
        let (mut new_state, reward) = match next_state(state, player, move_struct) {
            Ok(made) => made,
            Err(e) => {
                return Err(e);
            },
        };
        match update_state(&mut new_state) {
            Ok(()) => {},
            Err(e) => {
                return Err(e);
            },
        }
        if new_state.white_king_is_checked && new_state.black_king_is_checked {
            return Err(ChessError::ImpossiblePosition);
        }
        Ok((new_state, reward))
    }

    /// The tokens of what the side named `_player` may do: its moves in the
    /// mode asked for, less those that leave its king in check, then its
    /// castles.
    pub fn get_possible_moves(&mut self, state: &State, _player: &str, attack: bool) -> (found:
        Result<Vec<String>, ChessError>)
        ensures
            match parse_player(_player@) {
                Err(e) => found == Err::<Vec<String>, ChessError>(e),
                Ok(player) => {
                    &&& found is Err <==> kings_adjacent(state.board)
                    &&& found matches Err(e) ==> e == ChessError::InternalInvariant
                    &&& found matches Ok(tokens) ==> names(
                        tokens@,
                        joined(
                            listed_moves(*state, player, attack),
                            if attack {
                                Seq::<Castle>::empty()
                            } else {
                                castle_moves(*state, player)
                            },
                        ),
                    )
                },
            },
    {
        let player = match player_string_to_enum(_player) {
            Ok(player) => player,
            Err(e) => {
                return Err(e);
            },
        };
        let (moves, castle_moves) = match get_all_possible_moves(state, player, attack) {
            Ok(found) => found,
            Err(e) => {
                return Err(e);
            },
        };
        proof {
            lemma_listing(*state, player, attack);
        }
        let listed = match keep_safe_moves(state, player, &moves) {
            Ok(listed) => listed,
            Err(e) => {
                return Err(e);
            },
        };
        proof {
            lemma_filter_keeps_sound(state.board, player, moves@, listed@);
        }
        let mut tokens = move_tokens(&listed);
        let mut castle_tokens = castle_tokens(&castle_moves);
        proof {
            lemma_names_joined(tokens@, castle_tokens@, listed@, castle_moves@);
        }
        tokens.append(&mut castle_tokens);
        Ok(tokens)
    }

    /// The tokens of the castles open to the side named `_player`.
    pub fn get_castle_moves(&mut self, state: &State, _player: &str) -> (found: Result<
        Vec<String>,
        ChessError,
    >)
        ensures
            match parse_player(_player@) {
                Err(e) => found == Err::<Vec<String>, ChessError>(e),
                Ok(player) => {
                    &&& found is Err <==> kings_adjacent(state.board)
                    &&& found matches Err(e) ==> e == ChessError::InternalInvariant
                    &&& found matches Ok(tokens) ==> names(
                        tokens@,
                        joined(Seq::<Move>::empty(), castle_moves(*state, player)),
                    )
                },
            },
    {
        let player = match player_string_to_enum(_player) {
            Ok(player) => player,
            Err(e) => {
                return Err(e);
            },
        };
        let castle_moves = match get_possible_castle_moves(state, player, false) {
            Ok(found) => found,
            Err(e) => {
                return Err(e);
            },
        };
        let tokens = castle_tokens(&castle_moves);
        proof {
            lemma_names_joined(Seq::empty(), tokens@, Seq::empty(), castle_moves@);
            assert(Seq::<String>::empty() + tokens@ =~= tokens@);
        }
        Ok(tokens)
    }

    /// `state` with both check flags brought up to date. Fails on a grid
    /// whose kings are side by side.
    pub fn update_state(&mut self, state: &State) -> (updated: Result<State, ChessError>)
        ensures
            updated is Err <==> kings_adjacent(state.board),
            updated matches Err(e) ==> e == ChessError::InternalInvariant,
            updated matches Ok(next) ==> next == refreshed(*state),
    {
        let mut next = *state;
        match update_state(&mut next) {
            Ok(()) => Ok(next),
            Err(e) => Err(e),
        }
    }

    /// The value of `state` for the side named `player`, `depth` plies deep,
    /// and the token of the move that achieves it. The token is empty where
    /// there is no such move.
    pub fn minimax(&mut self, state: &State, depth: usize, player: &str) -> (found: Result<
        (isize, String),
        ChessError,
    >)
        ensures
            match parse_player(player@) {
                Err(e) => found == Err::<(isize, String), ChessError>(e),
                Ok(side) => {
                    &&& found is Err <==> kings_adjacent(state.board)
                    &&& found matches Err(e) ==> e == ChessError::InternalInvariant
                    &&& found matches Ok((score, token)) ==> {
                        &&& score == search_value(*state, side, (depth as u32) as nat, side)
                        &&& token@ == match best_move(*state, side, (depth as u32) as nat) {
                            Some(mv) => token_of(mv),
                            None => Seq::<char>::empty(),
                        }
                    }
                },
            },
    {
        let side = match player_string_to_enum(player) {
            Ok(side) => side,
            Err(e) => {
                return Err(e);
            },
        };
        let plies = #[verifier::truncate]
        (depth as u32);
        let (best_score, best_move) = match minimax(state, plies, side) {
            Ok(found) => found,
            Err(e) => {
                return Err(e);
            },
        };
        let token = match best_move {
            Some(MoveStruct::Castle(castle)) => convert_castle_move_to_string(castle),
            Some(MoveStruct::Normal(normal_move)) => {
                proof {
                    let all = all_moves(*state, side);
                    let legal = legal_moves(state.board, side);
                    lemma_first_best(*state, side, plies as nat, all.len());
                    let at = first_best_upto(
                        *state,
                        side,
                        plies as nat,
                        side,
                        all.len(),
                    );
                    assert(all[at] == MoveStruct::Normal(normal_move));
                    assert(at < legal.len());
                    lemma_legal_moves_are_generated(state.board, side, at);
                }
                convert_move_to_string(normal_move)
            },
            None => String::new(),
        };
        Ok((best_score, token))
    }
}

} // verus!
