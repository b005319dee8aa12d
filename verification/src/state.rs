//! A snapshot of a game: the grid, the side to move, and what is remembered
//! of castling and of check.

use vstd::prelude::*;
use std::collections::HashMap;
use crate::attack::{king_hit, _king_is_checked};
use crate::board::{Board, board_valid, has_piece, piece_is_on_board};
use crate::error::ChessError;
use crate::notation::{parse_player, player_string_to_enum};
use crate::pieces::{Color, KING_ID};

verus! {

/// A position.
///
/// The two `*_king_on_board` flags are read off the grid when the state is
/// made and are not touched afterwards. The two `*_king_is_checked` flags are
/// stale after a move until `update_state` refreshes them.
#[derive(Debug, Copy, Clone)]
pub struct State {
    pub board: Board,
    pub current_player: Color,
    pub white_king_on_board: bool,
    pub black_king_on_board: bool,
    pub white_king_castle_is_possible: bool,
    pub white_queen_castle_is_possible: bool,
    pub black_king_castle_is_possible: bool,
    pub black_queen_castle_is_possible: bool,
    pub white_king_is_checked: bool,
    pub black_king_is_checked: bool,
}

impl State {
    /// Every square of the grid holds an identifier of the catalog.
    pub open spec fn wf(&self) -> bool {
        board_valid(self.board)
    }

    /// The state that `new` makes of a grid, a side to move and four castling
    /// rights: a side without a king on the grid has no right to castle, and
    /// nobody is in check yet.
    pub open spec fn fresh(
        board: Board,
        current_player: Color,
        white_king_castle_is_possible: bool,
        white_queen_castle_is_possible: bool,
        black_king_castle_is_possible: bool,
        black_queen_castle_is_possible: bool,
    ) -> State {
        let white_king = has_piece(board, 1isize);
        let black_king = has_piece(board, -1isize);
        State {
            board,
            current_player,
            white_king_on_board: white_king,
            black_king_on_board: black_king,
            white_king_castle_is_possible: white_king && white_king_castle_is_possible,
            white_queen_castle_is_possible: white_king && white_queen_castle_is_possible,
            black_king_castle_is_possible: black_king && black_king_castle_is_possible,
            black_queen_castle_is_possible: black_king && black_queen_castle_is_possible,
            white_king_is_checked: false,
            black_king_is_checked: false,
        }
    }

    /// This state with the check flag of `player` set to `checked`.
    pub open spec fn with_check_flag(self, player: Color, checked: bool) -> State {
        match player {
            Color::White => State { white_king_is_checked: checked, ..self },
            Color::Black => State { black_king_is_checked: checked, ..self },
        }
    }

    /// Makes a state of a grid, the token of the side to move and the four
    /// castling rights. Fails on a token that names no side.
    pub fn new(
        board: Board,
        current_player: &str,
        white_king_castle_is_possible: bool,
        white_queen_castle_is_possible: bool,
        black_king_castle_is_possible: bool,
        black_queen_castle_is_possible: bool,
    ) -> (made: Result<Self, ChessError>)
        ensures
            match parse_player(current_player@) {
                Ok(side) => made == Ok::<State, ChessError>(
                    State::fresh(
                        board,
                        side,
                        white_king_castle_is_possible,
                        white_queen_castle_is_possible,
                        black_king_castle_is_possible,
                        black_queen_castle_is_possible,
                    ),
                ),
                Err(e) => made == Err::<State, ChessError>(e),
            },
    {
        let side = match player_string_to_enum(current_player) {
            Ok(side) => side,
            Err(e) => {
                return Err(e);
            },
        };
        let white_king_on_board = piece_is_on_board(&board, KING_ID);
        let black_king_on_board = piece_is_on_board(&board, -KING_ID);
        Ok(
            State {
                board,
                current_player: side,
                white_king_on_board,
                black_king_on_board,
                white_king_castle_is_possible: white_king_on_board && white_king_castle_is_possible,
                white_queen_castle_is_possible: white_king_on_board
                    && white_queen_castle_is_possible,
                black_king_castle_is_possible: black_king_on_board && black_king_castle_is_possible,
                black_queen_castle_is_possible: black_king_on_board
                    && black_queen_castle_is_possible,
                white_king_is_checked: false,
                black_king_is_checked: false,
            },
        )
    }

    /// Sets the check flag of `player`: checked if and only if the square of
    /// its king is filed in `squares_under_attack_map`. Nothing else changes.
    pub fn update_player_king_checked(
        &mut self,
        player: Color,
        squares_under_attack_map: &HashMap<usize, bool>,
    )
        ensures
            *final(self) == old(self).with_check_flag(
                player,
                king_hit(old(self).board, player, squares_under_attack_map@.dom()),
            ),
    {
        let checked = _king_is_checked(&*self, player, squares_under_attack_map);
        match player {
            Color::White => {
                self.white_king_is_checked = checked;
            },
            Color::Black => {
                self.black_king_is_checked = checked;
            },
        }
    }
}

} // verus!
