//! A chess rules engine with a fixed-depth alpha-beta search.
//!
//! The engine knows how the pieces move, which squares a side attacks, which
//! moves leave a king in check, when a side may castle, and what a move does
//! to a position. On top of that it searches the tree of positions to a given
//! depth and scores the leaves with a static evaluation. It knows neither
//! capture in passing nor draws by repetition or by the fifty-move rule.

pub mod attack;
pub mod board;
pub mod castling;
pub mod engine;
pub mod error;
pub mod evaluation;
pub mod laws;
pub mod legal;
pub mod lists;
pub mod movegen;
pub mod notation;
pub mod pieces;
pub mod render;
pub mod safety;
pub mod search;
pub mod state;
pub mod transition;

pub use crate::attack::{
    get_squares_under_attack_by_player, king_is_checked, opposing_attack_map, update_state,
};
pub use crate::board::{
    board_is_valid, piece_is_on_board, Board, Move, MoveStruct, Square, DEFAULT_BOARD,
};
pub use crate::castling::{
    _get_possible_castle_moves, calc_castle_moves, get_possible_castle_moves, has_right,
};
pub use crate::engine::ChessEngine;
pub use crate::error::ChessError;
pub use crate::evaluation::{evaluate, get_color, get_mobility, get_value};
pub use crate::legal::{
    _get_all_possible_moves, _get_possible_moves, get_all_possible_moves, get_possible_moves,
    move_leaves_king_checked,
};
pub use crate::notation::{
    convert_castle_move_to_string, convert_move_to_string, convert_move_to_type,
    player_enum_to_string, player_string_to_enum,
};
pub use crate::pieces::{
    Castle, Color, Piece, PieceType, SquareColor, BISHOP_ID, EMPTY_SQUARE_ID, KING_ID, KNIGHT_ID,
    PAWN_ID, QUEEN_ID, ROOK_ID,
};
pub use crate::render::{board_picture, get_piece_char, to_fen};
pub use crate::search::{_minimax, minimax};
pub use crate::state::State;
pub use crate::transition::next_state;
