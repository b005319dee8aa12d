//! The tokens by which the host names players and moves.
//!
//! A player is `WHITE` or `BLACK`. A move is either one of the four castle
//! tokens or four characters `<file><rank><file><rank>`, with files `a` to `h`
//! and ranks `1` to `8`: `e2e4` takes the piece on e2 to e4. Rank `8` is rank
//! 0 of the grid and rank `1` is rank 7.

use vstd::prelude::*;
use vstd::string::StrSliceExecFns;
use vstd::string::StringExecFns;
use crate::board::{Move, MoveStruct, on_board};
use crate::error::ChessError;
use crate::pieces::{Castle, Color};

verus! {

/// Whether two strings hold the same characters.
pub fn same_text(a: &str, b: &str) -> (same: bool)
    ensures
        same == (a@ == b@),
{
    let n = a.unicode_len();
    if n != b.unicode_len() {
        return false;
    }
    let mut i: usize = 0;
    while i < n
        invariant
            i <= n,
            n == a@.len(),
            n == b@.len(),
            forall|k: int| 0 <= k < i ==> a@[k] == b@[k],
        decreases n - i,
    {
        if a.get_char(i) != b.get_char(i) {
            return false;
        }
        i += 1;
    }
    assert(a@ =~= b@);
    true
}

/// The side that a player token names.
pub open spec fn parse_player(token: Seq<char>) -> Result<Color, ChessError> {
    if token == "WHITE"@ {
        Ok(Color::White)
    } else if token == "BLACK"@ {
        Ok(Color::Black)
    } else {
        Err(ChessError::InvalidColor)
    }
}

/// The token that names a side.
pub open spec fn player_token(player: Color) -> Seq<char> {
    match player {
        Color::White => "WHITE"@,
        Color::Black => "BLACK"@,
    }
}

/// The side that `player` names. Fails on any token but `WHITE` and `BLACK`.
pub fn player_string_to_enum(player: &str) -> (side: Result<Color, ChessError>)
    ensures
        side == parse_player(player@),
{
    if same_text(player, "WHITE") {
        Ok(Color::White)
    } else if same_text(player, "BLACK") {
        Ok(Color::Black)
    } else {
        Err(ChessError::InvalidColor)
    }
}

/// The token that names `player`.
pub fn player_enum_to_string(player: &Color) -> (token: &'static str)
    ensures
        token@ == player_token(*player),
{
    match player {
        Color::White => "WHITE",
        Color::Black => "BLACK",
    }
}

/// The letter of file `file`.
pub open spec fn file_letter(file: int) -> char {
    if file == 0 {
        'a'
    } else if file == 1 {
        'b'
    } else if file == 2 {
        'c'
    } else if file == 3 {
        'd'
    } else if file == 4 {
        'e'
    } else if file == 5 {
        'f'
    } else if file == 6 {
        'g'
    } else {
        'h'
    }
}

/// The digit of grid rank `rank`: `8` for rank 0 down to `1` for rank 7.
pub open spec fn rank_digit(rank: int) -> char {
    if rank == 0 {
        '8'
    } else if rank == 1 {
        '7'
    } else if rank == 2 {
        '6'
    } else if rank == 3 {
        '5'
    } else if rank == 4 {
        '4'
    } else if rank == 5 {
        '3'
    } else if rank == 6 {
        '2'
    } else {
        '1'
    }
}

/// The file that a letter names, if it names one.
pub open spec fn letter_file(letter: char) -> Option<isize> {
    if letter == 'a' {
        Some(0isize)
    } else if letter == 'b' {
        Some(1isize)
    } else if letter == 'c' {
        Some(2isize)
    } else if letter == 'd' {
        Some(3isize)
    } else if letter == 'e' {
        Some(4isize)
    } else if letter == 'f' {
        Some(5isize)
    } else if letter == 'g' {
        Some(6isize)
    } else if letter == 'h' {
        Some(7isize)
    } else {
        None
    }
}

/// The grid rank that a digit names, if it names one.
pub open spec fn digit_rank(digit: char) -> Option<isize> {
    if digit == '8' {
        Some(0isize)
    } else if digit == '7' {
        Some(1isize)
    } else if digit == '6' {
        Some(2isize)
    } else if digit == '5' {
        Some(3isize)
    } else if digit == '4' {
        Some(4isize)
    } else if digit == '3' {
        Some(5isize)
    } else if digit == '2' {
        Some(6isize)
    } else if digit == '1' {
        Some(7isize)
    } else {
        None
    }
}

/// The four characters that name the move `mv`.
pub open spec fn move_token(mv: Move) -> Seq<char> {
    seq![
        file_letter(mv.0.1 as int),
        rank_digit(mv.0.0 as int),
        file_letter(mv.1.1 as int),
        rank_digit(mv.1.0 as int),
    ]
}

/// The move that four coordinate characters name, if they name one.
pub open spec fn parse_coordinates(token: Seq<char>) -> Option<Move> {
    if token.len() == 4 && letter_file(token[0]) is Some && digit_rank(token[1]) is Some
        && letter_file(token[2]) is Some && digit_rank(token[3]) is Some {
        Some(
            (
                (digit_rank(token[1])->0, letter_file(token[0])->0),
                (digit_rank(token[3])->0, letter_file(token[2])->0),
            ),
        )
    } else {
        None
    }
}

/// The move that a token names. A token that is no castle name and no four
/// well-formed coordinate characters is malformed.
pub open spec fn parse_move(token: Seq<char>) -> Result<MoveStruct, ChessError> {
    if token == Castle::KingSideWhite.token() {
        Ok(MoveStruct::Castle(Castle::KingSideWhite))
    } else if token == Castle::QueenSideWhite.token() {
        Ok(MoveStruct::Castle(Castle::QueenSideWhite))
    } else if token == Castle::KingSideBlack.token() {
        Ok(MoveStruct::Castle(Castle::KingSideBlack))
    } else if token == Castle::QueenSideBlack.token() {
        Ok(MoveStruct::Castle(Castle::QueenSideBlack))
    } else {
        match parse_coordinates(token) {
            Some(mv) => Ok(MoveStruct::Normal(mv)),
            None => Err(ChessError::InvalidMoveFormat),
        }
    }
}

/// The letter of file `file`, as text.
pub fn file_text(file: isize) -> (text: &'static str)
    requires
        0 <= file <= 7,
    ensures
        text@ == seq![file_letter(file as int)],
{
    proof {
        reveal_strlit("a");
        reveal_strlit("b");
        reveal_strlit("c");
        reveal_strlit("d");
        reveal_strlit("e");
        reveal_strlit("f");
        reveal_strlit("g");
        reveal_strlit("h");
    }
    let text = if file == 0 {
        "a"
    } else if file == 1 {
        "b"
    } else if file == 2 {
        "c"
    } else if file == 3 {
        "d"
    } else if file == 4 {
        "e"
    } else if file == 5 {
        "f"
    } else if file == 6 {
        "g"
    } else {
        "h"
    };
    assert(text@ =~= seq![file_letter(file as int)]);
    text
}

/// The digit of grid rank `rank`, as text.
pub fn rank_text(rank: isize) -> (text: &'static str)
    requires
        0 <= rank <= 7,
    ensures
        text@ == seq![rank_digit(rank as int)],
{
    proof {
        reveal_strlit("1");
        reveal_strlit("2");
        reveal_strlit("3");
        reveal_strlit("4");
        reveal_strlit("5");
        reveal_strlit("6");
        reveal_strlit("7");
        reveal_strlit("8");
    }
    let text = if rank == 0 {
        "8"
    } else if rank == 1 {
        "7"
    } else if rank == 2 {
        "6"
    } else if rank == 3 {
        "5"
    } else if rank == 4 {
        "4"
    } else if rank == 5 {
        "3"
    } else if rank == 6 {
        "2"
    } else {
        "1"
    };
    assert(text@ =~= seq![rank_digit(rank as int)]);
    text
}

/// The token of `_move`.
pub fn convert_move_to_string(_move: Move) -> (token: String)
    requires
        on_board(_move.0),
        on_board(_move.1),
    ensures
        token@ == move_token(_move),
{
    let mut token = String::from_str(file_text(_move.0.1));
    token.append(rank_text(_move.0.0));
    token.append(file_text(_move.1.1));
    token.append(rank_text(_move.1.0));
    assert(token@ =~= move_token(_move));
    token
}

/// The token of `castle_move`.
pub fn convert_castle_move_to_string(castle_move: Castle) -> (token: String)
    ensures
        token@ == castle_move.token(),
{
    castle_move.to_string()
}

/// The file that `letter` names, if it names one.
fn file_of(letter: char) -> (file: Option<isize>)
    ensures
        file == letter_file(letter),
{
    if letter == 'a' {
        Some(0)
    } else if letter == 'b' {
        Some(1)
    } else if letter == 'c' {
        Some(2)
    } else if letter == 'd' {
        Some(3)
    } else if letter == 'e' {
        Some(4)
    } else if letter == 'f' {
        Some(5)
    } else if letter == 'g' {
        Some(6)
    } else if letter == 'h' {
        Some(7)
    } else {
        None
    }
}

/// The grid rank that `digit` names, if it names one.
fn rank_of(digit: char) -> (rank: Option<isize>)
    ensures
        rank == digit_rank(digit),
{
    if digit == '8' {
        Some(0)
    } else if digit == '7' {
        Some(1)
    } else if digit == '6' {
        Some(2)
    } else if digit == '5' {
        Some(3)
    } else if digit == '4' {
        Some(4)
    } else if digit == '3' {
        Some(5)
    } else if digit == '2' {
        Some(6)
    } else if digit == '1' {
        Some(7)
    } else {
        None
    }
}

/// The move that `_move` names. Fails on a token that is no castle name and
/// no four well-formed coordinate characters.
pub fn convert_move_to_type(_move: &str) -> (parsed: Result<MoveStruct, ChessError>)
    ensures
        parsed == parse_move(_move@),
        parsed matches Ok(MoveStruct::Normal(mv)) ==> on_board(mv.0) && on_board(mv.1),
{
    if same_text(_move, Castle::KingSideWhite.to_str()) {
        return Ok(MoveStruct::Castle(Castle::KingSideWhite));
    }
    if same_text(_move, Castle::QueenSideWhite.to_str()) {
        return Ok(MoveStruct::Castle(Castle::QueenSideWhite));
    }
    if same_text(_move, Castle::KingSideBlack.to_str()) {
        return Ok(MoveStruct::Castle(Castle::KingSideBlack));
    }
    if same_text(_move, Castle::QueenSideBlack.to_str()) {
        return Ok(MoveStruct::Castle(Castle::QueenSideBlack));
    }
    if _move.unicode_len() != 4 {
        return Err(ChessError::InvalidMoveFormat);
    }
    let from_file = file_of(_move.get_char(0));
    let from_rank = rank_of(_move.get_char(1));
    let to_file = file_of(_move.get_char(2));
    let to_rank = rank_of(_move.get_char(3));
    match (from_file, from_rank, to_file, to_rank) {
        (Some(f0), Some(r0), Some(f1), Some(r1)) => Ok(MoveStruct::Normal(((r0, f0), (r1, f1)))),
        _ => Err(ChessError::InvalidMoveFormat),
    }
}

/// Reading back the token of a move gives that move, and the token of a
/// castle that castle.
pub proof fn lemma_move_token_round_trip(mv: Move)
    requires
        on_board(mv.0),
        on_board(mv.1),
    ensures
        parse_move(move_token(mv)) == Ok::<MoveStruct, ChessError>(MoveStruct::Normal(mv)),
{
    reveal_strlit("CASTLE_KING_SIDE_WHITE");
    reveal_strlit("CASTLE_QUEEN_SIDE_WHITE");
    reveal_strlit("CASTLE_KING_SIDE_BLACK");
    reveal_strlit("CASTLE_QUEEN_SIDE_BLACK");
    let token = move_token(mv);
    assert(token.len() == 4);
}

/// Reading back the token of a castle gives that castle.
pub proof fn lemma_castle_token_round_trip(castle: Castle)
    ensures
        parse_move(castle.token()) == Ok::<MoveStruct, ChessError>(MoveStruct::Castle(castle)),
{
    reveal_strlit("CASTLE_KING_SIDE_WHITE");
    reveal_strlit("CASTLE_QUEEN_SIDE_WHITE");
    reveal_strlit("CASTLE_KING_SIDE_BLACK");
    reveal_strlit("CASTLE_QUEEN_SIDE_BLACK");
    assert("CASTLE_KING_SIDE_WHITE"@[17] == 'W');
    assert("CASTLE_KING_SIDE_BLACK"@[17] == 'B');
    assert("CASTLE_QUEEN_SIDE_WHITE"@[18] == 'W');
    assert("CASTLE_QUEEN_SIDE_BLACK"@[18] == 'B');
}

} // verus!
