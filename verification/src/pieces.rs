//! The piece catalog: what a signed piece identifier stands for.
//!
//! A square of the board holds a signed integer. Its magnitude names the kind
//! of piece (1 for a king up to 6 for a pawn, 0 for an empty square) and its
//! sign the side: positive for White, negative for Black.

use vstd::prelude::*;
use vstd::string::StringExecFns;

verus! {

pub const EMPTY_SQUARE_ID: isize = 0;

pub const KING_ID: isize = 1;

pub const QUEEN_ID: isize = 2;

pub const ROOK_ID: isize = 3;

pub const BISHOP_ID: isize = 4;

pub const KNIGHT_ID: isize = 5;

pub const PAWN_ID: isize = 6;

/// Reward for a pawn that reaches the far rank and becomes a queen.
pub const CONVERT_PAWN_TO_QUEEN_REWARD: isize = 10;

pub const PAWN_VALUE: isize = 1;

pub const KNIGHT_VALUE: isize = 3;

pub const BISHOP_VALUE: isize = 3;

pub const ROOK_VALUE: isize = 5;

pub const QUEEN_VALUE: isize = 10;

pub const KING_VALUE: isize = 0;

#[derive(Debug, Copy, Clone, PartialEq, Eq, Structural)]
/// The kinds of piece, and `Empty` for a square without one.
pub enum PieceType {
    King,
    Queen,
    Rook,
    Bishop,
    Knight,
    Pawn,
    Empty,
}

#[derive(Debug, Copy, Clone, PartialEq, Eq, Structural)]
/// The two sides.
pub enum Color {
    White,
    Black,
}

impl Color {
    /// `+1` for White and `-1` for Black.
    pub open spec fn sign(self) -> int {
        match self {
            Color::White => 1,
            Color::Black => -1,
        }
    }

    /// The other side.
    pub open spec fn opponent(self) -> Color {
        match self {
            Color::White => Color::Black,
            Color::Black => Color::White,
        }
    }

    /// The identifier of this side's king.
    pub open spec fn king_id(self) -> isize {
        match self {
            Color::White => 1isize,
            Color::Black => -1isize,
        }
    }

    /// `+1` for White and `-1` for Black.
    pub fn to_int(&self) -> (sign: isize)
        ensures
            sign == self.sign(),
    {
        match self {
            Color::White => 1,
            Color::Black => -1,
        }
    }

    /// The identifier of this side's king.
    pub fn king(&self) -> (id: isize)
        ensures
            id == self.king_id(),
    {
        match self {
            Color::White => KING_ID,
            Color::Black => -KING_ID,
        }
    }

    /// The identifier of this side's queens.
    pub fn queen(&self) -> (id: isize)
        ensures
            id == match self {
                Color::White => 2isize,
                Color::Black => -2isize,
            },
    {
        match self {
            Color::White => QUEEN_ID,
            Color::Black => -QUEEN_ID,
        }
    }
}

#[derive(Debug, Copy, Clone, PartialEq, Eq, Structural)]
/// The colour of a square of the grid.
pub enum SquareColor {
    White,
    Black,
    Neither,
}

/// The four castling moves.
#[derive(Debug, Copy, Clone, PartialEq, Eq, Structural)]
pub enum Castle {
    KingSideWhite,
    QueenSideWhite,
    KingSideBlack,
    QueenSideBlack,
}

impl Castle {
    /// The token under which the host names this castle.
    pub open spec fn token(self) -> Seq<char> {
        match self {
            Castle::KingSideWhite => "CASTLE_KING_SIDE_WHITE"@,
            Castle::QueenSideWhite => "CASTLE_QUEEN_SIDE_WHITE"@,
            Castle::KingSideBlack => "CASTLE_KING_SIDE_BLACK"@,
            Castle::QueenSideBlack => "CASTLE_QUEEN_SIDE_BLACK"@,
        }
    }

    /// The side that castles.
    pub open spec fn side(self) -> Color {
        match self {
            Castle::KingSideWhite | Castle::QueenSideWhite => Color::White,
            Castle::KingSideBlack | Castle::QueenSideBlack => Color::Black,
        }
    }

    /// The token of this castle.
    pub fn to_str(&self) -> (text: &'static str)
        ensures
            text@ == self.token(),
    {
        match self {
            Castle::KingSideWhite => "CASTLE_KING_SIDE_WHITE",
            Castle::QueenSideWhite => "CASTLE_QUEEN_SIDE_WHITE",
            Castle::KingSideBlack => "CASTLE_KING_SIDE_BLACK",
            Castle::QueenSideBlack => "CASTLE_QUEEN_SIDE_BLACK",
        }
    }

    /// The token of this castle, owned.
    pub fn to_string(&self) -> (text: String)
        ensures
            text@ == self.token(),
    {
        String::from_str(self.to_str())
    }
}

/// Whether `id` is one of the thirteen identifiers of the catalog.
pub open spec fn valid_piece_id(id: int) -> bool {
    -6 <= id <= 6
}

/// The kind of piece that `id` names.
pub open spec fn piece_type_of(id: int) -> PieceType {
    if id == 1 || id == -1 {
        PieceType::King
    } else if id == 2 || id == -2 {
        PieceType::Queen
    } else if id == 3 || id == -3 {
        PieceType::Rook
    } else if id == 4 || id == -4 {
        PieceType::Bishop
    } else if id == 5 || id == -5 {
        PieceType::Knight
    } else if id == 6 || id == -6 {
        PieceType::Pawn
    } else {
        PieceType::Empty
    }
}

/// The side that `id` belongs to. The empty square is listed under White; no
/// rule depends on that.
pub open spec fn piece_color_of(id: int) -> Color {
    if id < 0 {
        Color::Black
    } else {
        Color::White
    }
}

/// What capturing a piece of kind `kind` is worth.
pub open spec fn capture_value_of(kind: PieceType) -> int {
    match kind {
        PieceType::King => 0,
        PieceType::Queen => 10,
        PieceType::Rook => 5,
        PieceType::Bishop => 3,
        PieceType::Knight => 3,
        PieceType::Pawn => 1,
        PieceType::Empty => 0,
    }
}

/// What capturing the piece `id` is worth.
pub open spec fn piece_value_of(id: int) -> int {
    capture_value_of(piece_type_of(id))
}

/// The glyph that shows the piece `id`.
pub open spec fn piece_icon_of(id: int) -> char {
    if id == -6 {
        '\u{2659}'
    } else if id == -5 {
        '\u{2658}'
    } else if id == -4 {
        '\u{2657}'
    } else if id == -3 {
        '\u{2656}'
    } else if id == -2 {
        '\u{2655}'
    } else if id == -1 {
        '\u{2654}'
    } else if id == 1 {
        '\u{265A}'
    } else if id == 2 {
        '\u{265B}'
    } else if id == 3 {
        '\u{265C}'
    } else if id == 4 {
        '\u{265D}'
    } else if id == 5 {
        '\u{265E}'
    } else if id == 6 {
        '\u{265F}'
    } else {
        '.'
    }
}

/// The letter that names a piece of kind `kind` in move lists.
pub open spec fn piece_desc_of(kind: PieceType) -> Seq<char> {
    match kind {
        PieceType::King => "K"@,
        PieceType::Queen => "Q"@,
        PieceType::Rook => "R"@,
        PieceType::Bishop => "B"@,
        PieceType::Knight => "N"@,
        PieceType::Pawn => " "@,
        PieceType::Empty => " "@,
    }
}

/// The kind of piece that `id` names.
pub fn piece_type(id: isize) -> (kind: PieceType)
    ensures
        kind == piece_type_of(id as int),
{
    if id == KING_ID || id == -KING_ID {
        PieceType::King
    } else if id == QUEEN_ID || id == -QUEEN_ID {
        PieceType::Queen
    } else if id == ROOK_ID || id == -ROOK_ID {
        PieceType::Rook
    } else if id == BISHOP_ID || id == -BISHOP_ID {
        PieceType::Bishop
    } else if id == KNIGHT_ID || id == -KNIGHT_ID {
        PieceType::Knight
    } else if id == PAWN_ID || id == -PAWN_ID {
        PieceType::Pawn
    } else {
        PieceType::Empty
    }
}

/// The side that `id` belongs to.
pub fn piece_color(id: isize) -> (color: Color)
    ensures
        color == piece_color_of(id as int),
{
    if id < 0 {
        Color::Black
    } else {
        Color::White
    }
}

/// What capturing the piece `id` is worth.
pub fn piece_value(id: isize) -> (value: isize)
    ensures
        value == piece_value_of(id as int),
        0 <= value <= 10,
{
    match piece_type(id) {
        PieceType::King => KING_VALUE,
        PieceType::Queen => QUEEN_VALUE,
        PieceType::Rook => ROOK_VALUE,
        PieceType::Bishop => BISHOP_VALUE,
        PieceType::Knight => KNIGHT_VALUE,
        PieceType::Pawn => PAWN_VALUE,
        PieceType::Empty => 0,
    }
}

/// The glyph that shows the piece `id`.
pub fn piece_icon(id: isize) -> (icon: char)
    ensures
        icon == piece_icon_of(id as int),
{
    if id == -PAWN_ID {
        '\u{2659}'
    } else if id == -KNIGHT_ID {
        '\u{2658}'
    } else if id == -BISHOP_ID {
        '\u{2657}'
    } else if id == -ROOK_ID {
        '\u{2656}'
    } else if id == -QUEEN_ID {
        '\u{2655}'
    } else if id == -KING_ID {
        '\u{2654}'
    } else if id == KING_ID {
        '\u{265A}'
    } else if id == QUEEN_ID {
        '\u{265B}'
    } else if id == ROOK_ID {
        '\u{265C}'
    } else if id == BISHOP_ID {
        '\u{265D}'
    } else if id == KNIGHT_ID {
        '\u{265E}'
    } else if id == PAWN_ID {
        '\u{265F}'
    } else {
        '.'
    }
}

/// The letter that names a piece of kind `kind` in move lists.
pub fn piece_desc(kind: PieceType) -> (desc: &'static str)
    ensures
        desc@ == piece_desc_of(kind),
{
    match kind {
        PieceType::King => "K",
        PieceType::Queen => "Q",
        PieceType::Rook => "R",
        PieceType::Bishop => "B",
        PieceType::Knight => "N",
        PieceType::Pawn => " ",
        PieceType::Empty => " ",
    }
}

/// One line of the catalog.
#[derive(Debug)]
pub struct Piece<'a> {
    pub id: isize,
    pub _type: PieceType,
    pub color: Color,
    pub icon: char,
    pub desc: &'a str,
    pub value: isize,
}

impl<'a> Piece<'a> {
    /// Whether this line says of `self.id` what the catalog says of it.
    pub open spec fn matches_catalog(&self) -> bool {
        &&& valid_piece_id(self.id as int)
        &&& self._type == piece_type_of(self.id as int)
        &&& self.color == piece_color_of(self.id as int)
        &&& self.icon == piece_icon_of(self.id as int)
        &&& self.desc@ == piece_desc_of(self._type)
        &&& self.value == piece_value_of(self.id as int)
    }

    /// The catalog's line for `id`, if `id` is in the catalog.
    pub fn lookup(id: isize) -> (entry: Option<Piece<'static>>)
        ensures
            entry is Some <==> valid_piece_id(id as int),
            entry matches Some(piece) ==> piece.id == id && piece.matches_catalog(),
    {
        if id < -PAWN_ID || id > PAWN_ID {
            None
        } else {
            let kind = piece_type(id);
            Some(
                Piece {
                    id,
                    _type: kind,
                    color: piece_color(id),
                    icon: piece_icon(id),
                    desc: piece_desc(kind),
                    value: piece_value(id),
                },
            )
        }
    }
}

} // verus!
