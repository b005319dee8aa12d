//! Positions as text: the picture of a grid, and the record of a state in
//! Forsyth-Edwards notation.

use vstd::prelude::*;
use vstd::string::StrSliceExecFns;
use vstd::string::StringExecFns;
use crate::board::{Board, cell};
use crate::notation::{rank_digit, rank_text};
use crate::pieces::{Color, piece_icon_of, valid_piece_id};
use crate::state::State;

verus! {

/// The letter of the piece `code` in a record: capitals for White, small
/// letters for Black, a dot for an empty square.
pub open spec fn piece_letter(code: int) -> char {
    if code == 1 {
        'K'
    } else if code == 2 {
        'Q'
    } else if code == 3 {
        'R'
    } else if code == 4 {
        'B'
    } else if code == 5 {
        'N'
    } else if code == 6 {
        'P'
    } else if code == -1 {
        'k'
    } else if code == -2 {
        'q'
    } else if code == -3 {
        'r'
    } else if code == -4 {
        'b'
    } else if code == -5 {
        'n'
    } else if code == -6 {
        'p'
    } else {
        '.'
    }
}

/// The letter of the piece `code` in a record.
pub fn get_piece_char(code: i32) -> (letter: char)
    requires
        valid_piece_id(code as int),
    ensures
        letter == piece_letter(code as int),
{
    if code == 1 {
        'K'
    } else if code == 2 {
        'Q'
    } else if code == 3 {
        'R'
    } else if code == 4 {
        'B'
    } else if code == 5 {
        'N'
    } else if code == 6 {
        'P'
    } else if code == -1 {
        'k'
    } else if code == -2 {
        'q'
    } else if code == -3 {
        'r'
    } else if code == -4 {
        'b'
    } else if code == -5 {
        'n'
    } else if code == -6 {
        'p'
    } else {
        '.'
    }
}

/// The glyph of the piece `id`, as text.
fn icon_text(id: isize) -> (text: &'static str)
    ensures
        text@ == seq![piece_icon_of(id as int)],
{
    proof {
        reveal_strlit("\u{2659}");
        reveal_strlit("\u{2658}");
        reveal_strlit("\u{2657}");
        reveal_strlit("\u{2656}");
        reveal_strlit("\u{2655}");
        reveal_strlit("\u{2654}");
        reveal_strlit("\u{265A}");
        reveal_strlit("\u{265B}");
        reveal_strlit("\u{265C}");
        reveal_strlit("\u{265D}");
        reveal_strlit("\u{265E}");
        reveal_strlit("\u{265F}");
        reveal_strlit(".");
    }
    let text = if id == -6 {
        "\u{2659}"
    } else if id == -5 {
        "\u{2658}"
    } else if id == -4 {
        "\u{2657}"
    } else if id == -3 {
        "\u{2656}"
    } else if id == -2 {
        "\u{2655}"
    } else if id == -1 {
        "\u{2654}"
    } else if id == 1 {
        "\u{265A}"
    } else if id == 2 {
        "\u{265B}"
    } else if id == 3 {
        "\u{265C}"
    } else if id == 4 {
        "\u{265D}"
    } else if id == 5 {
        "\u{265E}"
    } else if id == 6 {
        "\u{265F}"
    } else {
        "."
    };
    assert(text@ =~= seq![piece_icon_of(id as int)]);
    text
}

/// The letter of the piece `code`, as text.
fn letter_text(code: isize) -> (text: &'static str)
    requires
        valid_piece_id(code as int),
        code != 0,
    ensures
        text@ == seq![piece_letter(code as int)],
{
    proof {
        reveal_strlit("K");
        reveal_strlit("Q");
        reveal_strlit("R");
        reveal_strlit("B");
        reveal_strlit("N");
        reveal_strlit("P");
        reveal_strlit("k");
        reveal_strlit("q");
        reveal_strlit("r");
        reveal_strlit("b");
        reveal_strlit("n");
        reveal_strlit("p");
    }
    let text = if code == 1 {
        "K"
    } else if code == 2 {
        "Q"
    } else if code == 3 {
        "R"
    } else if code == 4 {
        "B"
    } else if code == 5 {
        "N"
    } else if code == 6 {
        "P"
    } else if code == -1 {
        "k"
    } else if code == -2 {
        "q"
    } else if code == -3 {
        "r"
    } else if code == -4 {
        "b"
    } else if code == -5 {
        "n"
    } else {
        "p"
    };
    assert(text@ =~= seq![piece_letter(code as int)]);
    text
}

/// The three characters that show the first `n` squares of rank `rank`, one
/// square after the other: a blank, the glyph of the piece, a blank.
pub open spec fn cells_text(b: Board, rank: int, n: nat) -> Seq<char>
    decreases n,
{
    if n == 0 {
        Seq::empty()
    } else {
        cells_text(b, rank, (n - 1) as nat) + " "@ + seq![
            piece_icon_of(b[rank][n - 1] as int),
        ] + " "@
    }
}

/// The line that shows rank `rank`: its number as players count it, then
/// its eight squares between two bars.
pub open spec fn row_text(b: Board, rank: int) -> Seq<char> {
    "\n"@ + seq![rank_digit(rank)] + " |"@ + cells_text(b, rank, 8) + "|"@
}

/// The lines that show the first `n` ranks.
pub open spec fn rows_text(b: Board, n: nat) -> Seq<char>
    decreases n,
{
    if n == 0 {
        Seq::empty()
    } else {
        rows_text(b, (n - 1) as nat) + row_text(b, n - 1)
    }
}

/// The picture of the grid `b`: a rule, the eight ranks from Black's side
/// down, a rule, and the letters of the files.
pub open spec fn picture_of(b: Board) -> Seq<char> {
    "\n   ------------------------"@ + rows_text(b, 8) + "\n   ------------------------\n"@
        + "    a  b  c  d  e  f  g  h\n"@
}

/// The picture of `board` as text.
pub fn board_picture(board: &Board) -> (picture: String)
    ensures
        picture@ == picture_of(*board),
{
    let mut picture = String::from_str("\n   ------------------------");
    let ghost top = picture@;
    let mut rank: usize = 0;
    while rank < 8
        invariant
            rank <= 8,
            picture@ == top + rows_text(*board, rank as nat),
        decreases 8 - rank,
    {
        let ghost before = picture@;
        picture.append("\n");
        picture.append(rank_text(rank as isize));
        picture.append(" |");
        let ghost start = picture@;
        let mut file: usize = 0;
        while file < 8
            invariant
                rank < 8,
                file <= 8,
                picture@ == start + cells_text(*board, rank as int, file as nat),
            decreases 8 - file,
        {
            let ghost so_far = cells_text(*board, rank as int, file as nat);
            picture.append(" ");
            picture.append(icon_text(board[rank][file]));
            picture.append(" ");
            assert(picture@ =~= start + (so_far + " "@ + seq![
                piece_icon_of(board[rank as int][file as int] as int),
            ] + " "@));
            file += 1;
        }
        picture.append("|");
        assert(picture@ =~= before + row_text(*board, rank as int));
        assert(before + row_text(*board, rank as int) =~= top + (rows_text(*board, rank as nat)
            + row_text(*board, rank as int)));
        rank += 1;
    }
    picture.append("\n   ------------------------\n");
    picture.append("    a  b  c  d  e  f  g  h\n");
    assert(picture@ =~= picture_of(*board));
    picture
}

/// The digit that counts `empties` empty squares in a row, if there are any.
pub open spec fn run_text(empties: int) -> Seq<char> {
    if empties > 0 {
        seq![rank_digit(8 - empties)]
    } else {
        Seq::empty()
    }
}

/// The record of rank `rank` from file `file` on, with `empties` empty
/// squares counted and not yet written: a letter for each piece and a digit
/// for each run of empty squares.
pub open spec fn fen_rank_from(b: Board, rank: int, file: int, empties: int) -> Seq<char>
    decreases 8 - file,
{
    if file >= 8 {
        run_text(empties)
    } else if b[rank][file] == 0 {
        fen_rank_from(b, rank, file + 1, empties + 1)
    } else {
        run_text(empties) + seq![piece_letter(b[rank][file] as int)] + fen_rank_from(
            b,
            rank,
            file + 1,
            0,
        )
    }
}

/// The record of the first `n` ranks, with a stroke after each rank but the
/// last of the grid.
pub open spec fn fen_ranks(b: Board, n: nat) -> Seq<char>
    decreases n,
{
    if n == 0 {
        Seq::empty()
    } else {
        fen_ranks(b, (n - 1) as nat) + fen_rank_from(b, n - 1, 0, 0) + if n - 1 < 7 {
            "/"@
        } else {
            Seq::empty()
        }
    }
}

/// The letter `letter` if `wanted`, else nothing.
pub open spec fn maybe_text(wanted: bool, letter: Seq<char>) -> Seq<char> {
    if wanted {
        letter
    } else {
        Seq::empty()
    }
}

/// The rights to castle as letters: `K` and `Q` for White, `k` and `q` for
/// Black.
pub open spec fn rights_letters(s: State) -> Seq<char> {
    maybe_text(s.white_king_castle_is_possible, "K"@) + maybe_text(
        s.white_queen_castle_is_possible,
        "Q"@,
    ) + maybe_text(s.black_king_castle_is_possible, "k"@) + maybe_text(
        s.black_queen_castle_is_possible,
        "q"@,
    )
}

/// The record of `s`: the grid, the side to move, the rights to castle or a
/// dash where there is none, and a fixed tail for what the state does not
/// hold.
pub open spec fn fen_of(s: State) -> Seq<char> {
    fen_ranks(s.board, 8) + " "@ + (match s.current_player {
        Color::White => "w"@,
        Color::Black => "b"@,
    }) + " "@ + (if rights_letters(s).len() == 0 {
        "-"@
    } else {
        rights_letters(s)
    }) + " - 0 1"@
}

/// The record of `state` in Forsyth-Edwards notation. The target of a capture
/// in passing and the two move counters are not part of a state and are
/// written as `- 0 1`.
pub fn to_fen(state: State) -> (fen: String)
    requires
        state.wf(),
    ensures
        fen@ == fen_of(state),
{
    let mut fen = String::new();
    let mut rank: usize = 0;
    while rank < 8
        invariant
            rank <= 8,
            state.wf(),
            fen@ == fen_ranks(state.board, rank as nat),
        decreases 8 - rank,
    {
        let ghost before = fen@;
        let ghost whole = fen_rank_from(state.board, rank as int, 0, 0);
        let mut empty_squares: usize = 0;
        let mut file: usize = 0;
        while file < 8
            invariant
                rank < 8,
                file <= 8,
                empty_squares <= file,
                state.wf(),
                whole == fen_rank_from(state.board, rank as int, 0, 0),
                fen@ + fen_rank_from(state.board, rank as int, file as int, empty_squares as int)
                    == before + whole,
            decreases 8 - file,
        {
            let ghost so_far = fen@;
            let ghost rest = fen_rank_from(
                state.board,
                rank as int,
                file as int,
                empty_squares as int,
            );
            let piece_code = state.board[rank][file];
            assert(piece_code == cell(state.board, (rank as isize, file as isize)));
            if piece_code != 0 {
                if empty_squares > 0 {
                    fen.append(rank_text(8 - empty_squares as isize));
                    empty_squares = 0;
                }
                fen.append(letter_text(piece_code));
                assert(fen@ + fen_rank_from(state.board, rank as int, file + 1, 0) =~= so_far
                    + rest);
            } else {
                empty_squares += 1;
            }
            file += 1;
        }
        if empty_squares > 0 {
            fen.append(rank_text(8 - empty_squares as isize));
        }
        assert(fen@ =~= before + whole);
        if rank < 7 {
            fen.append("/");
        }
        assert(fen@ =~= fen_ranks(state.board, (rank + 1) as nat));
        rank += 1;
    }
    // The side to move
    fen.append(" ");
    match state.current_player {
        Color::White => fen.append("w"),
        Color::Black => fen.append("b"),
    }
    // The rights to castle
    fen.append(" ");
    let mut castling = String::new();
    if state.white_king_castle_is_possible {
        castling.append("K");
    }
    if state.white_queen_castle_is_possible {
        castling.append("Q");
    }
    if state.black_king_castle_is_possible {
        castling.append("k");
    }
    if state.black_queen_castle_is_possible {
        castling.append("q");
    }
    assert(castling@ =~= rights_letters(state));
    if castling.as_str().unicode_len() == 0 {
        fen.append("-");
    } else {
        fen.append(castling.as_str());
    }
    // No target of a capture in passing, no move counters
    fen.append(" - 0 1");
    assert(fen@ =~= fen_of(state));
    fen
}

} // verus!
