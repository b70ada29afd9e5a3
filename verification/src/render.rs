//! The text form of a board: one glyph for each square, ranks from the
//! highest down, so that Black's home row comes first.

use vstd::prelude::*;
use vstd::string::StringExecFns;
use crate::board::Board;
use crate::coordinate::{in_range, Coordinate};
use crate::piece::{Color, Piece};
use crate::position::Position;

verus! {

/// The number of characters in a rendered rank: a glyph and a space for
/// each of the eight squares, and the line break.
pub open spec fn line_width() -> int {
    17
}

/// The glyph that stands for `piece` of `color`.
pub open spec fn piece_glyph(piece: Piece, color: Color) -> char {
    match color {
        Color::White => match piece {
            Piece::Pawn => '\u{F0859}',
            Piece::Knight => '\u{265E}',
            Piece::Bishop => '\u{265D}',
            Piece::Rook => '\u{265C}',
            Piece::Queen => '\u{265B}',
            Piece::King => '\u{265A}',
        },
        Color::Black => match piece {
            Piece::Pawn => '\u{2659}',
            Piece::Knight => '\u{2658}',
            Piece::Bishop => '\u{2657}',
            Piece::Rook => '\u{2656}',
            Piece::Queen => '\u{2655}',
            Piece::King => '\u{2654}',
        },
    }
}

/// The glyph that stands for a square with the given occupant.
pub open spec fn glyph(occupant: Option<(Piece, Color)>) -> char {
    match occupant {
        Some((piece, color)) => piece_glyph(piece, color),
        None => '.',
    }
}

/// The text of a position: eight lines, rank 7 first. Each line holds the
/// glyphs of the rank's squares from file 0 on, a space after each, and a
/// line break at its end.
pub open spec fn rendering(position: Position) -> Seq<char> {
    Seq::new(
        (8 * line_width()) as nat,
        |i: int|
            {
                let rank = 7 - i / line_width();
                let column = i % line_width();
                if column == 16 {
                    '\n'
                } else if column % 2 == 1 {
                    ' '
                } else {
                    glyph(position.occupant((rank, column / 2)))
                }
            },
    )
}

/// No two occupants share a glyph, and none shares the glyph of the empty
/// square, the space or the line break.
pub proof fn lemma_glyphs_differ(a: Option<(Piece, Color)>, b: Option<(Piece, Color)>)
    ensures
        glyph(a) == glyph(b) ==> a == b,
        glyph(a) != ' ',
        glyph(a) != '\n',
{
}

/// The text of a position loses nothing: two positions with the same text
/// hold the same occupants on every square.
pub proof fn lemma_rendering_is_lossless(p: Position, q: Position)
    requires
        p.wf(),
        q.wf(),
        rendering(p) == rendering(q),
    ensures
        p.pieces == q.pieces,
{
    assert forall|at: (int, int)| in_range(at) implies p.occupant(at) == q.occupant(at) by {
        let i = (7 - at.0) * line_width() + 2 * at.1;
        assert(rendering(p)[i] == glyph(p.occupant(at)));
        assert(rendering(q)[i] == glyph(q.occupant(at)));
        lemma_glyphs_differ(p.occupant(at), q.occupant(at));
    }
    assert forall|at: (int, int)| #[trigger]
        p.pieces.dom().contains(at) == q.pieces.dom().contains(at) by {
        assert(in_range(at) ==> p.occupant(at) == q.occupant(at));
    }
    assert forall|at: (int, int)| #[trigger] p.pieces.dom().contains(at) implies p.pieces[at]
        == q.pieces[at] by {
        assert(in_range(at) && p.occupant(at) == q.occupant(at));
    }
    assert(p.pieces =~= q.pieces);
}

/// Returns the glyph of `piece` of `color`, as text.
pub fn symbol(piece: Piece, color: Color) -> (text: &'static str)
    ensures
        text@ == seq![piece_glyph(piece, color)],
{
    let text = match color {
        Color::White => match piece {
            Piece::Pawn => "\u{F0859}",
            Piece::Knight => "\u{265E}",
            Piece::Bishop => "\u{265D}",
            Piece::Rook => "\u{265C}",
            Piece::Queen => "\u{265B}",
            Piece::King => "\u{265A}",
        },
        Color::Black => match piece {
            Piece::Pawn => "\u{2659}",
            Piece::Knight => "\u{2658}",
            Piece::Bishop => "\u{2657}",
            Piece::Rook => "\u{2656}",
            Piece::Queen => "\u{2655}",
            Piece::King => "\u{2654}",
        },
    };
    proof {
        reveal_strlit("\u{F0859}");
        reveal_strlit("\u{265E}");
        reveal_strlit("\u{265D}");
        reveal_strlit("\u{265C}");
        reveal_strlit("\u{265B}");
        reveal_strlit("\u{265A}");
        reveal_strlit("\u{2659}");
        reveal_strlit("\u{2658}");
        reveal_strlit("\u{2657}");
        reveal_strlit("\u{2656}");
        reveal_strlit("\u{2655}");
        reveal_strlit("\u{2654}");
    }
    text
}

/// Returns the text of the board.
pub fn render(board: &Board) -> (text: String)
    ensures
        text@ == rendering(board@),
{
    let mut text = String::new();
    let mut line: usize = 0;
    while line < 8
        invariant
            line <= 8,
            text@ == rendering(board@).take(line * line_width()),
        decreases 8 - line,
    {
        let rank: usize = 7 - line;
        let mut file: usize = 0;
        while file < 8
            invariant
                line < 8,
                rank == 7 - line,
                file <= 8,
                text@ == rendering(board@).take(line * line_width() + 2 * file),
            decreases 8 - file,
        {
            let at = Coordinate::new(rank, file).unwrap();
            match board.occupant_at(at) {
                Some((piece, color)) => {
                    text.append(symbol(piece, color));
                },
                None => {
                    proof {
                        reveal_strlit(".");
                    }
                    text.append(".");
                },
            }
            proof {
                reveal_strlit(" ");
            }
            text.append(" ");
            file = file + 1;
        }
        proof {
            reveal_strlit("\n");
        }
        text.append("\n");
        line = line + 1;
    }
    text
}

} // verus!
