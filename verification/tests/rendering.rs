use chess_moves::{render, symbol, Board, Color, Coordinate, Piece, Square};

#[test]
fn symbols_are_the_chess_glyphs() {
    assert_eq!(symbol(Piece::Pawn, Color::White), "\u{F0859}");
    assert_eq!(symbol(Piece::Knight, Color::White), "♞");
    assert_eq!(symbol(Piece::Bishop, Color::White), "♝");
    assert_eq!(symbol(Piece::Rook, Color::White), "♜");
    assert_eq!(symbol(Piece::Queen, Color::White), "♛");
    assert_eq!(symbol(Piece::King, Color::White), "♚");
    assert_eq!(symbol(Piece::Pawn, Color::Black), "♙");
    assert_eq!(symbol(Piece::Knight, Color::Black), "♘");
    assert_eq!(symbol(Piece::Bishop, Color::Black), "♗");
    assert_eq!(symbol(Piece::Rook, Color::Black), "♖");
    assert_eq!(symbol(Piece::Queen, Color::Black), "♕");
    assert_eq!(symbol(Piece::King, Color::Black), "♔");
}

#[test]
fn symbols_are_all_different() {
    let pieces = [
        Piece::Pawn,
        Piece::Knight,
        Piece::Bishop,
        Piece::Rook,
        Piece::Queen,
        Piece::King,
    ];
    let mut seen: Vec<&str> = vec!["."];
    for color in [Color::White, Color::Black] {
        for piece in pieces {
            let glyph = symbol(piece, color);
            assert_eq!(glyph.chars().count(), 1);
            assert!(!seen.contains(&glyph));
            seen.push(glyph);
        }
    }
    assert_eq!(seen.len(), 13);
}

#[test]
fn starting_position_renders_black_first() {
    let text = render(&Board::new());
    let expected = "♖ ♘ ♗ ♕ ♔ ♗ ♘ ♖ \n\
                    ♙ ♙ ♙ ♙ ♙ ♙ ♙ ♙ \n\
                    . . . . . . . . \n\
                    . . . . . . . . \n\
                    . . . . . . . . \n\
                    . . . . . . . . \n\
                    \u{F0859} \u{F0859} \u{F0859} \u{F0859} \u{F0859} \u{F0859} \u{F0859} \u{F0859} \n\
                    ♜ ♞ ♝ ♛ ♚ ♝ ♞ ♜ \n";
    assert_eq!(text, expected);
}

#[test]
fn empty_board_renders_as_dots() {
    let text = render(&Board::from_squares([[Square::Empty; 8]; 8]));
    assert_eq!(text, ". . . . . . . . \n".repeat(8));
    assert_eq!(text.chars().count(), 8 * 17);
}

#[test]
fn rendering_follows_a_move() {
    let mut board = Board::new();
    let from = Coordinate::new(0, 1).unwrap();
    let to = Coordinate::new(2, 2).unwrap();
    assert_eq!(board.make_move(from, to), Ok(()));
    let text = render(&board);
    let lines: Vec<&str> = text.lines().collect();
    assert_eq!(lines.len(), 8);
    assert_eq!(lines[5], ". . ♞ . . . . . ");
    assert_eq!(lines[7], "♜ . ♝ ♛ ♚ ♝ ♞ ♜ ");
}
