use chess_moves::{
    get_legal_moves, legal_destinations, Board, Color, Coordinate, MoveError, Piece, Square,
};

fn at(rank: usize, file: usize) -> Coordinate {
    Coordinate::new(rank, file).unwrap()
}

fn board_with(pieces: &[((usize, usize), Piece, Color)]) -> Board {
    let mut grid = [[Square::Empty; 8]; 8];
    for &((rank, file), piece, color) in pieces {
        grid[rank][file] = Square::Occupied(piece, color);
    }
    Board::from_squares(grid)
}

fn sorted(moves: Vec<Coordinate>) -> Vec<(usize, usize)> {
    let mut squares: Vec<(usize, usize)> = moves.iter().map(|c| (c.rank(), c.file())).collect();
    squares.sort();
    squares
}

fn moves_of(board: &Board, rank: usize, file: usize) -> Vec<(usize, usize)> {
    let piece = board.get_piece(at(rank, file)).unwrap();
    sorted(get_legal_moves(piece, board, at(rank, file)))
}

fn ordered(mut squares: Vec<(usize, usize)>) -> Vec<(usize, usize)> {
    squares.sort();
    squares
}

#[test]
fn knight_in_the_middle_of_an_empty_board_has_eight_destinations() {
    let board = board_with(&[((4, 4), Piece::Knight, Color::White)]);
    let moves = moves_of(&board, 4, 4);
    assert_eq!(moves.len(), 8);
    assert_eq!(
        moves,
        vec![(2, 3), (2, 5), (3, 2), (3, 6), (5, 2), (5, 6), (6, 3), (6, 5)]
    );
    for (rank, file) in moves {
        let dr = (rank as i32 - 4).abs();
        let df = (file as i32 - 4).abs();
        assert!((dr == 2 && df == 1) || (dr == 1 && df == 2));
        assert!(rank < 8 && file < 8);
    }
}

#[test]
fn knight_in_the_corner_of_an_empty_board_has_two_destinations() {
    let board = board_with(&[((0, 0), Piece::Knight, Color::White)]);
    assert_eq!(moves_of(&board, 0, 0), vec![(1, 2), (2, 1)]);
}

#[test]
fn knight_in_every_corner_has_two_destinations() {
    let board = board_with(&[
        ((0, 7), Piece::Knight, Color::Black),
        ((7, 0), Piece::Knight, Color::Black),
        ((7, 7), Piece::Knight, Color::White),
    ]);
    assert_eq!(moves_of(&board, 0, 7), vec![(1, 5), (2, 6)]);
    assert_eq!(moves_of(&board, 7, 0), vec![(5, 1), (6, 2)]);
    assert_eq!(moves_of(&board, 7, 7), vec![(5, 6), (6, 5)]);
}

#[test]
fn knight_leaps_over_pieces_and_takes_foes_but_not_friends() {
    let board = board_with(&[
        ((4, 4), Piece::Knight, Color::White),
        ((5, 4), Piece::Pawn, Color::White),
        ((4, 5), Piece::Pawn, Color::Black),
        ((3, 4), Piece::Pawn, Color::Black),
        ((4, 3), Piece::Pawn, Color::White),
        ((6, 5), Piece::Queen, Color::Black),
        ((6, 3), Piece::Rook, Color::White),
    ]);
    assert_eq!(
        moves_of(&board, 4, 4),
        vec![(2, 3), (2, 5), (3, 2), (3, 6), (5, 2), (5, 6), (6, 5)]
    );
}

#[test]
fn knights_at_the_start_have_two_destinations_each() {
    let board = Board::new();
    assert_eq!(moves_of(&board, 0, 1), vec![(2, 0), (2, 2)]);
    assert_eq!(moves_of(&board, 0, 6), vec![(2, 5), (2, 7)]);
    assert_eq!(moves_of(&board, 7, 1), vec![(5, 0), (5, 2)]);
    assert_eq!(moves_of(&board, 7, 6), vec![(5, 5), (5, 7)]);
}

#[test]
fn bishop_on_an_empty_board_runs_to_the_edges() {
    let board = board_with(&[((3, 3), Piece::Bishop, Color::White)]);
    let moves = moves_of(&board, 3, 3);
    assert_eq!(moves.len(), 13);
    assert_eq!(
        moves,
        ordered(vec![
            (4, 4), (5, 5), (6, 6), (7, 7),
            (2, 2), (1, 1), (0, 0),
            (4, 2), (5, 1), (6, 0),
            (2, 4), (1, 5), (0, 6),
        ])
    );
}

#[test]
fn bishop_stops_on_a_foe() {
    let board = board_with(&[
        ((3, 3), Piece::Bishop, Color::White),
        ((5, 5), Piece::Pawn, Color::Black),
    ]);
    let moves = moves_of(&board, 3, 3);
    assert!(moves.contains(&(4, 4)));
    assert!(moves.contains(&(5, 5)));
    assert!(!moves.contains(&(6, 6)));
    assert!(!moves.contains(&(7, 7)));
    assert_eq!(moves.len(), 11);
}

#[test]
fn bishop_stops_before_a_friend() {
    let board = board_with(&[
        ((3, 3), Piece::Bishop, Color::White),
        ((5, 5), Piece::Pawn, Color::White),
    ]);
    let moves = moves_of(&board, 3, 3);
    assert!(moves.contains(&(4, 4)));
    assert!(!moves.contains(&(5, 5)));
    assert!(!moves.contains(&(6, 6)));
    assert!(!moves.contains(&(7, 7)));
    assert_eq!(moves.len(), 10);
}

#[test]
fn bishop_next_to_a_blocker_has_nothing_on_that_ray() {
    let board = board_with(&[
        ((3, 3), Piece::Bishop, Color::Black),
        ((4, 4), Piece::Pawn, Color::Black),
        ((2, 2), Piece::Pawn, Color::White),
    ]);
    assert_eq!(
        moves_of(&board, 3, 3),
        ordered(vec![(2, 2), (4, 2), (5, 1), (6, 0), (2, 4), (1, 5), (0, 6)])
    );
}

#[test]
fn bishop_at_the_start_is_boxed_in() {
    let board = Board::new();
    assert_eq!(moves_of(&board, 0, 2), vec![]);
    assert_eq!(moves_of(&board, 7, 5), vec![]);
}

#[test]
fn bishop_at_the_start_is_freed_by_a_missing_pawn() {
    let mut grid = [[Square::Empty; 8]; 8];
    let start = Board::new();
    for rank in 0..8 {
        for file in 0..8 {
            if let Some((piece, color)) = start.occupant_at(at(rank, file)) {
                grid[rank][file] = Square::Occupied(piece, color);
            }
        }
    }
    grid[1][1] = Square::Empty;
    let mut board = Board::from_squares(grid);
    assert_eq!(moves_of(&board, 0, 2), vec![(1, 1), (2, 0)]);
    assert_eq!(board.make_move(at(0, 2), at(4, 2)), Ok(()));
    assert_eq!(
        moves_of(&board, 4, 2),
        ordered(vec![(5, 3), (6, 4), (5, 1), (6, 0), (3, 3), (2, 4), (3, 1), (2, 0)])
    );
}

#[test]
fn rook_on_an_empty_board_has_fourteen_destinations() {
    let board = board_with(&[((3, 3), Piece::Rook, Color::Black)]);
    let moves = moves_of(&board, 3, 3);
    assert_eq!(moves.len(), 14);
    let mut expected = Vec::new();
    for i in 0..8 {
        if i != 3 {
            expected.push((3, i));
            expected.push((i, 3));
        }
    }
    assert_eq!(moves, ordered(expected));
}

#[test]
fn rook_stops_on_a_foe_and_before_a_friend() {
    let board = board_with(&[
        ((0, 0), Piece::Rook, Color::White),
        ((0, 3), Piece::Knight, Color::Black),
        ((2, 0), Piece::Pawn, Color::White),
    ]);
    assert_eq!(moves_of(&board, 0, 0), vec![(0, 1), (0, 2), (0, 3), (1, 0)]);
}

#[test]
fn rook_at_the_start_cannot_move() {
    let board = Board::new();
    assert_eq!(moves_of(&board, 0, 0), vec![]);
    assert_eq!(moves_of(&board, 7, 7), vec![]);
}

#[test]
fn queen_on_an_empty_board_joins_bishop_and_rook() {
    let queen = board_with(&[((3, 3), Piece::Queen, Color::White)]);
    let bishop = board_with(&[((3, 3), Piece::Bishop, Color::White)]);
    let rook = board_with(&[((3, 3), Piece::Rook, Color::White)]);
    let moves = moves_of(&queen, 3, 3);
    assert_eq!(moves.len(), 27);
    let mut joined = moves_of(&bishop, 3, 3);
    joined.extend(moves_of(&rook, 3, 3));
    assert_eq!(moves, ordered(joined));
}

#[test]
fn queen_stops_at_the_first_piece_on_each_ray() {
    let board = board_with(&[
        ((0, 0), Piece::Queen, Color::Black),
        ((0, 2), Piece::Pawn, Color::White),
        ((3, 0), Piece::Pawn, Color::Black),
        ((2, 2), Piece::Pawn, Color::White),
        ((3, 3), Piece::Pawn, Color::White),
    ]);
    assert_eq!(
        moves_of(&board, 0, 0),
        ordered(vec![(0, 1), (0, 2), (1, 0), (2, 0), (1, 1), (2, 2)])
    );
}

#[test]
fn queen_at_the_start_cannot_move() {
    let board = Board::new();
    assert_eq!(moves_of(&board, 0, 3), vec![]);
}

#[test]
fn king_in_the_middle_steps_to_all_eight_neighbours() {
    let board = board_with(&[((4, 4), Piece::King, Color::White)]);
    assert_eq!(
        moves_of(&board, 4, 4),
        vec![(3, 3), (3, 4), (3, 5), (4, 3), (4, 5), (5, 3), (5, 4), (5, 5)]
    );
}

#[test]
fn king_in_the_corner_has_three_destinations() {
    let board = board_with(&[((7, 0), Piece::King, Color::Black)]);
    assert_eq!(moves_of(&board, 7, 0), vec![(6, 0), (6, 1), (7, 1)]);
}

#[test]
fn king_takes_foes_but_not_friends() {
    let board = board_with(&[
        ((0, 4), Piece::King, Color::White),
        ((0, 3), Piece::Queen, Color::White),
        ((1, 4), Piece::Pawn, Color::Black),
        ((1, 5), Piece::Pawn, Color::White),
    ]);
    assert_eq!(moves_of(&board, 0, 4), vec![(0, 5), (1, 3), (1, 4)]);
}

#[test]
fn king_does_not_castle() {
    let board = board_with(&[
        ((0, 4), Piece::King, Color::White),
        ((0, 0), Piece::Rook, Color::White),
        ((0, 7), Piece::Rook, Color::White),
    ]);
    assert_eq!(moves_of(&board, 0, 4), vec![(0, 3), (0, 5), (1, 3), (1, 4), (1, 5)]);
}

#[test]
fn pawn_on_its_starting_rank_may_advance_one_or_two() {
    let board = board_with(&[((1, 4), Piece::Pawn, Color::White)]);
    assert_eq!(moves_of(&board, 1, 4), vec![(2, 4), (3, 4)]);
    let board = board_with(&[((6, 4), Piece::Pawn, Color::Black)]);
    assert_eq!(moves_of(&board, 6, 4), vec![(4, 4), (5, 4)]);
}

#[test]
fn pawn_at_the_start_of_a_game_may_advance_one_or_two() {
    let board = Board::new();
    for file in 0..8 {
        assert_eq!(moves_of(&board, 1, file), vec![(2, file), (3, file)]);
        assert_eq!(moves_of(&board, 6, file), vec![(4, file), (5, file)]);
    }
}

#[test]
fn pawn_blocked_directly_ahead_by_a_foe_cannot_advance_at_all() {
    let board = board_with(&[
        ((1, 4), Piece::Pawn, Color::White),
        ((2, 4), Piece::Knight, Color::Black),
    ]);
    assert_eq!(moves_of(&board, 1, 4), vec![]);
}

#[test]
fn pawn_blocked_directly_ahead_by_a_friend_cannot_advance_at_all() {
    let board = board_with(&[
        ((1, 4), Piece::Pawn, Color::White),
        ((2, 4), Piece::Knight, Color::White),
    ]);
    assert_eq!(moves_of(&board, 1, 4), vec![]);
    let board = board_with(&[
        ((6, 2), Piece::Pawn, Color::Black),
        ((5, 2), Piece::Bishop, Color::Black),
    ]);
    assert_eq!(moves_of(&board, 6, 2), vec![]);
}

#[test]
fn pawn_with_the_second_square_taken_advances_one_only() {
    let board = board_with(&[
        ((1, 4), Piece::Pawn, Color::White),
        ((3, 4), Piece::Pawn, Color::Black),
    ]);
    assert_eq!(moves_of(&board, 1, 4), vec![(2, 4)]);
}

#[test]
fn pawn_off_its_starting_rank_advances_one_only() {
    let board = board_with(&[((2, 4), Piece::Pawn, Color::White)]);
    assert_eq!(moves_of(&board, 2, 4), vec![(3, 4)]);
    let board = board_with(&[((5, 4), Piece::Pawn, Color::Black)]);
    assert_eq!(moves_of(&board, 5, 4), vec![(4, 4)]);
    let board = board_with(&[((6, 4), Piece::Pawn, Color::White)]);
    assert_eq!(moves_of(&board, 6, 4), vec![(7, 4)]);
    let board = board_with(&[((1, 4), Piece::Pawn, Color::Black)]);
    assert_eq!(moves_of(&board, 1, 4), vec![(0, 4)]);
}

#[test]
fn pawn_takes_a_foe_on_either_diagonal() {
    let board = board_with(&[
        ((3, 3), Piece::Pawn, Color::White),
        ((4, 2), Piece::Knight, Color::Black),
        ((4, 4), Piece::Rook, Color::Black),
    ]);
    assert_eq!(moves_of(&board, 3, 3), vec![(4, 2), (4, 3), (4, 4)]);
    let board = board_with(&[
        ((4, 3), Piece::Pawn, Color::Black),
        ((3, 2), Piece::Knight, Color::White),
        ((3, 4), Piece::Rook, Color::White),
    ]);
    assert_eq!(moves_of(&board, 4, 3), vec![(3, 2), (3, 3), (3, 4)]);
}

#[test]
fn pawn_does_not_move_to_an_empty_diagonal() {
    let board = board_with(&[((3, 3), Piece::Pawn, Color::White)]);
    let moves = moves_of(&board, 3, 3);
    assert!(!moves.contains(&(4, 2)));
    assert!(!moves.contains(&(4, 4)));
    assert_eq!(moves, vec![(4, 3)]);
}

#[test]
fn pawn_does_not_take_a_friend_on_a_diagonal() {
    let board = board_with(&[
        ((3, 3), Piece::Pawn, Color::White),
        ((4, 2), Piece::Knight, Color::White),
        ((4, 4), Piece::Rook, Color::Black),
    ]);
    assert_eq!(moves_of(&board, 3, 3), vec![(4, 3), (4, 4)]);
}

#[test]
fn pawn_does_not_take_straight_ahead() {
    let board = board_with(&[
        ((3, 3), Piece::Pawn, Color::White),
        ((4, 3), Piece::Queen, Color::Black),
    ]);
    assert_eq!(moves_of(&board, 3, 3), vec![]);
}

#[test]
fn pawn_does_not_take_backwards_or_sideways() {
    let board = board_with(&[
        ((3, 3), Piece::Pawn, Color::White),
        ((2, 2), Piece::Knight, Color::Black),
        ((2, 4), Piece::Knight, Color::Black),
        ((3, 2), Piece::Knight, Color::Black),
        ((3, 4), Piece::Knight, Color::Black),
        ((2, 3), Piece::Knight, Color::Black),
    ]);
    assert_eq!(moves_of(&board, 3, 3), vec![(4, 3)]);
}

#[test]
fn pawn_on_the_last_rank_has_no_destination() {
    let board = board_with(&[
        ((7, 3), Piece::Pawn, Color::White),
        ((0, 4), Piece::Pawn, Color::Black),
    ]);
    assert_eq!(moves_of(&board, 7, 3), vec![]);
    assert_eq!(moves_of(&board, 0, 4), vec![]);
}

#[test]
fn pawn_on_the_edge_file_takes_on_the_board_only() {
    let board = board_with(&[
        ((3, 0), Piece::Pawn, Color::White),
        ((4, 1), Piece::Pawn, Color::Black),
        ((3, 7), Piece::Pawn, Color::Black),
        ((2, 6), Piece::Pawn, Color::White),
    ]);
    assert_eq!(moves_of(&board, 3, 0), vec![(4, 0), (4, 1)]);
    assert_eq!(moves_of(&board, 3, 7), vec![(2, 6), (2, 7)]);
}

#[test]
fn no_destination_is_listed_twice() {
    let board = Board::new();
    let mut crowded = board_with(&[
        ((3, 3), Piece::Queen, Color::White),
        ((5, 5), Piece::Pawn, Color::Black),
        ((3, 6), Piece::Pawn, Color::White),
        ((1, 3), Piece::Knight, Color::Black),
    ]);
    for b in [&board, &crowded.clone()] {
        for rank in 0..8 {
            for file in 0..8 {
                if b.get_piece(at(rank, file)).is_some() {
                    let moves = moves_of(b, rank, file);
                    let mut unique = moves.clone();
                    unique.dedup();
                    assert_eq!(moves, unique);
                }
            }
        }
    }
    assert_eq!(crowded.make_move(at(3, 3), at(5, 5)), Ok(()));
}

#[test]
fn destinations_are_on_the_board_and_never_hold_a_friend() {
    let board = board_with(&[
        ((3, 3), Piece::Queen, Color::White),
        ((5, 5), Piece::Pawn, Color::Black),
        ((3, 6), Piece::Pawn, Color::White),
        ((1, 3), Piece::Knight, Color::Black),
        ((0, 0), Piece::King, Color::White),
        ((7, 7), Piece::Rook, Color::Black),
        ((6, 1), Piece::Bishop, Color::Black),
        ((1, 1), Piece::Pawn, Color::White),
    ]);
    for rank in 0..8 {
        for file in 0..8 {
            if let Some((_, color)) = board.occupant_at(at(rank, file)) {
                for (r, f) in moves_of(&board, rank, file) {
                    assert!(r < 8 && f < 8);
                    assert!((r, f) != (rank, file));
                    if let Some((_, owner)) = board.occupant_at(at(r, f)) {
                        assert_ne!(owner, color);
                    }
                }
            }
        }
    }
}

#[test]
fn generation_leaves_the_board_as_it_was() {
    let board = Board::new();
    let before = board.clone();
    let _ = moves_of(&board, 0, 1);
    let _ = moves_of(&board, 6, 3);
    assert_eq!(board, before);
}

#[test]
fn guarded_generation_agrees_with_the_plain_one() {
    let board = Board::new();
    let moves = legal_destinations(Piece::Knight, Color::White, at(0, 1), &board).unwrap();
    assert_eq!(sorted(moves), vec![(2, 0), (2, 2)]);
    let moves = legal_destinations(Piece::Pawn, Color::Black, at(6, 7), &board).unwrap();
    assert_eq!(sorted(moves), vec![(4, 7), (5, 7)]);
}

#[test]
fn guarded_generation_refuses_an_empty_origin() {
    let board = Board::new();
    assert_eq!(
        legal_destinations(Piece::Knight, Color::White, at(4, 4), &board),
        Err(MoveError::OriginMismatch)
    );
}

#[test]
fn guarded_generation_refuses_another_piece() {
    let board = Board::new();
    assert_eq!(
        legal_destinations(Piece::Bishop, Color::White, at(0, 1), &board),
        Err(MoveError::OriginMismatch)
    );
}

#[test]
fn guarded_generation_refuses_the_other_side() {
    let board = Board::new();
    assert_eq!(
        legal_destinations(Piece::Knight, Color::Black, at(0, 1), &board),
        Err(MoveError::OriginMismatch)
    );
}
