//! The move generator: the squares a piece may go to, by the geometry of
//! its kind and by what stands in its way.

use vstd::prelude::*;
use vstd::seq_lib::lemma_seq_contains_after_push;
use crate::board::Board;
use crate::coordinate::{
    delta, heading, in_range, is_diagonal, is_direction, is_king_step, is_knight_leap,
    is_orthogonal, is_straight, lemma_straight_decomposes, lemma_toward_is_straight, magnitude,
    shifted, span, toward, Coordinate,
};
use crate::error::MoveError;
use crate::piece::{Color, Piece};
use crate::position::Position;

verus! {

/// Whether every square strictly between `origin` and `target`, along the
/// straight line that joins them, is empty.
pub open spec fn path_clear(position: Position, origin: (int, int), target: (int, int)) -> bool {
    forall|steps: int|
        1 <= steps < span(delta(origin, target)) ==> position.is_empty(
            #[trigger] toward(origin, heading(delta(origin, target)), steps),
        )
}

/// Whether a sliding piece of `color` on `origin` reaches `target` along
/// the line that joins them: nothing stands in between, and `target` is
/// empty or holds a foe.
pub open spec fn slides_to(
    position: Position,
    color: Color,
    origin: (int, int),
    target: (int, int),
) -> bool {
    path_clear(position, origin, target) && !position.holds_friend(target, color)
}

/// Whether a pawn of `color` on `origin` may go to `target`: one square
/// straight ahead onto an empty square; two squares straight ahead from its
/// starting rank where both squares are empty; or one square diagonally
/// ahead onto a foe.
pub open spec fn pawn_reaches(
    position: Position,
    color: Color,
    origin: (int, int),
    target: (int, int),
) -> bool {
    let d = delta(origin, target);
    let ahead = shifted(origin, (color.forward(), 0));
    ||| d == (color.forward(), 0int) && position.is_empty(target)
    ||| d == (2 * color.forward(), 0int) && origin.0 == color.pawn_rank() && position.is_empty(
        ahead,
    ) && position.is_empty(target)
    ||| d.0 == color.forward() && magnitude(d.1) == 1 && position.holds_foe(target, color)
}

/// Whether `piece` of `color`, standing on `origin`, may go to `target`.
pub open spec fn is_destination(
    position: Position,
    piece: Piece,
    color: Color,
    origin: (int, int),
    target: (int, int),
) -> bool {
    let d = delta(origin, target);
    in_range(target) && match piece {
        Piece::Pawn => pawn_reaches(position, color, origin, target),
        Piece::Knight => is_knight_leap(d) && !position.holds_friend(target, color),
        Piece::King => is_king_step(d) && !position.holds_friend(target, color),
        Piece::Bishop => is_diagonal(d) && slides_to(position, color, origin, target),
        Piece::Rook => is_orthogonal(d) && slides_to(position, color, origin, target),
        Piece::Queen => is_straight(d) && slides_to(position, color, origin, target),
    }
}

/// The set of squares that `piece` of `color`, standing on `origin`, may go
/// to.
pub open spec fn destinations(
    position: Position,
    piece: Piece,
    color: Color,
    origin: (int, int),
) -> Set<(int, int)> {
    Set::new(|target: (int, int)| is_destination(position, piece, color, origin, target))
}

/// The squares that a list of coordinates names, in the list's order.
pub open spec fn places(moves: Seq<Coordinate>) -> Seq<(int, int)> {
    moves.map_values(|c: Coordinate| c@)
}

/// Whether `target` lies on the ray that leaves `origin` in direction `dir`.
pub open spec fn on_ray(origin: (int, int), dir: (int, int), target: (int, int)) -> bool {
    is_straight(delta(origin, target)) && heading(delta(origin, target)) == dir
}

/// Whether the first `steps - 1` squares of the ray that leaves `origin` in
/// direction `dir` are on the board and empty.
pub open spec fn ray_open(
    position: Position,
    origin: (int, int),
    dir: (int, int),
    steps: int,
) -> bool {
    forall|j: int|
        1 <= j < steps ==> in_range(#[trigger] toward(origin, dir, j)) && position.is_empty(
            toward(origin, dir, j),
        )
}

proof fn lemma_places_push(moves: Seq<Coordinate>, at: Coordinate)
    ensures
        places(moves.push(at)) == places(moves).push(at@),
        forall|t: (int, int)| #[trigger]
            places(moves.push(at)).contains(t) <==> places(moves).contains(t) || t == at@,
        places(moves).no_duplicates() && !places(moves).contains(at@) ==> places(
            moves.push(at),
        ).no_duplicates(),
{
    assert(places(moves.push(at)) =~= places(moves).push(at@));
    assert forall|t: (int, int)| #[trigger]
        places(moves.push(at)).contains(t) <==> places(moves).contains(t) || t == at@ by {
        lemma_seq_contains_after_push(places(moves), at@, t);
    }
    if places(moves).no_duplicates() && !places(moves).contains(at@) {
        let after = places(moves).push(at@);
        assert forall|i: int, j: int|
            0 <= i < after.len() && 0 <= j < after.len() && i != j implies after[i] != after[j] by {
            if j < places(moves).len() {
                assert(places(moves).contains(after[j]));
            }
        }
    }
}

/// Where the ray leaves the board after `steps - 1` empty squares, it
/// reaches exactly those squares.
proof fn lemma_ray_leaves_board(
    position: Position,
    color: Color,
    origin: (int, int),
    dir: (int, int),
    steps: int,
)
    requires
        in_range(origin),
        is_direction(dir),
        steps >= 1,
        ray_open(position, origin, dir, steps),
        !in_range(toward(origin, dir, steps)),
    ensures
        forall|t: (int, int)|
            in_range(t) && on_ray(origin, dir, t) && slides_to(position, color, origin, t) <==> on_ray(
                origin,
                dir,
                t,
            ) && span(delta(origin, t)) < steps,
{
    assert forall|t: (int, int)|
        in_range(t) && on_ray(origin, dir, t) && slides_to(position, color, origin, t) <==> on_ray(
            origin,
            dir,
            t,
        ) && span(delta(origin, t)) < steps by {
        if on_ray(origin, dir, t) {
            lemma_straight_decomposes(origin, t);
        }
    }
}

/// Where the ray meets its first occupied square after `steps - 1` empty
/// ones, it reaches those squares, and the occupied one where that holds a
/// foe.
proof fn lemma_ray_blocked(
    position: Position,
    color: Color,
    origin: (int, int),
    dir: (int, int),
    steps: int,
)
    requires
        in_range(origin),
        is_direction(dir),
        steps >= 1,
        ray_open(position, origin, dir, steps),
        in_range(toward(origin, dir, steps)),
        !position.is_empty(toward(origin, dir, steps)),
    ensures
        forall|t: (int, int)|
            in_range(t) && on_ray(origin, dir, t) && slides_to(position, color, origin, t) <==> (
            on_ray(origin, dir, t) && span(delta(origin, t)) < steps) || (t == toward(
                origin,
                dir,
                steps,
            ) && position.holds_foe(t, color)),
{
    let block = toward(origin, dir, steps);
    lemma_toward_is_straight(origin, dir, steps);
    assert forall|t: (int, int)|
        in_range(t) && on_ray(origin, dir, t) && slides_to(position, color, origin, t) <==> (on_ray(
            origin,
            dir,
            t,
        ) && span(delta(origin, t)) < steps) || (t == block && position.holds_foe(t, color)) by {
        if on_ray(origin, dir, t) {
            lemma_straight_decomposes(origin, t);
        }
    }
}

/// Appends `at` to the list.
fn record(moves: &mut Vec<Coordinate>, at: Coordinate)
    requires
        places(old(moves)@).no_duplicates(),
        !places(old(moves)@).contains(at@),
    ensures
        places(final(moves)@).no_duplicates(),
        forall|t: (int, int)| #[trigger]
            places(final(moves)@).contains(t) <==> places(old(moves)@).contains(t) || t == at@,
{
    proof {
        lemma_places_push(moves@, at);
    }
    moves.push(at);
}

/// Appends the square that lies `ranks` and `files` from `origin`, where it
/// is on the board and does not hold a piece of `color`.
fn try_step(
    board: &Board,
    color: Color,
    origin: Coordinate,
    ranks: i8,
    files: i8,
    moves: &mut Vec<Coordinate>,
)
    requires
        places(old(moves)@).no_duplicates(),
        !places(old(moves)@).contains(shifted(origin@, (ranks as int, files as int))),
    ensures
        places(final(moves)@).no_duplicates(),
        forall|t: (int, int)| #[trigger]
            places(final(moves)@).contains(t) <==> places(old(moves)@).contains(t) || (t == shifted(
                origin@,
                (ranks as int, files as int),
            ) && in_range(t) && !board@.holds_friend(t, color)),
{
    if let Some(target) = origin.offset(ranks, files) {
        let open = match board.occupant_at(target) {
            None => true,
            Some((_, owner)) => owner != color,
        };
        if open {
            record(moves, target);
        }
    }
}

/// Appends the square that lies `ranks` and `files` from `origin`, where it
/// is on the board and holds a piece of the side opposing `color`.
fn try_capture(
    board: &Board,
    color: Color,
    origin: Coordinate,
    ranks: i8,
    files: i8,
    moves: &mut Vec<Coordinate>,
)
    requires
        places(old(moves)@).no_duplicates(),
        !places(old(moves)@).contains(shifted(origin@, (ranks as int, files as int))),
    ensures
        places(final(moves)@).no_duplicates(),
        forall|t: (int, int)| #[trigger]
            places(final(moves)@).contains(t) <==> places(old(moves)@).contains(t) || (t == shifted(
                origin@,
                (ranks as int, files as int),
            ) && in_range(t) && board@.holds_foe(t, color)),
{
    if let Some(target) = origin.offset(ranks, files) {
        let foe = match board.occupant_at(target) {
            None => false,
            Some((_, owner)) => owner != color,
        };
        if foe {
            record(moves, target);
        }
    }
}

/// Appends the squares a pawn of `color` on `origin` may go to.
fn pawn_moves(board: &Board, color: Color, origin: Coordinate, moves: &mut Vec<Coordinate>)
    requires
        old(moves)@.len() == 0,
    ensures
        places(final(moves)@).no_duplicates(),
        forall|t: (int, int)| #[trigger]
            places(final(moves)@).contains(t) <==> is_destination(
                board@,
                Piece::Pawn,
                color,
                origin@,
                t,
            ),
{
    let forward: i8 = match color {
        Color::White => 1,
        Color::Black => -1,
    };
    let start: usize = match color {
        Color::White => 1,
        Color::Black => 6,
    };
    let rank = origin.rank();
    if let Some(ahead) = origin.offset(forward, 0) {
        if board.occupant_at(ahead).is_none() {
            record(moves, ahead);
            if rank == start {
                if let Some(far) = origin.offset(2 * forward, 0) {
                    if board.occupant_at(far).is_none() {
                        record(moves, far);
                    }
                }
            }
        }
    }
    try_capture(board, color, origin, forward, 1, moves);
    try_capture(board, color, origin, forward, -1, moves);
}

/// Appends the squares that a sliding piece of `color` on `origin` reaches
/// in the direction given by `ranks` and `files`: each empty square in turn,
/// and the first occupied one where it holds a foe.
fn walk_ray(
    board: &Board,
    color: Color,
    origin: Coordinate,
    ranks: i8,
    files: i8,
    moves: &mut Vec<Coordinate>,
)
    requires
        in_range(origin@),
        is_direction((ranks as int, files as int)),
        places(old(moves)@).no_duplicates(),
        forall|t: (int, int)|
            places(old(moves)@).contains(t) ==> !on_ray(origin@, (ranks as int, files as int), t),
    ensures
        places(final(moves)@).no_duplicates(),
        forall|t: (int, int)| #[trigger]
            places(final(moves)@).contains(t) <==> places(old(moves)@).contains(t) || (in_range(t)
                && on_ray(origin@, (ranks as int, files as int), t) && slides_to(
                board@,
                color,
                origin@,
                t,
            )),
{
    let ghost dir = (ranks as int, files as int);
    let ghost before = places(moves@);
    let ghost mut steps: int = 1;
    let ghost mut done = false;
    let mut next = origin.offset(ranks, files);
    while next.is_some()
        invariant
            in_range(origin@),
            is_direction(dir),
            dir == (ranks as int, files as int),
            before == places(old(moves)@),
            forall|t: (int, int)| before.contains(t) ==> !on_ray(origin@, dir, t),
            places(moves@).no_duplicates(),
            1 <= steps <= 8,
            done ==> next is None,
            done ==> forall|t: (int, int)| #[trigger]
                places(moves@).contains(t) <==> before.contains(t) || (in_range(t) && on_ray(
                    origin@,
                    dir,
                    t,
                ) && slides_to(board@, color, origin@, t)),
            !done ==> ray_open(board@, origin@, dir, steps),
            !done ==> (next is Some <==> in_range(toward(origin@, dir, steps))),
            !done ==> (next matches Some(c) ==> c@ == toward(origin@, dir, steps)),
            !done ==> forall|t: (int, int)| #[trigger]
                places(moves@).contains(t) <==> before.contains(t) || (on_ray(origin@, dir, t)
                    && span(delta(origin@, t)) < steps),
        decreases (if done { 0 } else { 9 - steps }),
    {
        let here = next.unwrap();
        proof {
            lemma_toward_is_straight(origin@, dir, steps);
        }
        match board.occupant_at(here) {
            None => {
                record(moves, here);
                next = here.offset(ranks, files);
                proof {
                    assert forall|t: (int, int)| #[trigger]
                        places(moves@).contains(t) <==> before.contains(t) || (on_ray(
                            origin@,
                            dir,
                            t,
                        ) && span(delta(origin@, t)) < steps + 1) by {
                        if on_ray(origin@, dir, t) {
                            lemma_straight_decomposes(origin@, t);
                        }
                    }
                    steps = steps + 1;
                }
            },
            Some((_, owner)) => {
                proof {
                    lemma_ray_blocked(board@, color, origin@, dir, steps);
                }
                if owner != color {
                    record(moves, here);
                }
                next = None;
                proof {
                    done = true;
                }
            },
        }
    }
    proof {
        if !done {
            lemma_ray_leaves_board(board@, color, origin@, dir, steps);
        }
    }
}

/// Returns the squares that `piece`, standing on `position`, may go to.
/// The caller vouches that `piece` is what stands there; its side is read
/// from the board. No square is listed twice, and the order of the list
/// carries no meaning.
pub fn get_legal_moves(piece: Piece, board: &Board, position: Coordinate) -> (moves: Vec<Coordinate>)
    requires
        board@.occupant(position@) matches Some((standing, _)) && standing == piece,
    ensures
        places(moves@).no_duplicates(),
        places(moves@).to_set() == destinations(
            board@,
            piece,
            board@.pieces[position@].1,
            position@,
        ),
        moves@.len() == destinations(board@, piece, board@.pieces[position@].1, position@).len(),
{
    let (_, color) = board.occupant_at(position).unwrap();
    let mut moves: Vec<Coordinate> = Vec::new();
    proof {
        board.lemma_view_wf();
    }
    match piece {
        Piece::Pawn => {
            pawn_moves(board, color, position, &mut moves);
        },
        Piece::Knight => {
            try_step(board, color, position, 2, 1, &mut moves);
            try_step(board, color, position, 2, -1, &mut moves);
            try_step(board, color, position, -2, 1, &mut moves);
            try_step(board, color, position, -2, -1, &mut moves);
            try_step(board, color, position, 1, 2, &mut moves);
            try_step(board, color, position, 1, -2, &mut moves);
            try_step(board, color, position, -1, 2, &mut moves);
            try_step(board, color, position, -1, -2, &mut moves);
        },
        Piece::Bishop => {
            walk_ray(board, color, position, 1, 1, &mut moves);
            walk_ray(board, color, position, -1, 1, &mut moves);
            walk_ray(board, color, position, 1, -1, &mut moves);
            walk_ray(board, color, position, -1, -1, &mut moves);
        },
        Piece::Rook => {
            walk_ray(board, color, position, 1, 0, &mut moves);
            walk_ray(board, color, position, -1, 0, &mut moves);
            walk_ray(board, color, position, 0, 1, &mut moves);
            walk_ray(board, color, position, 0, -1, &mut moves);
        },
        Piece::Queen => {
            walk_ray(board, color, position, 1, 1, &mut moves);
            walk_ray(board, color, position, -1, 1, &mut moves);
            walk_ray(board, color, position, 1, -1, &mut moves);
            walk_ray(board, color, position, -1, -1, &mut moves);
            walk_ray(board, color, position, 1, 0, &mut moves);
            walk_ray(board, color, position, -1, 0, &mut moves);
            walk_ray(board, color, position, 0, 1, &mut moves);
            walk_ray(board, color, position, 0, -1, &mut moves);
        },
        Piece::King => {
            try_step(board, color, position, 1, 0, &mut moves);
            try_step(board, color, position, 1, 1, &mut moves);
            try_step(board, color, position, 1, -1, &mut moves);
            try_step(board, color, position, 0, 1, &mut moves);
            try_step(board, color, position, 0, -1, &mut moves);
            try_step(board, color, position, -1, 0, &mut moves);
            try_step(board, color, position, -1, 1, &mut moves);
            try_step(board, color, position, -1, -1, &mut moves);
        },
    }
    proof {
        places(moves@).unique_seq_to_set();
    }
    moves
}

/// Returns the squares that `piece` of `color`, standing on `origin`, may
/// go to, after making sure that this is what stands there.
///
/// Fails with `OriginMismatch` exactly where `origin` is empty or holds
/// another piece or a piece of the other side.
pub fn legal_destinations(
    piece: Piece,
    color: Color,
    origin: Coordinate,
    board: &Board,
) -> (outcome: Result<Vec<Coordinate>, MoveError>)
    ensures
        board@.occupant(origin@) == Some((piece, color)) <==> outcome is Ok,
        outcome matches Ok(moves) ==> places(moves@).no_duplicates() && places(moves@).to_set()
            == destinations(board@, piece, color, origin@) && moves@.len() == destinations(
            board@,
            piece,
            color,
            origin@,
        ).len(),
        outcome matches Err(error) ==> error == MoveError::OriginMismatch,
{
    match board.occupant_at(origin) {
        Some((standing, owner)) if standing == piece && owner == color => Ok(
            get_legal_moves(piece, board, origin),
        ),
        _ => Err(MoveError::OriginMismatch),
    }
}

} // verus!
