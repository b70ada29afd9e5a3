//! What holds of every position and of every piece: facts that follow from
//! the rules of movement and of capture, each proved once for all inputs.

use vstd::prelude::*;
use crate::coordinate::{
    delta, heading, in_range, is_direction, is_knight_leap, lemma_straight_decomposes,
    lemma_toward_is_straight, shifted, span, toward,
};
use crate::moves::{destinations, is_destination, on_ray, path_clear, ray_open};
use crate::piece::{Color, Piece};
use crate::position::Position;

verus! {

/// Whether `piece` slides, and `dir` is a direction it slides in: the
/// diagonals for a bishop, the ranks and files for a rook, all eight for a
/// queen.
pub open spec fn slides_in(piece: Piece, dir: (int, int)) -> bool {
    is_direction(dir) && match piece {
        Piece::Bishop => dir.0 != 0 && dir.1 != 0,
        Piece::Rook => dir.0 == 0 || dir.1 == 0,
        Piece::Queen => true,
        _ => false,
    }
}

/// Whether `origin` is the only occupied square.
pub open spec fn stands_alone(position: Position, origin: (int, int)) -> bool {
    forall|at: (int, int)| at != origin ==> position.is_empty(at)
}

/// In the starting layout each side's pawns fill the row in front of its
/// home row, the rooks stand in the corners, the kings and queens face each
/// other, the four middle rows are empty, and Black's side mirrors White's.
pub proof fn lemma_standard_layout()
    ensures
        Position::standard().wf(),
        forall|file: int|
            0 <= file < 8 ==> Position::standard().occupant((1, file)) == Some(
                (Piece::Pawn, Color::White),
            ),
        forall|file: int|
            0 <= file < 8 ==> Position::standard().occupant((6, file)) == Some(
                (Piece::Pawn, Color::Black),
            ),
        forall|rank: int, file: int|
            2 <= rank < 6 ==> Position::standard().occupant((rank, file)) is None,
        Position::standard().occupant((0, 0)) == Some((Piece::Rook, Color::White)),
        Position::standard().occupant((0, 7)) == Some((Piece::Rook, Color::White)),
        Position::standard().occupant((7, 0)) == Some((Piece::Rook, Color::Black)),
        Position::standard().occupant((7, 7)) == Some((Piece::Rook, Color::Black)),
        Position::standard().occupant((0, 3)) == Some((Piece::Queen, Color::White)),
        Position::standard().occupant((0, 4)) == Some((Piece::King, Color::White)),
        Position::standard().occupant((7, 3)) == Some((Piece::Queen, Color::Black)),
        Position::standard().occupant((7, 4)) == Some((Piece::King, Color::Black)),
        forall|rank: int, file: int|
            in_range((rank, file)) ==> (#[trigger] Position::standard().occupant((rank, file))
                matches Some((piece, color)) ==> Position::standard().occupant((7 - rank, file))
                == Some((piece, color.opponent()))),
        Position::standard().score(Color::White) == 0,
        Position::standard().score(Color::Black) == 0,
{
}

/// Whatever the piece and whatever the position, a destination is a square
/// of the board other than the origin, and no piece of the mover's own side
/// stands on it.
pub proof fn lemma_destination_is_open(
    position: Position,
    piece: Piece,
    color: Color,
    origin: (int, int),
    target: (int, int),
)
    requires
        is_destination(position, piece, color, origin, target),
    ensures
        in_range(target),
        target != origin,
        !position.holds_friend(target, color),
{
}

/// A queen goes wherever a bishop or a rook on her square would go, and
/// nowhere else.
pub proof fn lemma_queen_joins_bishop_and_rook(
    position: Position,
    color: Color,
    origin: (int, int),
)
    ensures
        destinations(position, Piece::Queen, color, origin) == destinations(
            position,
            Piece::Bishop,
            color,
            origin,
        ).union(destinations(position, Piece::Rook, color, origin)),
{
    assert(destinations(position, Piece::Queen, color, origin) =~= destinations(
        position,
        Piece::Bishop,
        color,
        origin,
    ).union(destinations(position, Piece::Rook, color, origin)));
}

/// Every destination of a knight lies a knight's leap from its origin, and
/// a leap is a destination exactly where it stays on the board and does not
/// land on a piece of the knight's own side.
pub proof fn lemma_knight_leaps(
    position: Position,
    color: Color,
    origin: (int, int),
    target: (int, int),
)
    ensures
        is_destination(position, Piece::Knight, color, origin, target) <==> is_knight_leap(
            delta(origin, target),
        ) && in_range(target) && !position.holds_friend(target, color),
{
}

/// A knight that stands alone, at least two squares from every edge, has
/// exactly eight destinations.
pub proof fn lemma_lone_knight_in_the_middle(position: Position, color: Color, origin: (int, int))
    requires
        stands_alone(position, origin),
        2 <= origin.0 <= 5,
        2 <= origin.1 <= 5,
    ensures
        destinations(position, Piece::Knight, color, origin).finite(),
        destinations(position, Piece::Knight, color, origin).len() == 8,
{
    let leaps = set![
        shifted(origin, (2, 1)),
        shifted(origin, (2, -1)),
        shifted(origin, (-2, 1)),
        shifted(origin, (-2, -1)),
        shifted(origin, (1, 2)),
        shifted(origin, (1, -2)),
        shifted(origin, (-1, 2)),
        shifted(origin, (-1, -2)),
    ];
    assert forall|target: (int, int)|
        destinations(position, Piece::Knight, color, origin).contains(target)
            <==> leaps.contains(target) by {
        if target != origin {
            assert(position.is_empty(target));
        }
    }
    assert(destinations(position, Piece::Knight, color, origin) =~= leaps);
}

/// A knight that stands alone in a corner has exactly two destinations.
pub proof fn lemma_lone_knight_in_a_corner(position: Position, color: Color, origin: (int, int))
    requires
        stands_alone(position, origin),
        origin.0 == 0 || origin.0 == 7,
        origin.1 == 0 || origin.1 == 7,
    ensures
        destinations(position, Piece::Knight, color, origin).finite(),
        destinations(position, Piece::Knight, color, origin).len() == 2,
{
    let inward = (if origin.0 == 0 { 1int } else { -1int }, if origin.1 == 0 { 1int } else { -1int });
    let leaps = set![
        shifted(origin, (2 * inward.0, inward.1)),
        shifted(origin, (inward.0, 2 * inward.1)),
    ];
    assert forall|target: (int, int)|
        destinations(position, Piece::Knight, color, origin).contains(target)
            <==> leaps.contains(target) by {
        if target != origin {
            assert(position.is_empty(target));
        }
    }
    assert(destinations(position, Piece::Knight, color, origin) =~= leaps);
}

/// A sliding piece stops at the first occupied square of a ray. Where the
/// first `steps - 1` squares of the ray are empty and the next one is
/// occupied, the piece may go to each of the empty squares; to the occupied
/// one exactly where it holds a foe; and to no square beyond it.
pub proof fn lemma_ray_stops_at_first_occupant(
    position: Position,
    piece: Piece,
    color: Color,
    origin: (int, int),
    dir: (int, int),
    steps: int,
)
    requires
        in_range(origin),
        slides_in(piece, dir),
        steps >= 1,
        ray_open(position, origin, dir, steps),
        in_range(toward(origin, dir, steps)),
        !position.is_empty(toward(origin, dir, steps)),
    ensures
        forall|near: int|
            1 <= near < steps ==> is_destination(
                position,
                piece,
                color,
                origin,
                #[trigger] toward(origin, dir, near),
            ),
        is_destination(position, piece, color, origin, toward(origin, dir, steps))
            <==> position.holds_foe(toward(origin, dir, steps), color),
        forall|far: int|
            far > steps ==> !is_destination(
                position,
                piece,
                color,
                origin,
                #[trigger] toward(origin, dir, far),
            ),
{
    assert forall|reach: int| reach >= 1 implies {
        let target = #[trigger] toward(origin, dir, reach);
        &&& reach <= steps ==> path_clear(position, origin, target)
        &&& reach > steps ==> !path_clear(position, origin, target)
        &&& on_ray(origin, dir, target)
        &&& span(delta(origin, target)) == reach
    } by {
        lemma_toward_is_straight(origin, dir, reach);
        if reach <= steps {
            assert forall|j: int| 1 <= j < reach implies position.is_empty(
                #[trigger] toward(origin, dir, j),
            ) by {}
        }
    }
    assert forall|near: int| 1 <= near < steps implies is_destination(
        position,
        piece,
        color,
        origin,
        #[trigger] toward(origin, dir, near),
    ) by {
        lemma_toward_is_straight(origin, dir, near);
    }
    lemma_toward_is_straight(origin, dir, steps);
    assert forall|far: int| far > steps implies !is_destination(
        position,
        piece,
        color,
        origin,
        #[trigger] toward(origin, dir, far),
    ) by {
        lemma_toward_is_straight(origin, dir, far);
    }
}

/// On a ray with no occupied square, a sliding piece may go to every square
/// up to the edge of the board.
pub proof fn lemma_open_ray_runs_to_the_edge(
    position: Position,
    piece: Piece,
    color: Color,
    origin: (int, int),
    dir: (int, int),
    steps: int,
)
    requires
        in_range(origin),
        slides_in(piece, dir),
        steps >= 1,
        ray_open(position, origin, dir, steps + 1),
    ensures
        is_destination(position, piece, color, origin, toward(origin, dir, steps)),
{
    lemma_toward_is_straight(origin, dir, steps);
    assert forall|j: int| 1 <= j < steps implies position.is_empty(
        #[trigger] toward(origin, dir, j),
    ) by {}
}

/// Every destination of a sliding piece lies on one of its rays, with
/// nothing but empty squares before it.
pub proof fn lemma_slide_follows_a_ray(
    position: Position,
    piece: Piece,
    color: Color,
    origin: (int, int),
    target: (int, int),
)
    requires
        piece == Piece::Bishop || piece == Piece::Rook || piece == Piece::Queen,
        in_range(origin),
        is_destination(position, piece, color, origin, target),
    ensures
        exists|dir: (int, int), steps: int|
            slides_in(piece, dir) && steps >= 1 && target == toward(origin, dir, steps) && ray_open(
                position,
                origin,
                dir,
                steps,
            ),
{
    let d = delta(origin, target);
    let dir = heading(d);
    let steps = span(d);
    lemma_straight_decomposes(origin, target);
    assert forall|j: int| 1 <= j < steps implies in_range(#[trigger] toward(origin, dir, j))
        && position.is_empty(toward(origin, dir, j)) by {}
    assert(slides_in(piece, dir) && steps >= 1 && target == toward(origin, dir, steps) && ray_open(
        position,
        origin,
        dir,
        steps,
    ));
}

/// A pawn goes one square straight ahead exactly where that square is on
/// the board and empty, and two squares straight ahead exactly where it
/// stands on its starting rank and both squares are empty. An occupied
/// square directly ahead, whichever side holds it, bars both.
pub proof fn lemma_pawn_advances(position: Position, color: Color, origin: (int, int))
    requires
        in_range(origin),
    ensures
        is_destination(
            position,
            Piece::Pawn,
            color,
            origin,
            shifted(origin, (color.forward(), 0)),
        ) <==> in_range(shifted(origin, (color.forward(), 0))) && position.is_empty(
            shifted(origin, (color.forward(), 0)),
        ),
        is_destination(
            position,
            Piece::Pawn,
            color,
            origin,
            shifted(origin, (2 * color.forward(), 0)),
        ) <==> origin.0 == color.pawn_rank() && position.is_empty(
            shifted(origin, (color.forward(), 0)),
        ) && position.is_empty(shifted(origin, (2 * color.forward(), 0))),
        !position.is_empty(shifted(origin, (color.forward(), 0))) ==> !is_destination(
            position,
            Piece::Pawn,
            color,
            origin,
            shifted(origin, (color.forward(), 0)),
        ) && !is_destination(
            position,
            Piece::Pawn,
            color,
            origin,
            shifted(origin, (2 * color.forward(), 0)),
        ),
{
}

/// A pawn goes one square diagonally ahead exactly where that square is on
/// the board and holds a foe: never onto an empty square, never onto a
/// piece of its own side.
pub proof fn lemma_pawn_captures(
    position: Position,
    color: Color,
    origin: (int, int),
    files: int,
)
    requires
        files == 1 || files == -1,
    ensures
        is_destination(
            position,
            Piece::Pawn,
            color,
            origin,
            shifted(origin, (color.forward(), files)),
        ) <==> in_range(shifted(origin, (color.forward(), files))) && position.holds_foe(
            shifted(origin, (color.forward(), files)),
            color,
        ),
{
}

/// A pawn has no destination but the two squares straight ahead and the two
/// diagonally ahead.
pub proof fn lemma_pawn_goes_nowhere_else(
    position: Position,
    color: Color,
    origin: (int, int),
    target: (int, int),
)
    requires
        is_destination(position, Piece::Pawn, color, origin, target),
    ensures
        target == shifted(origin, (color.forward(), 0)) || target == shifted(
            origin,
            (2 * color.forward(), 0),
        ) || target == shifted(origin, (color.forward(), 1)) || target == shifted(
            origin,
            (color.forward(), -1),
        ),
{
}

/// A relocation to another square sets the mover down on the destination,
/// empties the origin and leaves every other square as it was. The mover's
/// side gains the value of what stood on the destination.
pub proof fn lemma_relocate_moves_one_piece(position: Position, from: (int, int), to: (int, int))
    requires
        position.pieces.contains_key(from),
        from != to,
    ensures
        position.relocate(from, to).occupant(to) == position.occupant(from),
        position.relocate(from, to).occupant(from) is None,
        forall|at: (int, int)|
            at != from && at != to ==> position.relocate(from, to).occupant(at)
                == position.occupant(at),
        position.relocate(from, to).score(position.pieces[from].1) == position.score(
            position.pieces[from].1,
        ) + position.value_at(to),
        position.relocate(from, to).score(position.pieces[from].1.opponent()) == position.score(
            position.pieces[from].1.opponent(),
        ),
{
}

} // verus!
