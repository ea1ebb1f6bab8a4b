//! The movement rules as a mathematical specification: for each piece kind,
//! when a square is a pseudo-legal destination for the piece on another
//! square. The move engine is proved against these predicates.

use vstd::prelude::*;
use crate::board::{Board, Color, PieceName, color_index, enemy, on_board};

verus! {

/// The distance between a and b on one axis.
pub open spec fn abs_diff(a: int, b: int) -> int {
    if a >= b {
        a - b
    } else {
        b - a
    }
}

/// The sign of x: 1, -1 or 0.
pub open spec fn sgn(x: int) -> int {
    if x > 0 {
        1
    } else if x < 0 {
        -1
    } else {
        0
    }
}

/// The coordinate reached from a after k unit steps in direction d
/// (d is a sign: 1, -1 or 0).
pub open spec fn step(a: int, d: int, k: int) -> int {
    if d > 0 {
        a + k
    } else if d < 0 {
        a - k
    } else {
        a
    }
}

/// The coordinate reached from a after j unit steps toward b.
pub open spec fn toward(a: int, b: int, j: int) -> int {
    step(a, sgn(b - a), j)
}

/// The number of king steps between two squares: the larger of the two
/// axis distances. Along a rook or bishop line this is the number of
/// squares walked from one to the other.
pub open spec fn chebyshev(r1: int, f1: int, r2: int, f2: int) -> int {
    vstd::math::max(abs_diff(r1, r2), abs_diff(f1, f2))
}

/// Every square strictly between (r1, f1) and (r2, f2) on the straight
/// line from the one toward the other is empty.
pub open spec fn path_clear(b: Board, r1: int, f1: int, r2: int, f2: int) -> bool {
    forall|j: int|
        1 <= j < chebyshev(r1, f1, r2, f2) ==> b.color_at(
            #[trigger] toward(r1, r2, j),
            toward(f1, f2, j),
        ) is Empty
}

/// The two squares differ and share a rank or a file.
pub open spec fn rook_line(r1: int, f1: int, r2: int, f2: int) -> bool {
    (r1 == r2 || f1 == f2) && !(r1 == r2 && f1 == f2)
}

/// The two squares differ and lie on a common diagonal.
pub open spec fn bishop_line(r1: int, f1: int, r2: int, f2: int) -> bool {
    abs_diff(r1, r2) == abs_diff(f1, f2) && r1 != r2
}

/// The two squares differ and share a rank, a file or a diagonal.
pub open spec fn queen_line(r1: int, f1: int, r2: int, f2: int) -> bool {
    rook_line(r1, f1, r2, f2) || bishop_line(r1, f1, r2, f2)
}

/// A sliding piece of color c standing on (r1, f1) may stop on (r2, f2):
/// the square is on the board, nothing stands strictly between, and the
/// square does not hold a piece of the mover's own color.
pub open spec fn slide_stop(b: Board, c: Color, r1: int, f1: int, r2: int, f2: int) -> bool {
    &&& on_board(r2, f2)
    &&& path_clear(b, r1, f1, r2, f2)
    &&& b.color_at(r2, f2) != c
}

/// A queen on (r1, f1) may move to (r2, f2).
pub open spec fn queen_dest(b: Board, c: Color, r1: int, f1: int, r2: int, f2: int) -> bool {
    queen_line(r1, f1, r2, f2) && slide_stop(b, c, r1, f1, r2, f2)
}

/// A rook on (r1, f1) may move to (r2, f2).
pub open spec fn rook_dest(b: Board, c: Color, r1: int, f1: int, r2: int, f2: int) -> bool {
    rook_line(r1, f1, r2, f2) && slide_stop(b, c, r1, f1, r2, f2)
}

/// A bishop on (r1, f1) may move to (r2, f2).
pub open spec fn bishop_dest(b: Board, c: Color, r1: int, f1: int, r2: int, f2: int) -> bool {
    bishop_line(r1, f1, r2, f2) && slide_stop(b, c, r1, f1, r2, f2)
}

/// A king on (r1, f1) may move to (r2, f2): one step in any of the eight
/// directions, onto a square not held by its own color.
pub open spec fn king_dest(b: Board, c: Color, r1: int, f1: int, r2: int, f2: int) -> bool {
    &&& on_board(r2, f2)
    &&& chebyshev(r1, f1, r2, f2) == 1
    &&& b.color_at(r2, f2) != c
}

/// The squares are a knight's jump apart: one axis distance is 1 and the
/// other is 2.
pub open spec fn knight_jump(r1: int, f1: int, r2: int, f2: int) -> bool {
    ||| abs_diff(r1, r2) == 1 && abs_diff(f1, f2) == 2
    ||| abs_diff(r1, r2) == 2 && abs_diff(f1, f2) == 1
}

/// A knight on (r1, f1) may move to (r2, f2): a knight's jump onto a
/// square not held by its own color.
pub open spec fn knight_dest(b: Board, c: Color, r1: int, f1: int, r2: int, f2: int) -> bool {
    &&& on_board(r2, f2)
    &&& knight_jump(r1, f1, r2, f2)
    &&& b.color_at(r2, f2) != c
}

/// The direction a pawn of color c advances in: White toward lower rank
/// indices, Black toward higher ones.
pub open spec fn pawn_dir(c: Color) -> int {
    match c {
        Color::White => -1,
        Color::Black => 1,
        Color::Empty => 0,
    }
}

/// The rank a pawn of color c starts on, from which the double step is
/// allowed.
pub open spec fn pawn_start_rank(c: Color) -> int {
    match c {
        Color::White => 6,
        Color::Black => 1,
        Color::Empty => -1,
    }
}

/// A pawn of color c on (r1, f1) may move to (r2, f2): one step forward
/// onto an empty square; two steps forward from its starting rank when
/// both squares ahead are empty; or one step diagonally forward onto a
/// square held by the opposing color. A pawn without a color has no moves.
pub open spec fn pawn_dest(b: Board, c: Color, r1: int, f1: int, r2: int, f2: int) -> bool {
    c != Color::Empty && {
        let d = pawn_dir(c);
        ||| {
            &&& r2 == r1 + d
            &&& f2 == f1
            &&& on_board(r2, f2)
            &&& b.color_at(r2, f2) is Empty
        }
        ||| {
            &&& r1 == pawn_start_rank(c)
            &&& r2 == r1 + d + d
            &&& f2 == f1
            &&& on_board(r2, f2)
            &&& b.color_at(r1 + d, f1) is Empty
            &&& b.color_at(r2, f2) is Empty
        }
        ||| {
            &&& r2 == r1 + d
            &&& abs_diff(f1, f2) == 1
            &&& on_board(r2, f2)
            &&& b.color_at(r2, f2) == enemy(c)
        }
    }
}

/// A single fixed jump: (r2, f2) is the square (dr, df) away from
/// (r1, f1), lies on the board, and is not held by the mover's color.
/// King and knight moves are unions of these over their offset sets.
pub open spec fn offset_dest(
    b: Board,
    c: Color,
    r1: int,
    f1: int,
    dr: int,
    df: int,
    r2: int,
    f2: int,
) -> bool {
    &&& r2 == r1 + dr
    &&& f2 == f1 + df
    &&& on_board(r2, f2)
    &&& b.color_at(r2, f2) != c
}

/// A unit direction for a sliding ray: each component is a sign and at
/// least one is nonzero.
pub open spec fn dir_ok(dr: int, df: int) -> bool {
    -1 <= dr <= 1 && -1 <= df <= 1 && !(dr == 0 && df == 0)
}

/// Every square strictly nearer than k steps along the ray from (r1, f1)
/// in direction (dr, df) is on the board and empty.
pub open spec fn ray_visited(b: Board, r1: int, f1: int, dr: int, df: int, k: int) -> bool {
    forall|j: int|
        1 <= j < k ==> on_board(#[trigger] step(r1, dr, j), step(f1, df, j)) && b.color_at(
            step(r1, dr, j),
            step(f1, df, j),
        ) is Empty
}

/// The square k steps along the ray from (r1, f1) in direction (dr, df)
/// is (r2, f2), lies on the board, is not held by the mover's color, and
/// everything nearer on the ray is empty.
pub open spec fn ray_hit(
    b: Board,
    c: Color,
    r1: int,
    f1: int,
    dr: int,
    df: int,
    k: int,
    r2: int,
    f2: int,
) -> bool {
    &&& r2 == step(r1, dr, k)
    &&& f2 == step(f1, df, k)
    &&& on_board(r2, f2)
    &&& ray_visited(b, r1, f1, dr, df, k)
    &&& b.color_at(r2, f2) != c
}

/// (r2, f2) is reachable by the sliding ray from (r1, f1) in direction
/// (dr, df): it is hit at some distance between 1 and 7.
pub open spec fn ray_dest(
    b: Board,
    c: Color,
    r1: int,
    f1: int,
    dr: int,
    df: int,
    r2: int,
    f2: int,
) -> bool {
    exists|k: int| 1 <= k < 8 && #[trigger] ray_hit(b, c, r1, f1, dr, df, k, r2, f2)
}

/// The one predicate the engine answers: the piece on (r1, f1) may move
/// to (r2, f2) under this engine's pseudo-legal rules. A square off the
/// board or an empty square has no destinations.
pub open spec fn legal_dest(b: Board, r1: int, f1: int, r2: int, f2: int) -> bool {
    on_board(r1, f1) && {
        let p = b.at(r1, f1);
        match p.name {
            PieceName::King => king_dest(b, p.color, r1, f1, r2, f2),
            PieceName::Queen => queen_dest(b, p.color, r1, f1, r2, f2),
            PieceName::Rook => rook_dest(b, p.color, r1, f1, r2, f2),
            PieceName::Bishop => bishop_dest(b, p.color, r1, f1, r2, f2),
            PieceName::Knight => knight_dest(b, p.color, r1, f1, r2, f2),
            PieceName::Pawn => pawn_dest(b, p.color, r1, f1, r2, f2),
            PieceName::Empty => false,
        }
    }
}

/// Whether the piece on (r1, f1) is allowed to move at all this turn: the
/// turn counter's parity picks out the color whose turn it is, and an
/// empty square never matches.
pub open spec fn turn_matches(b: Board, r1: int, f1: int) -> bool {
    b.turn % 2 == color_index(b.color_at(r1, f1))
}

/// Everything `make_move` checks before it applies a move: the coordinates
/// are on the board, it is the mover's turn, and the destination is in the
/// caller-supplied list.
pub open spec fn move_accepted(
    b: Board,
    moves: Seq<(usize, usize)>,
    r1: int,
    f1: int,
    r2: int,
    f2: int,
) -> bool {
    &&& on_board(r1, f1)
    &&& on_board(r2, f2)
    &&& turn_matches(b, r1, f1)
    &&& moves.contains(((r2 as usize), (f2 as usize)))
}

} // verus!
