//! The move engine: per-piece-kind generation of pseudo-legal destination
//! squares, proved to return exactly the squares `rules::legal_dest`
//! describes, and move application with turn-order enforcement.

use vstd::prelude::*;
use crate::board::{
    Board, Color, ControlledBy, Piece, PieceName, color_index, empty_square, moved_piece, on_board,
};
use crate::rules::{
    bishop_dest, chebyshev, dir_ok, king_dest, knight_dest, legal_dest, move_accepted, offset_dest,
    pawn_dest, queen_dest, queen_line, ray_dest, ray_hit, ray_visited, rook_dest, sgn, slide_stop,
    step, toward,
};

verus! {

/// The position of a color in the turn order, as executable code; the
/// turn gate compares this against the turn counter's parity.
fn color_ordinal(c: Color) -> (n: usize)
    ensures
        n == color_index(c),
{
    match c {
        Color::White => 0,
        Color::Black => 1,
        Color::Empty => 2,
    }
}

/// Whether the square (r, f) is listed among the supplied destinations.
fn contains_square(moves: &Vec<(usize, usize)>, r: usize, f: usize) -> (found: bool)
    ensures
        found == moves@.contains((r, f)),
{
    let mut i: usize = 0;
    while i < moves.len()
        invariant
            i <= moves@.len(),
            forall|j: int| 0 <= j < i ==> moves@[j] != (r, f),
        decreases moves@.len() - i,
    {
        let m = moves[i];
        if m.0 == r && m.1 == f {
            proof {
                assert(moves@[i as int] == (r, f));
            }
            return true;
        }
        i = i + 1;
    }
    false
}

/// A ray reaches a square exactly when the square lies on the board in
/// the ray's direction along a queen line with nothing in between and no
/// friendly piece at the end. This ties the walked rays to the geometric
/// movement predicates.
proof fn lemma_ray_matches_line(
    b: Board,
    c: Color,
    r1: int,
    f1: int,
    dr: int,
    df: int,
    r2: int,
    f2: int,
)
    requires
        on_board(r1, f1),
        dir_ok(dr, df),
    ensures
        ray_dest(b, c, r1, f1, dr, df, r2, f2) <==> (sgn(r2 - r1) == dr && sgn(f2 - f1) == df
            && queen_line(r1, f1, r2, f2) && slide_stop(b, c, r1, f1, r2, f2)),
{
    if ray_dest(b, c, r1, f1, dr, df, r2, f2) {
        let k = choose|k: int| 1 <= k < 8 && #[trigger] ray_hit(b, c, r1, f1, dr, df, k, r2, f2);
        assert(sgn(r2 - r1) == dr);
        assert(sgn(f2 - f1) == df);
        assert(chebyshev(r1, f1, r2, f2) == k);
        assert(queen_line(r1, f1, r2, f2));
        assert forall|j: int| 1 <= j < chebyshev(r1, f1, r2, f2) implies b.color_at(
            #[trigger] toward(r1, r2, j),
            toward(f1, f2, j),
        ) is Empty by {
            assert(toward(r1, r2, j) == step(r1, dr, j));
            assert(toward(f1, f2, j) == step(f1, df, j));
        }
        assert(slide_stop(b, c, r1, f1, r2, f2));
    }
    if sgn(r2 - r1) == dr && sgn(f2 - f1) == df && queen_line(r1, f1, r2, f2) && slide_stop(
        b,
        c,
        r1,
        f1,
        r2,
        f2,
    ) {
        let k = chebyshev(r1, f1, r2, f2);
        assert(1 <= k < 8);
        assert(r2 == step(r1, dr, k));
        assert(f2 == step(f1, df, k));
        assert forall|j: int| 1 <= j < k implies on_board(
            #[trigger] step(r1, dr, j),
            step(f1, df, j),
        ) && b.color_at(step(r1, dr, j), step(f1, df, j)) is Empty by {
            assert(step(r1, dr, j) == toward(r1, r2, j));
            assert(step(f1, df, j) == toward(f1, f2, j));
            assert(b.color_at(toward(r1, r2, j), toward(f1, f2, j)) is Empty);
        }
        assert(ray_hit(b, c, r1, f1, dr, df, k, r2, f2));
    }
}

/// Pushing an element extends a sequence's membership by exactly that
/// element, and keeps it duplicate-free when the element is new.
proof fn lemma_push_effect(s: Seq<(usize, usize)>, x: (usize, usize))
    ensures
        forall|y: (usize, usize)| #[trigger] s.push(x).contains(y) <==> s.contains(y) || y == x,
        s.no_duplicates() && !s.contains(x) ==> s.push(x).no_duplicates(),
{
    assert forall|y: (usize, usize)| #[trigger] s.push(x).contains(y) implies s.contains(y) || y
        == x by {
        let i = choose|i: int| 0 <= i < s.push(x).len() && s.push(x)[i] == y;
        if i < s.len() {
            assert(s[i] == y);
        }
    }
    assert forall|y: (usize, usize)| s.contains(y) || y == x implies #[trigger] s.push(x).contains(
        y,
    ) by {
        if s.contains(y) {
            let i = choose|i: int| 0 <= i < s.len() && s[i] == y;
            assert(s.push(x)[i] == y);
        } else {
            assert(s.push(x)[s.len() as int] == y);
        }
    }
}

impl Board {
    /// Walks one sliding ray from (r1, f1) in direction (dr, df), pushing
    /// every empty square passed and then the first occupied square if it
    /// holds the opposing color. Extends `moves` by exactly the squares
    /// `ray_dest` describes for this direction.
    fn ray_moves(&self, c: Color, r1: usize, f1: usize, dr: i8, df: i8, moves: &mut Vec<
        (usize, usize),
    >)
        requires
            on_board(r1 as int, f1 as int),
            dir_ok(dr as int, df as int),
            c != Color::Empty,
            forall|m: (usize, usize)| #[trigger]
                old(moves)@.contains(m) ==> !ray_dest(
                    *self,
                    c,
                    r1 as int,
                    f1 as int,
                    dr as int,
                    df as int,
                    m.0 as int,
                    m.1 as int,
                ),
            old(moves)@.no_duplicates(),
        ensures
            forall|m: (usize, usize)| #[trigger]
                final(moves)@.contains(m) <==> old(moves)@.contains(m) || ray_dest(
                    *self,
                    c,
                    r1 as int,
                    f1 as int,
                    dr as int,
                    df as int,
                    m.0 as int,
                    m.1 as int,
                ),
            final(moves)@.no_duplicates(),
    {
        let mut nr: i8 = r1 as i8 + dr;
        let mut nf: i8 = f1 as i8 + df;
        let mut k: usize = 1;
        while 0 <= nr && nr < 8 && 0 <= nf && nf < 8 && self.squares[nr as usize][nf as usize].color
            == Color::Empty
            invariant
                on_board(r1 as int, f1 as int),
                dir_ok(dr as int, df as int),
                c != Color::Empty,
                1 <= k <= 8,
                nr as int == step(r1 as int, dr as int, k as int),
                nf as int == step(f1 as int, df as int, k as int),
                ray_visited(*self, r1 as int, f1 as int, dr as int, df as int, k as int),
                forall|m: (usize, usize)| #[trigger]
                    old(moves)@.contains(m) ==> !ray_dest(
                        *self,
                        c,
                        r1 as int,
                        f1 as int,
                        dr as int,
                        df as int,
                        m.0 as int,
                        m.1 as int,
                    ),
                forall|m: (usize, usize)| #[trigger]
                    moves@.contains(m) <==> old(moves)@.contains(m) || exists|j: int|
                        1 <= j < k && m.0 as int == #[trigger] step(r1 as int, dr as int, j)
                            && m.1 as int == step(f1 as int, df as int, j),
                moves@.no_duplicates(),
            decreases 8 - k,
        {
            proof {
                // The walk stays on the board, so the distance cannot pass 7.
                if dr as int != 0 {
                    assert(k < 8);
                } else {
                    assert(df as int != 0);
                    assert(k < 8);
                }
                // The square about to be pushed is a destination of this ray.
                assert(ray_hit(
                    *self,
                    c,
                    r1 as int,
                    f1 as int,
                    dr as int,
                    df as int,
                    k as int,
                    nr as int,
                    nf as int,
                ));
                assert(ray_dest(
                    *self,
                    c,
                    r1 as int,
                    f1 as int,
                    dr as int,
                    df as int,
                    nr as int,
                    nf as int,
                ));
                // It was not pushed before: its distance from the origin
                // differs from that of every square already visited.
                assert(!moves@.contains(((nr as usize), (nf as usize)))) by {
                    if moves@.contains(((nr as usize), (nf as usize))) {
                        let j = choose|j: int|
                            1 <= j < k && nr as usize as int == #[trigger] step(
                                r1 as int,
                                dr as int,
                                j,
                            ) && nf as usize as int == step(f1 as int, df as int, j);
                        assert(false);
                    }
                }
                lemma_push_effect(moves@, ((nr as usize), (nf as usize)));
            }
            moves.push(((nr as usize), (nf as usize)));
            nr = nr + dr;
            nf = nf + df;
            k = k + 1;
        }
        let ghost visited = moves@;
        let ghost kk = k as int;
        if 0 <= nr && nr < 8 && 0 <= nf && nf < 8 {
            if self.squares[nr as usize][nf as usize].color != c {
                proof {
                    assert(kk < 8);
                    assert(ray_hit(
                        *self,
                        c,
                        r1 as int,
                        f1 as int,
                        dr as int,
                        df as int,
                        kk,
                        nr as int,
                        nf as int,
                    ));
                    assert(!moves@.contains(((nr as usize), (nf as usize)))) by {
                        if moves@.contains(((nr as usize), (nf as usize))) {
                            let j = choose|j: int|
                                1 <= j < kk && nr as usize as int == #[trigger] step(
                                    r1 as int,
                                    dr as int,
                                    j,
                                ) && nf as usize as int == step(f1 as int, df as int, j);
                            assert(false);
                        }
                    }
                    lemma_push_effect(moves@, ((nr as usize), (nf as usize)));
                }
                moves.push(((nr as usize), (nf as usize)));
            }
        }
        proof {
            assert forall|m: (usize, usize)| #[trigger]
                moves@.contains(m) implies old(moves)@.contains(m) || ray_dest(
                *self,
                c,
                r1 as int,
                f1 as int,
                dr as int,
                df as int,
                m.0 as int,
                m.1 as int,
            ) by {
                if visited.contains(m) && !old(moves)@.contains(m) {
                    let j = choose|j: int|
                        1 <= j < kk && m.0 as int == #[trigger] step(r1 as int, dr as int, j)
                            && m.1 as int == step(f1 as int, df as int, j);
                    assert(ray_hit(
                        *self,
                        c,
                        r1 as int,
                        f1 as int,
                        dr as int,
                        df as int,
                        j,
                        m.0 as int,
                        m.1 as int,
                    ));
                }
            }
            assert forall|m: (usize, usize)|
                ray_dest(
                    *self,
                    c,
                    r1 as int,
                    f1 as int,
                    dr as int,
                    df as int,
                    m.0 as int,
                    m.1 as int,
                ) implies #[trigger] moves@.contains(m) by {
                let j = choose|j: int|
                    1 <= j < 8 && ray_hit(
                        *self,
                        c,
                        r1 as int,
                        f1 as int,
                        dr as int,
                        df as int,
                        j,
                        m.0 as int,
                        m.1 as int,
                    );
                if j < kk {
                    assert(visited.contains(m));
                } else if j == kk {
                    assert(moves@.contains(m));
                } else {
                    // The loop stopped at distance kk, on a square that is
                    // off the board or occupied; a hit farther out would
                    // need that square to be on the board and empty.
                    assert(1 <= kk < j);
                    assert(on_board(
                        step(r1 as int, dr as int, kk),
                        step(f1 as int, df as int, kk),
                    ) && self.color_at(
                        step(r1 as int, dr as int, kk),
                        step(f1 as int, df as int, kk),
                    ) is Empty);
                    assert(false);
                }
            }
        }
    }
    /// Destinations of a rook of color c on (r1, f1): the four orthogonal
    /// rays.
    fn rook_moves(&self, c: Color, r1: usize, f1: usize) -> (moves: Vec<(usize, usize)>)
        requires
            on_board(r1 as int, f1 as int),
            c != Color::Empty,
        ensures
            forall|m: (usize, usize)| #[trigger]
                moves@.contains(m) <==> rook_dest(
                    *self,
                    c,
                    r1 as int,
                    f1 as int,
                    m.0 as int,
                    m.1 as int,
                ),
            moves@.no_duplicates(),
    {
        let mut moves: Vec<(usize, usize)> = Vec::new();
        self.ray_moves(c, r1, f1, 1, 0, &mut moves);
        self.ray_moves(c, r1, f1, -1, 0, &mut moves);
        self.ray_moves(c, r1, f1, 0, 1, &mut moves);
        self.ray_moves(c, r1, f1, 0, -1, &mut moves);
        proof {
            assert forall|m: (usize, usize)|
                #[trigger] moves@.contains(m) <==> rook_dest(
                    *self,
                    c,
                    r1 as int,
                    f1 as int,
                    m.0 as int,
                    m.1 as int,
                ) by {
                lemma_ray_matches_line(*self, c, r1 as int, f1 as int, 1, 0, m.0 as int, m.1 as int);
                lemma_ray_matches_line(
                    *self,
                    c,
                    r1 as int,
                    f1 as int,
                    -1,
                    0,
                    m.0 as int,
                    m.1 as int,
                );
                lemma_ray_matches_line(*self, c, r1 as int, f1 as int, 0, 1, m.0 as int, m.1 as int);
                lemma_ray_matches_line(
                    *self,
                    c,
                    r1 as int,
                    f1 as int,
                    0,
                    -1,
                    m.0 as int,
                    m.1 as int,
                );
            }
        }
        moves
    }

    /// Destinations of a bishop of color c on (r1, f1): the four diagonal
    /// rays.
    fn bishop_moves(&self, c: Color, r1: usize, f1: usize) -> (moves: Vec<(usize, usize)>)
        requires
            on_board(r1 as int, f1 as int),
            c != Color::Empty,
        ensures
            forall|m: (usize, usize)| #[trigger]
                moves@.contains(m) <==> bishop_dest(
                    *self,
                    c,
                    r1 as int,
                    f1 as int,
                    m.0 as int,
                    m.1 as int,
                ),
            moves@.no_duplicates(),
    {
        let mut moves: Vec<(usize, usize)> = Vec::new();
        self.ray_moves(c, r1, f1, 1, 1, &mut moves);
        self.ray_moves(c, r1, f1, -1, -1, &mut moves);
        self.ray_moves(c, r1, f1, 1, -1, &mut moves);
        self.ray_moves(c, r1, f1, -1, 1, &mut moves);
        proof {
            assert forall|m: (usize, usize)|
                #[trigger] moves@.contains(m) <==> bishop_dest(
                    *self,
                    c,
                    r1 as int,
                    f1 as int,
                    m.0 as int,
                    m.1 as int,
                ) by {
                lemma_ray_matches_line(*self, c, r1 as int, f1 as int, 1, 1, m.0 as int, m.1 as int);
                lemma_ray_matches_line(
                    *self,
                    c,
                    r1 as int,
                    f1 as int,
                    -1,
                    -1,
                    m.0 as int,
                    m.1 as int,
                );
                lemma_ray_matches_line(
                    *self,
                    c,
                    r1 as int,
                    f1 as int,
                    1,
                    -1,
                    m.0 as int,
                    m.1 as int,
                );
                lemma_ray_matches_line(
                    *self,
                    c,
                    r1 as int,
                    f1 as int,
                    -1,
                    1,
                    m.0 as int,
                    m.1 as int,
                );
            }
        }
        moves
    }

    /// Destinations of a queen of color c on (r1, f1): all eight rays.
    fn queen_moves(&self, c: Color, r1: usize, f1: usize) -> (moves: Vec<(usize, usize)>)
        requires
            on_board(r1 as int, f1 as int),
            c != Color::Empty,
        ensures
            forall|m: (usize, usize)| #[trigger]
                moves@.contains(m) <==> queen_dest(
                    *self,
                    c,
                    r1 as int,
                    f1 as int,
                    m.0 as int,
                    m.1 as int,
                ),
            moves@.no_duplicates(),
    {
        let mut moves: Vec<(usize, usize)> = Vec::new();
        self.ray_moves(c, r1, f1, 1, 0, &mut moves);
        self.ray_moves(c, r1, f1, -1, 0, &mut moves);
        self.ray_moves(c, r1, f1, 0, 1, &mut moves);
        self.ray_moves(c, r1, f1, 0, -1, &mut moves);
        self.ray_moves(c, r1, f1, 1, 1, &mut moves);
        self.ray_moves(c, r1, f1, -1, -1, &mut moves);
        self.ray_moves(c, r1, f1, 1, -1, &mut moves);
        self.ray_moves(c, r1, f1, -1, 1, &mut moves);
        proof {
            assert forall|m: (usize, usize)|
                #[trigger] moves@.contains(m) <==> queen_dest(
                    *self,
                    c,
                    r1 as int,
                    f1 as int,
                    m.0 as int,
                    m.1 as int,
                ) by {
                lemma_ray_matches_line(*self, c, r1 as int, f1 as int, 1, 0, m.0 as int, m.1 as int);
                lemma_ray_matches_line(
                    *self,
                    c,
                    r1 as int,
                    f1 as int,
                    -1,
                    0,
                    m.0 as int,
                    m.1 as int,
                );
                lemma_ray_matches_line(*self, c, r1 as int, f1 as int, 0, 1, m.0 as int, m.1 as int);
                lemma_ray_matches_line(
                    *self,
                    c,
                    r1 as int,
                    f1 as int,
                    0,
                    -1,
                    m.0 as int,
                    m.1 as int,
                );
                lemma_ray_matches_line(*self, c, r1 as int, f1 as int, 1, 1, m.0 as int, m.1 as int);
                lemma_ray_matches_line(
                    *self,
                    c,
                    r1 as int,
                    f1 as int,
                    -1,
                    -1,
                    m.0 as int,
                    m.1 as int,
                );
                lemma_ray_matches_line(
                    *self,
                    c,
                    r1 as int,
                    f1 as int,
                    1,
                    -1,
                    m.0 as int,
                    m.1 as int,
                );
                lemma_ray_matches_line(
                    *self,
                    c,
                    r1 as int,
                    f1 as int,
                    -1,
                    1,
                    m.0 as int,
                    m.1 as int,
                );
            }
        }
        moves
    }
    /// Tries a single fixed jump to the square (dr, df) away, pushing it
    /// when it is on the board and not held by the mover's color. Extends
    /// `moves` by exactly the squares `offset_dest` describes.
    fn offset_move(&self, c: Color, r1: usize, f1: usize, dr: i8, df: i8, moves: &mut Vec<
        (usize, usize),
    >)
        requires
            on_board(r1 as int, f1 as int),
            -2 <= dr <= 2,
            -2 <= df <= 2,
            c != Color::Empty,
            forall|m: (usize, usize)| #[trigger]
                old(moves)@.contains(m) ==> !offset_dest(
                    *self,
                    c,
                    r1 as int,
                    f1 as int,
                    dr as int,
                    df as int,
                    m.0 as int,
                    m.1 as int,
                ),
            old(moves)@.no_duplicates(),
        ensures
            forall|m: (usize, usize)| #[trigger]
                final(moves)@.contains(m) <==> old(moves)@.contains(m) || offset_dest(
                    *self,
                    c,
                    r1 as int,
                    f1 as int,
                    dr as int,
                    df as int,
                    m.0 as int,
                    m.1 as int,
                ),
            final(moves)@.no_duplicates(),
    {
        let nr: i8 = r1 as i8 + dr;
        let nf: i8 = f1 as i8 + df;
        if 0 <= nr && nr < 8 && 0 <= nf && nf < 8 {
            if self.squares[nr as usize][nf as usize].color != c {
                proof {
                    lemma_push_effect(moves@, ((nr as usize), (nf as usize)));
                }
                moves.push(((nr as usize), (nf as usize)));
            }
        }
    }

    /// Tries a single king step to the square (dr, df) away. The control
    /// counters are computed fresh for this query alone and never written
    /// back to the board, so the opposing-control filter compares against
    /// a zero count; the step is taken when the square is on the board and
    /// not held by the king's own color.
    fn king_step(&self, c: Color, r1: usize, f1: usize, dr: i8, df: i8, moves: &mut Vec<
        (usize, usize),
    >)
        requires
            on_board(r1 as int, f1 as int),
            -1 <= dr <= 1,
            -1 <= df <= 1,
            c != Color::Empty,
            forall|m: (usize, usize)| #[trigger]
                old(moves)@.contains(m) ==> !offset_dest(
                    *self,
                    c,
                    r1 as int,
                    f1 as int,
                    dr as int,
                    df as int,
                    m.0 as int,
                    m.1 as int,
                ),
            old(moves)@.no_duplicates(),
        ensures
            forall|m: (usize, usize)| #[trigger]
                final(moves)@.contains(m) <==> old(moves)@.contains(m) || offset_dest(
                    *self,
                    c,
                    r1 as int,
                    f1 as int,
                    dr as int,
                    df as int,
                    m.0 as int,
                    m.1 as int,
                ),
            final(moves)@.no_duplicates(),
    {
        let nr: i8 = r1 as i8 + dr;
        let nf: i8 = f1 as i8 + df;
        if 0 <= nr && nr < 8 && 0 <= nf && nf < 8 {
            let square = self.squares[nr as usize][nf as usize];
            let mut control = ControlledBy { white: 0, black: 0 };
            match c {
                Color::White => {
                    control.white = control.white + 1;
                    if control.black == 0 && square.color != Color::White {
                        proof {
                            lemma_push_effect(moves@, ((nr as usize), (nf as usize)));
                        }
                        moves.push(((nr as usize), (nf as usize)));
                    }
                },
                Color::Black => {
                    control.black = control.black + 1;
                    if control.white == 0 && square.color != Color::Black {
                        proof {
                            lemma_push_effect(moves@, ((nr as usize), (nf as usize)));
                        }
                        moves.push(((nr as usize), (nf as usize)));
                    }
                },
                Color::Empty => {},
            }
        }
    }

    /// Destinations of a king of color c on (r1, f1): the eight
    /// neighboring squares, filtered by occupancy and by the transient
    /// control counters.
    fn king_moves(&self, c: Color, r1: usize, f1: usize) -> (moves: Vec<(usize, usize)>)
        requires
            on_board(r1 as int, f1 as int),
            c != Color::Empty,
        ensures
            forall|m: (usize, usize)| #[trigger]
                moves@.contains(m) <==> king_dest(
                    *self,
                    c,
                    r1 as int,
                    f1 as int,
                    m.0 as int,
                    m.1 as int,
                ),
            moves@.no_duplicates(),
    {
        let mut moves: Vec<(usize, usize)> = Vec::new();
        self.king_step(c, r1, f1, -1, -1, &mut moves);
        self.king_step(c, r1, f1, -1, 0, &mut moves);
        self.king_step(c, r1, f1, -1, 1, &mut moves);
        self.king_step(c, r1, f1, 0, -1, &mut moves);
        self.king_step(c, r1, f1, 0, 1, &mut moves);
        self.king_step(c, r1, f1, 1, -1, &mut moves);
        self.king_step(c, r1, f1, 1, 0, &mut moves);
        self.king_step(c, r1, f1, 1, 1, &mut moves);
        moves
    }

    /// Destinations of a knight of color c on (r1, f1): the eight L-shaped
    /// jumps, filtered by occupancy.
    fn knight_moves(&self, c: Color, r1: usize, f1: usize) -> (moves: Vec<(usize, usize)>)
        requires
            on_board(r1 as int, f1 as int),
            c != Color::Empty,
        ensures
            forall|m: (usize, usize)| #[trigger]
                moves@.contains(m) <==> knight_dest(
                    *self,
                    c,
                    r1 as int,
                    f1 as int,
                    m.0 as int,
                    m.1 as int,
                ),
            moves@.no_duplicates(),
    {
        let mut moves: Vec<(usize, usize)> = Vec::new();
        self.offset_move(c, r1, f1, -1, -2, &mut moves);
        self.offset_move(c, r1, f1, -2, -1, &mut moves);
        self.offset_move(c, r1, f1, -2, 1, &mut moves);
        self.offset_move(c, r1, f1, -1, 2, &mut moves);
        self.offset_move(c, r1, f1, 1, 2, &mut moves);
        self.offset_move(c, r1, f1, 2, 1, &mut moves);
        self.offset_move(c, r1, f1, 2, -1, &mut moves);
        self.offset_move(c, r1, f1, 1, -2, &mut moves);
        moves
    }

    /// Destinations of a pawn of color c on (r1, f1). White advances
    /// toward lower rank indices, Black toward higher ones. The double
    /// step from the starting rank asks both squares ahead to be empty; a
    /// pawn standing on the far edge rank has no forward square and so no
    /// moves ahead. A pawn without a color yields nothing.
    fn pawn_moves(&self, c: Color, r1: usize, f1: usize) -> (moves: Vec<(usize, usize)>)
        requires
            on_board(r1 as int, f1 as int),
        ensures
            forall|m: (usize, usize)| #[trigger]
                moves@.contains(m) <==> pawn_dest(
                    *self,
                    c,
                    r1 as int,
                    f1 as int,
                    m.0 as int,
                    m.1 as int,
                ),
            moves@.no_duplicates(),
    {
        let mut moves: Vec<(usize, usize)> = Vec::new();
        match c {
            Color::White => {
                if r1 == 6 && self.squares[5][f1].color == Color::Empty
                    && self.squares[4][f1].color == Color::Empty {
                    let dest: (usize, usize) = (4, f1);
                    proof {
                        lemma_push_effect(moves@, dest);
                    }
                    moves.push(dest);
                }
                if r1 >= 1 && self.squares[r1 - 1][f1].color == Color::Empty {
                    let dest: (usize, usize) = ((r1 - 1), f1);
                    proof {
                        lemma_push_effect(moves@, dest);
                    }
                    moves.push(dest);
                }
                if r1 >= 1 && f1 >= 1 && self.squares[r1 - 1][f1 - 1].color == Color::Black {
                    let dest: (usize, usize) = ((r1 - 1), (f1 - 1));
                    proof {
                        lemma_push_effect(moves@, dest);
                    }
                    moves.push(dest);
                }
                if r1 >= 1 && f1 < 7 && self.squares[r1 - 1][f1 + 1].color == Color::Black {
                    let dest: (usize, usize) = ((r1 - 1), (f1 + 1));
                    proof {
                        lemma_push_effect(moves@, dest);
                    }
                    moves.push(dest);
                }
            },
            Color::Black => {
                if r1 == 1 && self.squares[2][f1].color == Color::Empty
                    && self.squares[3][f1].color == Color::Empty {
                    let dest: (usize, usize) = (3, f1);
                    proof {
                        lemma_push_effect(moves@, dest);
                    }
                    moves.push(dest);
                }
                if r1 < 7 && self.squares[r1 + 1][f1].color == Color::Empty {
                    let dest: (usize, usize) = ((r1 + 1), f1);
                    proof {
                        lemma_push_effect(moves@, dest);
                    }
                    moves.push(dest);
                }
                if r1 < 7 && f1 < 7 && self.squares[r1 + 1][f1 + 1].color == Color::White {
                    let dest: (usize, usize) = ((r1 + 1), (f1 + 1));
                    proof {
                        lemma_push_effect(moves@, dest);
                    }
                    moves.push(dest);
                }
                if r1 < 7 && f1 >= 1 && self.squares[r1 + 1][f1 - 1].color == Color::White {
                    let dest: (usize, usize) = ((r1 + 1), (f1 - 1));
                    proof {
                        lemma_push_effect(moves@, dest);
                    }
                    moves.push(dest);
                }
            },
            Color::Empty => {},
        }
        moves
    }

    /// The pseudo-legal destination squares for the piece on (rank, file):
    /// exactly the squares `legal_dest` describes, each listed once. A
    /// coordinate off the board, like an empty square, yields no moves.
    pub fn get_legal_moves(&self, rank: usize, file: usize) -> (moves: Vec<(usize, usize)>)
        requires
            self.wf(),
        ensures
            forall|m: (usize, usize)| #[trigger]
                moves@.contains(m) <==> legal_dest(
                    *self,
                    rank as int,
                    file as int,
                    m.0 as int,
                    m.1 as int,
                ),
            moves@.no_duplicates(),
    {
        if rank >= 8 || file >= 8 {
            let moves: Vec<(usize, usize)> = Vec::new();
            return moves;
        }
        let p = self.squares[rank][file];
        match p.name {
            PieceName::King => self.king_moves(p.color, rank, file),
            PieceName::Queen => self.queen_moves(p.color, rank, file),
            PieceName::Rook => self.rook_moves(p.color, rank, file),
            PieceName::Bishop => self.bishop_moves(p.color, rank, file),
            PieceName::Knight => self.knight_moves(p.color, rank, file),
            PieceName::Pawn => self.pawn_moves(p.color, rank, file),
            PieceName::Empty => Vec::new(),
        }
    }

    /// Applies the move (r1, f1) -> (r2, f2) when the coordinates are on
    /// the board, it is the mover's turn, and the destination is in the
    /// caller-supplied list of legal destinations; the list is trusted,
    /// not recomputed. On acceptance the piece is copied to the
    /// destination with its stored coordinates brought up to date
    /// (capturing whatever stood there), the source square is emptied,
    /// and the turn counter increments. On rejection nothing changes.
    /// Returns whether the move was made.
    pub fn make_move(&mut self, moves: Vec<(usize, usize)>, r1: usize, f1: usize, r2: usize, f2:
        usize) -> (ok: bool)
        requires
            old(self).turn < usize::MAX,
        ensures
            ok == move_accepted(*old(self), moves@, r1 as int, f1 as int, r2 as int, f2 as int),
            !ok ==> *final(self) == *old(self),
            ok ==> final(self).turn == old(self).turn + 1,
            ok ==> final(self).at(r1 as int, f1 as int) == empty_square(r1 as int, f1 as int),
            ok && !(r1 == r2 && f1 == f2) ==> final(self).at(r2 as int, f2 as int) == moved_piece(
                old(self).at(r1 as int, f1 as int),
                r2 as int,
                f2 as int,
            ),
            forall|r: int, f: int|
                on_board(r, f) && !(r == r1 && f == f1) && !(r == r2 && f == f2)
                    ==> #[trigger] final(self).at(r, f) == old(self).at(r, f),
            old(self).wf() ==> final(self).wf(),
    {
        if r1 >= 8 || f1 >= 8 || r2 >= 8 || f2 >= 8 {
            return false;
        }
        let mover = self.squares[r1][f1];
        if self.turn % 2 == color_ordinal(mover.color) {
            if contains_square(&moves, r2, f2) {
                let mut p = mover;
                p.rank = r2;
                p.file = f2;
                self.squares[r2][f2] = p;
                self.squares[r1][f1] = Piece::new(PieceName::Empty, Color::Empty, r1, f1);
                self.turn = self.turn + 1;
                proof {
                    if old(self).wf() {
                        assert forall|r: int, f: int| on_board(r, f) implies {
                            let q = #[trigger] self.at(r, f);
                            &&& q.rank == r
                            &&& q.file == f
                            &&& (q.name is Empty <==> q.color is Empty)
                        } by {
                            if !(r == r1 && f == f1) && !(r == r2 && f == f2) {
                                assert(self.at(r, f) == old(self).at(r, f));
                                assert(old(self).at(r, f).rank == r);
                            } else {
                                assert(old(self).at(r1 as int, f1 as int).rank == r1);
                            }
                        }
                    }
                }
                true
            } else {
                false
            }
        } else {
            false
        }
    }
}

} // verus!

