//! The board model: piece and color enumerations, the 8x8 grid of pieces,
//! the turn counter, and the standard starting position.

use vstd::prelude::*;

verus! {

/// The color of a piece, or `Empty` for an unoccupied square.
#[derive(Debug, Clone, Copy, PartialEq, Eq, Structural)]
pub enum Color {
    White,
    Black,
    Empty,
}

/// The kind of a piece, or `Empty` for an unoccupied square.
#[derive(Debug, Clone, Copy, PartialEq, Eq, Structural)]
pub enum PieceName {
    King,
    Queen,
    Rook,
    Bishop,
    Knight,
    Pawn,
    Empty,
}

/// How many pieces of each color currently attack a square. Used only as a
/// transient, per-query value while filtering king moves; the counters held
/// in the board itself stay zero.
#[derive(Debug, Clone, Copy, PartialEq, Eq, Structural)]
pub struct ControlledBy {
    pub white: u8,
    pub black: u8,
}

/// One square of the board: a piece kind and color, the square's own
/// coordinates, and the control counters. An empty square is a `Piece`
/// with `name == PieceName::Empty` and `color == Color::Empty`.
#[derive(Debug, Clone, Copy, PartialEq, Eq, Structural)]
pub struct Piece {
    pub name: PieceName,
    pub color: Color,
    pub rank: usize,
    pub file: usize,
    pub controlled_by: ControlledBy,
}

/// The position of a player's color in the turn order: White moves on even
/// turns, Black on odd ones. `Empty` maps to 2, which never matches a turn
/// parity, so an empty square can never be the mover.
pub open spec fn color_index(c: Color) -> int {
    match c {
        Color::White => 0,
        Color::Black => 1,
        Color::Empty => 2,
    }
}

/// The opposing player's color.
pub open spec fn enemy(c: Color) -> Color {
    match c {
        Color::White => Color::Black,
        Color::Black => Color::White,
        Color::Empty => Color::Empty,
    }
}

/// True when (r, f) names a square of the 8x8 board.
pub open spec fn on_board(r: int, f: int) -> bool {
    0 <= r < 8 && 0 <= f < 8
}

impl Piece {
    /// A fresh piece record with zeroed control counters.
    pub fn new(name: PieceName, color: Color, rank: usize, file: usize) -> (p: Piece)
        ensures
            p == (Piece {
                name,
                color,
                rank,
                file,
                controlled_by: ControlledBy { white: 0, black: 0 },
            }),
    {
        Piece { name, color, rank, file, controlled_by: ControlledBy { white: 0, black: 0 } }
    }
}

/// The record an unoccupied square (r, f) holds.
pub open spec fn empty_square(r: int, f: int) -> Piece {
    Piece {
        name: PieceName::Empty,
        color: Color::Empty,
        rank: r as usize,
        file: f as usize,
        controlled_by: ControlledBy { white: 0, black: 0 },
    }
}

/// The piece p after it has been relocated to (r, f): the same kind,
/// color and counters, with the stored coordinates brought up to date.
pub open spec fn moved_piece(p: Piece, r: int, f: int) -> Piece {
    Piece { rank: r as usize, file: f as usize, ..p }
}

/// The piece standing on (r, f) in the standard starting position.
pub open spec fn start_piece(r: int, f: int) -> Piece {
    Piece {
        name: start_name(r, f),
        color: start_color(r),
        rank: r as usize,
        file: f as usize,
        controlled_by: ControlledBy { white: 0, black: 0 },
    }
}

/// The piece kind on (r, f) in the standard starting position: the usual
/// back rank on ranks 0 and 7, pawns on ranks 1 and 6, nothing between.
pub open spec fn start_name(r: int, f: int) -> PieceName {
    if r == 0 || r == 7 {
        if f == 0 || f == 7 {
            PieceName::Rook
        } else if f == 1 || f == 6 {
            PieceName::Knight
        } else if f == 2 || f == 5 {
            PieceName::Bishop
        } else if f == 3 {
            PieceName::Queen
        } else {
            PieceName::King
        }
    } else if r == 1 || r == 6 {
        PieceName::Pawn
    } else {
        PieceName::Empty
    }
}

/// The color on rank r in the standard starting position: Black on ranks
/// 0 and 1, White on ranks 6 and 7.
pub open spec fn start_color(r: int) -> Color {
    if r == 0 || r == 1 {
        Color::Black
    } else if r == 6 || r == 7 {
        Color::White
    } else {
        Color::Empty
    }
}

/// The board: an 8x8 grid of pieces indexed [rank][file], rank 0 being
/// Black's back rank and rank 7 White's, plus a turn counter that starts
/// at 0 and increments on every applied move.
#[derive(Debug, Clone, Copy, PartialEq, Eq)]
pub struct Board {
    pub squares: [[Piece; 8]; 8],
    pub turn: usize,
}

impl Board {
    /// The piece on square (r, f).
    pub open spec fn at(self, r: int, f: int) -> Piece {
        self.squares[r][f]
    }

    /// The color on square (r, f).
    pub open spec fn color_at(self, r: int, f: int) -> Color {
        self.at(r, f).color
    }

    /// Well-formedness of the board: every piece records the coordinates of
    /// the square it stands on, and a square is empty in kind exactly when
    /// it is empty in color. The starting position establishes this and
    /// move application preserves it.
    pub open spec fn wf(self) -> bool {
        forall|r: int, f: int|
            on_board(r, f) ==> {
                let p = #[trigger] self.at(r, f);
                &&& p.rank == r
                &&& p.file == f
                &&& (p.name is Empty <==> p.color is Empty)
            }
    }

    /// The standard chess starting position, White to move.
    pub fn new() -> (board: Board)
        ensures
            board.turn == 0,
            forall|r: int, f: int| on_board(r, f) ==> #[trigger] board.at(r, f) == start_piece(r, f),
            board.wf(),
    {
        let mut squares: [[Piece; 8]; 8] =
            [[Piece::new(PieceName::Empty, Color::Empty, 0, 0); 8]; 8];
        for r in 0..8
            invariant
                forall|i: int, j: int|
                    0 <= i < r && 0 <= j < 8 ==> #[trigger] squares[i][j] == start_piece(i, j),
        {
            for f in 0..8
                invariant
                    r < 8,
                    forall|i: int, j: int|
                        0 <= i < r && 0 <= j < 8 ==> #[trigger] squares[i][j] == start_piece(i, j),
                    forall|j: int| 0 <= j < f ==> #[trigger] squares[r as int][j] == start_piece(r as int, j),
            {
                squares[r][f] = Piece::new(start_name_at(r, f), start_color_at(r), r, f);
            }
        }
        let board = Board { squares, turn: 0 };
        assert forall|r: int, f: int| on_board(r, f) implies {
            let p = #[trigger] board.at(r, f);
            &&& p.rank == r
            &&& p.file == f
            &&& (p.name is Empty <==> p.color is Empty)
        } by {
            assert(board.at(r, f) == start_piece(r, f));
        }
        board
    }

    /// A snapshot of the full board state, safe to hand out: the board is
    /// a plain value and the copy is exactly the current state, so two
    /// snapshots with no move between them are identical.
    pub fn snapshot(&self) -> (board: Board)
        ensures
            board == *self,
    {
        *self
    }

    /// Decides well-formedness at run time, for callers that hold a board
    /// they did not obtain from this library's own operations.
    pub fn check_wf(&self) -> (ok: bool)
        ensures
            ok == self.wf(),
    {
        for r in 0..8
            invariant
                forall|i: int, j: int|
                    0 <= i < r && 0 <= j < 8 ==> {
                        let p = #[trigger] self.at(i, j);
                        &&& p.rank == i
                        &&& p.file == j
                        &&& (p.name is Empty <==> p.color is Empty)
                    },
        {
            for f in 0..8
                invariant
                    r < 8,
                    forall|i: int, j: int|
                        0 <= i < r && 0 <= j < 8 ==> {
                            let p = #[trigger] self.at(i, j);
                            &&& p.rank == i
                            &&& p.file == j
                            &&& (p.name is Empty <==> p.color is Empty)
                        },
                    forall|j: int|
                        0 <= j < f ==> {
                            let p = #[trigger] self.at(r as int, j);
                            &&& p.rank == r
                            &&& p.file == j
                            &&& (p.name is Empty <==> p.color is Empty)
                        },
            {
                let p = self.squares[r][f];
                if p.rank != r || p.file != f || ((p.name == PieceName::Empty) != (p.color
                    == Color::Empty)) {
                    proof {
                        assert(self.at(r as int, f as int) == p);
                    }
                    return false;
                }
            }
        }
        true
    }
}

/// The starting-position piece kind for square (r, f).
fn start_name_at(r: usize, f: usize) -> (name: PieceName)
    requires
        r < 8,
        f < 8,
    ensures
        name == start_name(r as int, f as int),
{
    if r == 0 || r == 7 {
        if f == 0 || f == 7 {
            PieceName::Rook
        } else if f == 1 || f == 6 {
            PieceName::Knight
        } else if f == 2 || f == 5 {
            PieceName::Bishop
        } else if f == 3 {
            PieceName::Queen
        } else {
            PieceName::King
        }
    } else if r == 1 || r == 6 {
        PieceName::Pawn
    } else {
        PieceName::Empty
    }
}

/// The starting-position color for rank r.
fn start_color_at(r: usize) -> (color: Color)
    requires
        r < 8,
    ensures
        color == start_color(r as int),
{
    if r == 0 || r == 1 {
        Color::Black
    } else if r == 6 || r == 7 {
        Color::White
    } else {
        Color::Empty
    }
}

} // verus!
