//! General facts about the movement rules, stated and proved once for all
//! boards: how the turn gate picks the mover, that no piece captures its
//! own color, that a sliding piece cannot pass an occupied square, and
//! that a destination square's piece kind never protects it.

use vstd::prelude::*;
use crate::board::{Board, on_board};
use crate::rules::{chebyshev, legal_dest, pawn_dir, toward, turn_matches};

verus! {

/// The turn gate admits exactly one color: on an even turn only a White
/// piece may move, on an odd turn only a Black one; an empty square never
/// may. In particular, the first move on a fresh board can only be made
/// by White.
pub proof fn lemma_turn_gate(b: Board, r1: int, f1: int)
    ensures
        b.turn % 2 == 0 ==> (turn_matches(b, r1, f1) <==> b.color_at(r1, f1) is White),
        b.turn % 2 != 0 ==> (turn_matches(b, r1, f1) <==> b.color_at(r1, f1) is Black),
{
}

/// No piece may move onto a square held by its own color: every legal
/// destination holds the opposing color or nothing.
pub proof fn lemma_no_friendly_capture(b: Board, r1: int, f1: int, r2: int, f2: int)
    requires
        legal_dest(b, r1, f1, r2, f2),
    ensures
        b.color_at(r2, f2) != b.color_at(r1, f1),
{
}

/// A sliding piece cannot pass an occupied square: if anything stands
/// strictly between a queen, rook or bishop and a square, that square is
/// not a legal destination — whether the blocker is friendly or hostile,
/// and however far beyond it the square lies.
pub proof fn lemma_slide_blocked(b: Board, r1: int, f1: int, r2: int, f2: int, j: int)
    requires
        b.at(r1, f1).name is Queen || b.at(r1, f1).name is Rook || b.at(r1, f1).name is Bishop,
        1 <= j < chebyshev(r1, f1, r2, f2),
        !(b.color_at(toward(r1, r2, j), toward(f1, f2, j)) is Empty),
    ensures
        !legal_dest(b, r1, f1, r2, f2),
{
}

/// Legality never looks at the kind of the piece on the destination
/// square, only at its color: two boards that agree on the moving piece
/// and on every square's color admit exactly the same moves. In
/// particular a square held by the opposing king is as capturable as any
/// other — there is no check-safety veto in these rules.
pub proof fn lemma_dest_kind_irrelevant(b1: Board, b2: Board, r1: int, f1: int, r2: int, f2: int)
    requires
        b1.at(r1, f1) == b2.at(r1, f1),
        forall|r: int, f: int| on_board(r, f) ==> b1.color_at(r, f) == b2.color_at(r, f),
    ensures
        legal_dest(b1, r1, f1, r2, f2) == legal_dest(b2, r1, f1, r2, f2),
{
    if legal_dest(b1, r1, f1, r2, f2) {
        lemma_dest_kind_one_way(b1, b2, r1, f1, r2, f2);
    }
    if legal_dest(b2, r1, f1, r2, f2) {
        lemma_dest_kind_one_way(b2, b1, r1, f1, r2, f2);
    }
}

/// One direction of `lemma_dest_kind_irrelevant`.
proof fn lemma_dest_kind_one_way(b1: Board, b2: Board, r1: int, f1: int, r2: int, f2: int)
    requires
        b1.at(r1, f1) == b2.at(r1, f1),
        forall|r: int, f: int| on_board(r, f) ==> b1.color_at(r, f) == b2.color_at(r, f),
        legal_dest(b1, r1, f1, r2, f2),
    ensures
        legal_dest(b2, r1, f1, r2, f2),
{
    let p = b1.at(r1, f1);
    if on_board(r2, f2) {
        assert(b2.color_at(r2, f2) == b1.color_at(r2, f2));
        if p.name is Queen || p.name is Rook || p.name is Bishop {
            // Every square strictly between two squares of the board is on
            // the board itself, so the colors along the path agree too.
            assert forall|j: int| 1 <= j < chebyshev(r1, f1, r2, f2) implies b2.color_at(
                #[trigger] toward(r1, r2, j),
                toward(f1, f2, j),
            ) is Empty by {
                assert(on_board(toward(r1, r2, j), toward(f1, f2, j)));
                assert(b1.color_at(toward(r1, r2, j), toward(f1, f2, j)) is Empty);
            }
        }
        if p.name is Pawn {
            let d = pawn_dir(p.color);
            if on_board(r1 + d, f1) {
                assert(b2.color_at(r1 + d, f1) == b1.color_at(r1 + d, f1));
            }
        }
    }
}

} // verus!
