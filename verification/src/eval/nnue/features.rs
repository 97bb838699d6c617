//! Chess768 feature index mapping for NNUE evaluation.

use vstd::prelude::*;

use crate::color::Color;
use crate::eval::pst::pst_index;
use crate::piece_kind::PieceKind;
use crate::square::Square;

verus! {

/// The feature of a piece of kind `kind` and color `piece_color` on square
/// `s`, seen from `perspective`: 384 for an enemy piece, plus 64 times the
/// kind, plus the square (mirrored vertically for Black's perspective).
pub open spec fn feature(perspective: Color, piece_color: Color, kind: PieceKind, s: int) -> int {
    (if piece_color == perspective { 0int } else { 384int }) + 64 * kind.idx() + pst_index(perspective, s)
}

/// Compute the Chess768 feature index of a piece from a perspective.
pub fn feature_index(perspective: Color, piece_color: Color, kind: PieceKind, sq: Square) -> (r: usize)
    ensures
        r == feature(perspective, piece_color, kind, sq.view()),
        r < 768,
{
    let s = sq.index();
    let sq_index = match perspective {
        Color::White => s,
        Color::Black => {
            assert((s ^ 56) == (7 - s / 8) * 8 + s % 8) by (bit_vector)
                requires
                    s < 64,
            ;
            s ^ 56
        },
    };
    let color_offset: usize = if piece_color == perspective { 0 } else { 384 };
    color_offset + kind.index() * 64 + sq_index
}

} // verus!
