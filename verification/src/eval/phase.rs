//! Game phase calculation based on remaining non-pawn material.

use vstd::prelude::*;

use crate::bitboard::lemma_popcount_le_64;
use crate::bits::popcount;
use crate::board::{Board, BoardModel};
use crate::piece_kind::PieceKind;

verus! {

/// Maximum game phase value, corresponding to a full starting-position complement
/// of non-pawn material.
///
/// Weights: Knight=1, Bishop=1, Rook=2, Queen=4.
/// Starting totals: 4×1 + 4×1 + 4×2 + 2×4 = 24.
pub const MAX_PHASE: i32 = 24;

/// The phase of a position: knights and bishops weigh one, rooks two, queens
/// four, capped at [`MAX_PHASE`].
pub open spec fn phase_model(m: BoardModel) -> int {
    let raw = popcount(m.pieces[1]) + popcount(m.pieces[2]) + 2 * popcount(m.pieces[3]) + 4 * popcount(m.pieces[4]);
    if raw < MAX_PHASE {
        raw as int
    } else {
        MAX_PHASE as int
    }
}

/// Calculate the game phase from non-pawn, non-king material on the board.
///
/// Returns a value in `0..=MAX_PHASE`. A value of [`MAX_PHASE`] indicates a
/// full middlegame material set; 0 indicates a pure king-and-pawn ending.
/// The result is clamped so that promoted pieces cannot push the phase above
/// the maximum.
pub fn game_phase(board: &Board) -> (r: i32)
    ensures
        r == phase_model(board.view()),
        0 <= r <= MAX_PHASE,
{
    let knights = board.pieces(PieceKind::Knight).count();
    let bishops = board.pieces(PieceKind::Bishop).count();
    let rooks = board.pieces(PieceKind::Rook).count();
    let queens = board.pieces(PieceKind::Queen).count();
    proof {
        lemma_popcount_le_64(board.view().pieces[1]);
        lemma_popcount_le_64(board.view().pieces[2]);
        lemma_popcount_le_64(board.view().pieces[3]);
        lemma_popcount_le_64(board.view().pieces[4]);
    }
    let phase = (knights as i32) * 1 + (bishops as i32) * 1 + (rooks as i32) * 2 + (queens as i32) * 4;
    if phase < MAX_PHASE {
        phase
    } else {
        MAX_PHASE
    }
}

} // verus!
