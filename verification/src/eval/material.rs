//! Material balance evaluation.
//!
//! Counts weighted piece material for each side and adds a bishop-pair bonus.
//! All scores are returned from White's perspective (positive = White ahead).

use vstd::prelude::*;

use crate::bitboard::lemma_popcount_le_64;
use crate::bitboard::Bitboard;
use crate::bits::popcount;
use crate::board::{Board, BoardModel};
use crate::color::Color;
use crate::eval::score::{lemma_pack_roundtrip, pack, scale_fits, scaled, wadd, wsub, Score, S};
use crate::piece_kind::PieceKind;

verus! {

broadcast use Score::lemma_from_word, Board::lemma_shaped, Bitboard::lemma_from_bits;

/// Middlegame material value of the piece kind with index `k`.
pub open spec fn material_mg(k: int) -> i16 {
    if k == 0 {
        100
    } else if k == 1 {
        320
    } else if k == 2 {
        330
    } else if k == 3 {
        500
    } else if k == 4 {
        900
    } else {
        0
    }
}

/// Endgame material value of the piece kind with index `k`.
pub open spec fn material_eg(k: int) -> i16 {
    if k == 0 {
        120
    } else if k == 1 {
        310
    } else if k == 2 {
        320
    } else if k == 3 {
        520
    } else if k == 4 {
        950
    } else {
        0
    }
}

/// Base material values indexed by [`PieceKind::index()`].
///
/// | Piece  | mg  | eg  |
/// |--------|-----|-----|
/// | Pawn   | 100 | 120 |
/// | Knight | 320 | 310 |
/// | Bishop | 330 | 320 |
/// | Rook   | 500 | 520 |
/// | Queen  | 900 | 950 |
/// | King   |   0 |   0 |
#[allow(non_snake_case)]
pub fn MATERIAL_VALUE() -> (r: [Score; 6])
    ensures
        forall|k: int| 0 <= k < 6 ==> (#[trigger] r@[k]).view() == pack(material_mg(k), material_eg(k)),
{
    [S(100, 120), S(320, 310), S(330, 320), S(500, 520), S(900, 950), S(0, 0)]
}

/// Bonus awarded to a side that has two or more bishops.
#[allow(non_snake_case)]
pub fn BISHOP_PAIR_BONUS() -> (r: Score)
    ensures
        r.view() == pack(50, 60),
{
    S(50, 60)
}

/// The number of pieces of kind index `k` and color index `c`.
pub open spec fn count_of(m: BoardModel, k: int, c: int) -> int {
    popcount(m.pieces[k] & m.sides[c]) as int
}

/// White's surplus of pieces of kind index `k`.
pub open spec fn material_diff(m: BoardModel, k: int) -> int {
    count_of(m, k, 0) - count_of(m, k, 1)
}

/// Every kind's surplus times its value fits in 16 bits (the multiplications
/// of the material count do not overflow).
pub open spec fn material_fits(m: BoardModel) -> bool {
    forall|k: int| 0 <= k < 6 ==> scale_fits(material_mg(k), material_eg(k), #[trigger] material_diff(m, k))
}

/// The material word of the first `n` kinds: each kind's value times White's surplus.
pub open spec fn material_terms(m: BoardModel, n: int) -> i32
    decreases n,
{
    if n <= 0 {
        0
    } else {
        wadd(material_terms(m, n - 1), scaled(material_mg(n - 1), material_eg(n - 1), material_diff(m, n - 1)))
    }
}

/// The material word of a position: the weighted surplus of every kind, plus
/// the bishop-pair bonus for a side with two or more bishops (subtracted for Black).
pub open spec fn material_word(m: BoardModel) -> i32 {
    let base = material_terms(m, 6);
    let with_white = if count_of(m, 2, 0) >= 2 { wadd(base, pack(50, 60)) } else { base };
    if count_of(m, 2, 1) >= 2 {
        wsub(with_white, pack(50, 60))
    } else {
        with_white
    }
}

/// Evaluate material balance from White's perspective.
///
/// For each piece kind the function counts White pieces and Black pieces,
/// accumulates `MATERIAL_VALUE[kind] * (white_count - black_count)`, then
/// applies a [`BISHOP_PAIR_BONUS`] if either side owns two or more bishops.
///
/// Returns a positive score when White has more material, negative when Black does.
pub fn material(board: &Board) -> (r: Score)
    requires
        material_fits(board.view()),
    ensures
        r.view() == material_word(board.view()),
{
    let values = MATERIAL_VALUE();
    let white = board.side(Color::White);
    let black = board.side(Color::Black);
    let mut score = Score::ZERO();
    let mut k: usize = 0;
    while k < 6
        invariant
            k <= 6,
            material_fits(board.view()),
            white.view() == board.view().sides[0],
            black.view() == board.view().sides[1],
            forall|j: int| 0 <= j < 6 ==> (#[trigger] values@[j]).view() == pack(material_mg(j), material_eg(j)),
            score.view() == material_terms(board.view(), k as int),
        decreases 6 - k,
    {
        let piece_bb = board.pieces_by_index(k);
        let white_count = (piece_bb & white).count();
        let black_count = (piece_bb & black).count();
        proof {
            lemma_popcount_le_64(piece_bb.view() & white.view());
            lemma_popcount_le_64(piece_bb.view() & black.view());
            lemma_pack_roundtrip(material_mg(k as int), material_eg(k as int));
            assert(scale_fits(material_mg(k as int), material_eg(k as int), material_diff(board.view(), k as int)));
        }
        let diff = (white_count as i16) - (black_count as i16);
        let term = values[k] * diff;
        score = score + term;
        k = k + 1;
    }
    let white_bishops = (board.pieces(PieceKind::Bishop) & white).count();
    let black_bishops = (board.pieces(PieceKind::Bishop) & black).count();
    if white_bishops >= 2 {
        score = score + BISHOP_PAIR_BONUS();
    }
    if black_bishops >= 2 {
        score = score - BISHOP_PAIR_BONUS();
    }
    score
}

} // verus!
