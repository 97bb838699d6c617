//! Piece-square tables (PST) for all six piece types.
//!
//! All tables are defined from White's perspective in LERF order:
//! index 0 = A1, index 7 = H1, index 8 = A2, ..., index 63 = H8.
//! Each entry is a `(middlegame, endgame)` pair.
//! Use [`pst_value`] to look up the value for either color.

use vstd::prelude::*;

use crate::bitboard::Bitboard;
use crate::bits::bit;
use crate::board::{Board, BoardModel};
use crate::color::Color;
use crate::eval::score::{pack, wadd, wsub, Score};
use crate::piece_kind::PieceKind;
use crate::square::Square;

verus! {

broadcast use Score::lemma_from_word, Board::lemma_shaped, Bitboard::lemma_from_bits;

/// Pawn PST. Rank 1 and rank 8 entries are zero — pawns never sit there.
pub const PAWN_PST: [(i16, i16); 64] = [
    // Rank 1 (indices 0-7) — never used
    (0, 0),    (0, 0),    (0, 0),    (0, 0),    (0, 0),    (0, 0),    (0, 0),    (0, 0),
    // Rank 2 (indices 8-15)
    (5, -5),   (10, -5),  (10, -10), (-20, -10),(-20, -10),(10, -10), (10, -5),  (5, -5),
    // Rank 3 (indices 16-23)
    (5, 0),    (-5, 0),   (-10, 0),  (0, 5),    (0, 5),    (-10, 0),  (-5, 0),   (5, 0),
    // Rank 4 (indices 24-31)
    (0, 5),    (0, 5),    (0, 5),    (20, 20),  (20, 20),  (0, 5),    (0, 5),    (0, 5),
    // Rank 5 (indices 32-39)
    (5, 10),   (5, 10),   (10, 15),  (25, 25),  (25, 25),  (10, 15),  (5, 10),   (5, 10),
    // Rank 6 (indices 40-47)
    (10, 20),  (10, 20),  (20, 30),  (30, 30),  (30, 30),  (20, 30),  (10, 20),  (10, 20),
    // Rank 7 (indices 48-55)
    (100, 200),(100, 200),(100, 200),(100, 200),(100, 200),(100, 200),(100, 200),(100, 200),
    // Rank 8 (indices 56-63) — never used
    (0, 0),    (0, 0),    (0, 0),    (0, 0),    (0, 0),    (0, 0),    (0, 0),    (0, 0),
];

/// Knight PST.
pub const KNIGHT_PST: [(i16, i16); 64] = [
    // Rank 1 (indices 0-7)
    (-50, -50),(-40, -40),(-30, -30),(-30, -30),(-30, -30),(-30, -30),(-40, -40),(-50, -50),
    // Rank 2 (indices 8-15)
    (-40, -40),(-20, -20),(0, 0),    (5, 5),    (5, 5),    (0, 0),    (-20, -20),(-40, -40),
    // Rank 3 (indices 16-23)
    (-30, -30),(5, 0),    (10, 10),  (15, 15),  (15, 15),  (10, 10),  (5, 0),    (-30, -30),
    // Rank 4 (indices 24-31)
    (-30, -20),(0, 5),    (15, 15),  (20, 20),  (20, 20),  (15, 15),  (0, 5),    (-30, -20),
    // Rank 5 (indices 32-39)
    (-30, -20),(5, 5),    (15, 15),  (20, 20),  (20, 20),  (15, 15),  (5, 5),    (-30, -20),
    // Rank 6 (indices 40-47)
    (-30, -30),(0, 0),    (10, 10),  (15, 15),  (15, 15),  (10, 10),  (0, 0),    (-30, -30),
    // Rank 7 (indices 48-55)
    (-40, -40),(-20, -20),(0, 0),    (0, 0),    (0, 0),    (0, 0),    (-20, -20),(-40, -40),
    // Rank 8 (indices 56-63)
    (-50, -50),(-40, -40),(-30, -30),(-30, -30),(-30, -30),(-30, -30),(-40, -40),(-50, -50),
];

/// Bishop PST.
pub const BISHOP_PST: [(i16, i16); 64] = [
    // Rank 1 (indices 0-7)
    (-20, -20),(-10, -10),(-10, -10),(-10, -10),(-10, -10),(-10, -10),(-10, -10),(-20, -20),
    // Rank 2 (indices 8-15)
    (-10, -10),(5, 0),    (0, 0),    (0, 0),    (0, 0),    (0, 0),    (5, 0),    (-10, -10),
    // Rank 3 (indices 16-23)
    (-10, -10),(5, 5),    (5, 5),    (5, 5),    (5, 5),    (5, 5),    (5, 5),    (-10, -10),
    // Rank 4 (indices 24-31)
    (-10, -5), (5, 0),    (5, 5),    (10, 10),  (10, 10),  (5, 5),    (5, 0),    (-10, -5),
    // Rank 5 (indices 32-39)
    (-10, -5), (0, 0),    (5, 10),   (10, 10),  (10, 10),  (5, 10),   (0, 0),    (-10, -5),
    // Rank 6 (indices 40-47)
    (-10, -5), (10, 5),   (0, 0),    (5, 5),    (5, 5),    (0, 0),    (10, 5),   (-10, -5),
    // Rank 7 (indices 48-55)
    (-10, -10),(0, 0),    (0, 0),    (0, 0),    (0, 0),    (0, 0),    (0, 0),    (-10, -10),
    // Rank 8 (indices 56-63)
    (-20, -20),(-10, -10),(-10, -10),(-10, -10),(-10, -10),(-10, -10),(-10, -10),(-20, -20),
];

/// Rook PST.
pub const ROOK_PST: [(i16, i16); 64] = [
    // Rank 1 (indices 0-7)
    (0, 0),   (0, 0),   (0, 5),   (5, 5),   (5, 5),   (0, 5),   (0, 0),   (0, 0),
    // Rank 2 (indices 8-15)
    (-5, 0),  (0, 5),   (0, 5),   (0, 5),   (0, 5),   (0, 5),   (0, 5),   (-5, 0),
    // Rank 3 (indices 16-23)
    (-5, 0),  (0, 0),   (0, 0),   (0, 0),   (0, 0),   (0, 0),   (0, 0),   (-5, 0),
    // Rank 4 (indices 24-31)
    (-5, 0),  (0, 0),   (0, 0),   (0, 0),   (0, 0),   (0, 0),   (0, 0),   (-5, 0),
    // Rank 5 (indices 32-39)
    (-5, 0),  (0, 0),   (0, 0),   (0, 0),   (0, 0),   (0, 0),   (0, 0),   (-5, 0),
    // Rank 6 (indices 40-47)
    (-5, 0),  (0, 0),   (0, 0),   (0, 0),   (0, 0),   (0, 0),   (0, 0),   (-5, 0),
    // Rank 7 (indices 48-55)
    (5, 10),  (10, 10), (10, 10), (10, 10), (10, 10), (10, 10), (10, 10), (5, 10),
    // Rank 8 (indices 56-63)
    (0, 5),   (0, 5),   (0, 5),   (0, 5),   (0, 5),   (0, 5),   (0, 5),   (0, 5),
];

/// Queen PST.
pub const QUEEN_PST: [(i16, i16); 64] = [
    // Rank 1 (indices 0-7)
    (-20, -20),(-10, -10),(-10, -10),(-5, -5), (-5, -5), (-10, -10),(-10, -10),(-20, -20),
    // Rank 2 (indices 8-15)
    (-10, -10),(0, 0),    (5, 0),    (0, 0),   (0, 0),   (5, 0),    (0, 0),    (-10, -10),
    // Rank 3 (indices 16-23)
    (-10, -5), (5, 5),    (5, 5),    (5, 5),   (5, 5),   (5, 5),    (5, 5),    (-10, -5),
    // Rank 4 (indices 24-31)
    (0, 0),    (0, 5),    (5, 5),    (5, 10),  (5, 10),  (5, 5),    (0, 5),    (0, 0),
    // Rank 5 (indices 32-39)
    (-5, 0),   (0, 5),    (5, 5),    (5, 10),  (5, 10),  (5, 5),    (0, 5),    (-5, 0),
    // Rank 6 (indices 40-47)
    (-10, -5), (0, 5),    (5, 5),    (5, 5),   (5, 5),   (5, 5),    (0, 5),    (-10, -5),
    // Rank 7 (indices 48-55)
    (-10, -10),(0, 0),    (0, 0),    (0, 0),   (0, 0),   (0, 0),    (0, 0),    (-10, -10),
    // Rank 8 (indices 56-63)
    (-20, -20),(-10, -10),(-10, -10),(-5, 0),  (-5, 0),  (-10, -10),(-10, -10),(-20, -20),
];

/// King PST. Middlegame values reward castled corners; endgame values reward centralization.
pub const KING_PST: [(i16, i16); 64] = [
    // Rank 1 (indices 0-7)
    (20, -20), (30, -10), (10, 0),   (0, 0),   (0, 0),   (10, 0),   (30, -10), (20, -20),
    // Rank 2 (indices 8-15)
    (20, -5),  (20, 0),   (0, 5),    (0, 5),   (0, 5),   (0, 5),    (20, 0),   (20, -5),
    // Rank 3 (indices 16-23)
    (-10, 5),  (-20, 10), (-20, 10), (-20, 10),(-20, 10),(-20, 10), (-20, 10), (-10, 5),
    // Rank 4 (indices 24-31)
    (-20, 0),  (-30, 10), (-30, 10), (-40, 10),(-40, 10),(-30, 10), (-30, 10), (-20, 0),
    // Rank 5 (indices 32-39)
    (-30, -10),(-40, 0),  (-40, 0),  (-50, 10),(-50, 10),(-40, 0),  (-40, 0),  (-30, -10),
    // Rank 6 (indices 40-47)
    (-30, -20),(-40, -10),(-40, -10),(-50, -10),(-50, -10),(-40, -10),(-40, -10),(-30, -20),
    // Rank 7 (indices 48-55)
    (-30, -30),(-40, -20),(-40, -20),(-50, -20),(-50, -20),(-40, -20),(-40, -20),(-30, -30),
    // Rank 8 (indices 56-63)
    (-30, -50),(-40, -30),(-40, -30),(-50, -30),(-50, -30),(-40, -30),(-40, -30),(-30, -50),
];

/// The table entry of kind index `k` at (White-relative) square index `i`.
pub open spec fn pst_entry(k: int, i: int) -> (i16, i16) {
    if k == 0 {
        PAWN_PST[i]
    } else if k == 1 {
        KNIGHT_PST[i]
    } else if k == 2 {
        BISHOP_PST[i]
    } else if k == 3 {
        ROOK_PST[i]
    } else if k == 4 {
        QUEEN_PST[i]
    } else {
        KING_PST[i]
    }
}

/// The table square of `s` for `color`: itself for White, mirrored vertically
/// (`s ^ 56`, the same file on the opposite rank) for Black.
pub open spec fn pst_index(color: Color, s: int) -> int {
    match color {
        Color::White => s,
        Color::Black => (7 - s / 8) * 8 + s % 8,
    }
}

/// The packed PST word of a piece of kind index `k` and `color` on square `s`.
pub open spec fn pst_word(k: int, color: Color, s: int) -> i32 {
    let e = pst_entry(k, pst_index(color, s));
    pack(e.0, e.1)
}

/// Look up the PST bonus for a piece of the given kind and color on `sq`.
///
/// For Black pieces the square is mirrored vertically (`sq ^ 56`) so that the
/// tables, which are defined from White's perspective, apply symmetrically.
pub fn pst_value(kind: PieceKind, color: Color, sq: Square) -> (r: Score)
    ensures
        r.view() == pst_word(kind.idx(), color, sq.view()),
{
    let s = sq.index();
    let idx = match color {
        Color::White => s,
        Color::Black => {
            assert((s ^ 56) == (7 - s / 8) * 8 + s % 8) by (bit_vector)
                requires
                    s < 64,
            ;
            s ^ 56
        },
    };
    let e = match kind {
        PieceKind::Pawn => PAWN_PST[idx],
        PieceKind::Knight => KNIGHT_PST[idx],
        PieceKind::Bishop => BISHOP_PST[idx],
        PieceKind::Rook => ROOK_PST[idx],
        PieceKind::Queen => QUEEN_PST[idx],
        PieceKind::King => KING_PST[idx],
    };
    Score::new(e.0, e.1)
}

/// The PST words of the pieces of kind index `k` and `color` among the
/// squares `0..n` of `x`, summed.
pub open spec fn pst_side_sum(x: u64, k: int, color: Color, n: int) -> i32
    decreases n,
{
    if n <= 0 {
        0
    } else if bit(x, n - 1) {
        wadd(pst_side_sum(x, k, color, n - 1), pst_word(k, color, n - 1))
    } else {
        pst_side_sum(x, k, color, n - 1)
    }
}

/// The PST balance of the first `n` kinds: White's PST words added, Black's subtracted.
pub open spec fn pst_terms(m: BoardModel, n: int) -> i32
    decreases n,
{
    if n <= 0 {
        0
    } else {
        let k = n - 1;
        let with_white = wadd(pst_terms(m, k), pst_side_sum(m.pieces[k] & m.sides[0], k, Color::White, 64));
        wsub(with_white, pst_side_sum(m.pieces[k] & m.sides[1], k, Color::Black, 64))
    }
}

/// The sum of the PST values of the pieces of `kind` and `color` on `pieces`.
fn pst_side(pieces: Bitboard, kind: PieceKind, color: Color) -> (r: Score)
    ensures
        r.view() == pst_side_sum(pieces.view(), kind.idx(), color, 64),
{
    let mut acc = Score::ZERO();
    let mut s: u8 = 0;
    while s < 64
        invariant
            s <= 64,
            acc.view() == pst_side_sum(pieces.view(), kind.idx(), color, s as int),
        decreases 64 - s,
    {
        let sq = Square::from_index_unchecked(s);
        if pieces.contains(sq) {
            acc = acc + pst_value(kind, color, sq);
        }
        s = s + 1;
    }
    acc
}

/// Sum piece-square table values for all pieces on the board.
///
/// White pieces contribute positively; Black pieces contribute negatively.
pub fn pst_total(board: &Board) -> (r: Score)
    ensures
        r.view() == pst_terms(board.view(), 6),
{
    let white = board.side(Color::White);
    let black = board.side(Color::Black);
    let mut score = Score::ZERO();
    let mut k: usize = 0;
    while k < 6
        invariant
            k <= 6,
            white.view() == board.view().sides[0],
            black.view() == board.view().sides[1],
            score.view() == pst_terms(board.view(), k as int),
        decreases 6 - k,
    {
        let kind = PieceKind::ALL[k];
        assert(kind.idx() == k);
        let piece_bb = board.pieces(kind);
        score = score + pst_side(piece_bb & white, kind, Color::White);
        score = score - pst_side(piece_bb & black, kind, Color::Black);
        k = k + 1;
    }
    score
}

} // verus!
