//! Rook evaluation: open files, semi-open files, and rook on 7th rank.

use vstd::prelude::*;

use crate::bitboard::{file_bits, rank_bits, Bitboard};
use crate::bits::{bit, lemma_and_zero, lemma_bit_rank};
use crate::board::{Board, BoardModel};
use crate::color::Color;
use crate::eval::king_safety::pawns_of;
use crate::eval::score::{pack, wadd, wsub, Score, S};
use crate::piece_kind::PieceKind;
use crate::square::{file_of, rank_of, Square};

verus! {

broadcast use Score::lemma_from_word, Board::lemma_shaped, Bitboard::lemma_from_bits, Square::lemma_range;

/// The seventh rank from `c`'s side (rank index 6 for White, 1 for Black).
pub open spec fn seventh_rank(c: Color) -> int {
    if c == Color::White {
        6
    } else {
        1
    }
}

/// The score word after adding the terms of a rook of `c` on `s` to `acc`: the
/// open-file (no pawns) or semi-open-file (no friendly pawns) bonus, then the
/// seventh-rank bonus.
pub open spec fn rook_step(acc: i32, m: BoardModel, c: Color, s: int) -> i32 {
    let mask = file_bits(file_of(s));
    let a1 = if mask & m.pieces[0] == 0 {
        wadd(acc, pack(25, 15))
    } else if mask & pawns_of(m, c) == 0 {
        wadd(acc, pack(15, 10))
    } else {
        acc
    };
    if rank_of(s) == seventh_rank(c) {
        wadd(a1, pack(20, 30))
    } else {
        a1
    }
}

/// The rook word of side `c` over the squares `0..n`.
pub open spec fn rook_terms(m: BoardModel, c: Color, n: int) -> i32
    decreases n,
{
    if n <= 0 {
        0
    } else {
        let prev = rook_terms(m, c, n - 1);
        if bit(m.pieces[3] & m.sides[c.idx()], n - 1) {
            rook_step(prev, m, c, n - 1)
        } else {
            prev
        }
    }
}

/// The rook word of a position: White's rook terms minus Black's.
pub open spec fn rooks_word(m: BoardModel) -> i32 {
    wsub(rook_terms(m, Color::White, 64), rook_terms(m, Color::Black, 64))
}

/// The rook terms of one side.
fn evaluate_rooks_for_side(board: &Board, color: Color) -> (r: Score)
    ensures
        r.view() == rook_terms(board.view(), color, 64),
{
    let ghost m = board.view();
    let rooks = board.pieces(PieceKind::Rook) & board.side(color);
    let all_pawns = board.pieces(PieceKind::Pawn);
    let friendly_pawns = all_pawns & board.side(color);
    let seventh = match color {
        Color::White => Bitboard::RANK_7(),
        Color::Black => Bitboard::RANK_2(),
    };
    let files = Bitboard::FILES();
    let mut score = Score::ZERO();
    let mut s: u8 = 0;
    while s < 64
        invariant
            s <= 64,
            m == board.view(),
            rooks.view() == m.pieces[3] & m.sides[color.idx()],
            all_pawns.view() == m.pieces[0],
            friendly_pawns.view() == pawns_of(m, color),
            seventh.view() == rank_bits(seventh_rank(color)),
            forall|i: int| 0 <= i < 8 ==> (#[trigger] files@[i]).view() == file_bits(i),
            score.view() == rook_terms(m, color, s as int),
        decreases 64 - s,
    {
        let sq = Square::from_index_unchecked(s);
        if rooks.contains(sq) {
            let file_mask = files[sq.index() % 8];
            if (file_mask & all_pawns).is_empty() {
                score = score + S(25, 15);
            } else if (file_mask & friendly_pawns).is_empty() {
                score = score + S(15, 10);
            }
            let own = sq.bitboard();
            let on_seventh = (own & seventh).is_nonempty();
            proof {
                lemma_and_zero(own.view(), seventh.view());
                lemma_bit_rank(seventh_rank(color), s as int);
                if on_seventh {
                    let t = choose|t: int| 0 <= t < 64 && !!(#[trigger] bit(own.view(), t) && bit(seventh.view(), t));
                    assert(own.has(t) == (t == s));
                    lemma_bit_rank(seventh_rank(color), t);
                } else {
                    assert(own.has(s as int) == (s == s));
                }
                assert(on_seventh == (rank_of(s as int) == seventh_rank(color)));
            }
            if on_seventh {
                score = score + S(20, 30);
            }
        }
        s = s + 1;
    }
    score
}

/// Evaluate rooks for both sides: open and semi-open files and the seventh rank.
///
/// Returns a [`Score`] from White's perspective.
pub fn evaluate_rooks(board: &Board) -> (r: Score)
    ensures
        r.view() == rooks_word(board.view()),
{
    evaluate_rooks_for_side(board, Color::White) - evaluate_rooks_for_side(board, Color::Black)
}

} // verus!
