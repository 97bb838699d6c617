//! Knight and bishop outpost evaluation.
//!
//! An outpost is a square on ranks 4-6 (from the piece's perspective) that
//! cannot be attacked by enemy pawns (no enemy pawns on adjacent files that
//! could advance to attack the square).

use vstd::prelude::*;

use crate::attacks::pawn_attacks;
use crate::bitboard::{rank_bits, Bitboard};
use crate::bits::{bit, lemma_and_zero, lemma_bit_and, lemma_bit_or, lemma_bit_rank};
use crate::board::{Board, BoardModel};
use crate::color::Color;
use crate::eval::king_safety::pawns_of;
use crate::eval::pawns::{adjacent_files, ahead_of, is_supported, near_file, passed_pawn_mask, side_file};
use crate::eval::score::{pack, wadd, wsub, Score, S};
use crate::piece_kind::PieceKind;
use crate::square::{file_of, rank_of, Square};

verus! {

broadcast use Score::lemma_from_word, Board::lemma_shaped, Bitboard::lemma_from_bits, Square::lemma_range;

/// The square `s` is on an outpost rank for `c`: ranks 4-6 for White, 3-5 for Black.
pub open spec fn outpost_rank(c: Color, s: int) -> bool {
    if c == Color::White {
        3 <= rank_of(s) <= 5
    } else {
        2 <= rank_of(s) <= 4
    }
}

/// No enemy pawn on a neighbouring file ahead of `s` can ever attack it.
pub open spec fn is_outpost(enemy: u64, c: Color, s: int) -> bool {
    !exists|t: int| #[trigger] bit(enemy, t) && side_file(s, t) && ahead_of(c, s, t)
}

/// The outpost bonus of a piece of kind index `k` (knight 1, bishop 2): the
/// supported bonus when a friendly pawn defends the square.
pub open spec fn outpost_bonus(k: int, supported: bool) -> i32 {
    if k == 1 {
        if supported { pack(30, 20) } else { pack(20, 15) }
    } else {
        if supported { pack(18, 12) } else { pack(10, 8) }
    }
}

/// The outpost word of the pieces of kind index `k` and side `c` on the squares `0..n`.
pub open spec fn outpost_terms(m: BoardModel, c: Color, k: int, n: int) -> i32
    decreases n,
{
    if n <= 0 {
        0
    } else {
        let prev = outpost_terms(m, c, k, n - 1);
        let s = n - 1;
        if bit(m.pieces[k] & m.sides[c.idx()], s) && outpost_rank(c, s) && is_outpost(pawns_of(m, c.opp()), c, s) {
            wadd(prev, outpost_bonus(k, is_supported(pawns_of(m, c), c, s)))
        } else {
            prev
        }
    }
}

/// The outpost word of a position: White's knights and bishops minus Black's.
pub open spec fn outposts_word(m: BoardModel) -> i32 {
    wsub(wadd(outpost_terms(m, Color::White, 1, 64), outpost_terms(m, Color::White, 2, 64)),
        wadd(outpost_terms(m, Color::Black, 1, 64), outpost_terms(m, Color::Black, 2, 64)))
}

/// The outpost ranks of `color`.
fn outpost_ranks(color: Color) -> (r: Bitboard)
    ensures
        forall|t: int| 0 <= t < 64 ==> #[trigger] r.has(t) == outpost_rank(color, t),
{
    let (a, b, c) = match color {
        Color::White => (Bitboard::RANK_4(), Bitboard::RANK_5(), Bitboard::RANK_6()),
        Color::Black => (Bitboard::RANK_3(), Bitboard::RANK_4(), Bitboard::RANK_5()),
    };
    let r = a | b | c;
    proof {
        assert forall|t: int| 0 <= t < 64 implies #[trigger] r.has(t) == outpost_rank(color, t) by {
            lemma_bit_or(a.view() | b.view(), c.view(), t);
            lemma_bit_or(a.view(), b.view(), t);
            lemma_bit_rank(2, t);
            lemma_bit_rank(3, t);
            lemma_bit_rank(4, t);
            lemma_bit_rank(5, t);
        }
    }
    r
}

/// Whether `sq` is an outpost for `color`: no enemy pawn on a neighbouring
/// file stands ahead of it.
fn is_outpost_square(sq: Square, color: Color, enemy_pawns: Bitboard) -> (r: bool)
    ensures
        r == is_outpost(enemy_pawns.view(), color, sq.view()),
{
    let mask = passed_pawn_mask(color, sq);
    let adj = adjacent_files(sq.index() % 8);
    let relevant = mask & adj;
    let r = (relevant & enemy_pawns).is_empty();
    proof {
        let s = sq.view();
        let enemy = enemy_pawns.view();
        lemma_and_zero(relevant.view(), enemy);
        assert forall|t: int| 0 <= t < 64 implies #[trigger] relevant.has(t) == (side_file(s, t) && ahead_of(color, s, t)) by {
            lemma_bit_and(mask.view(), adj.view(), t);
            assert(mask.has(t) == (near_file(s, t) && ahead_of(color, s, t)));
            assert(adj.has(t) == (crate::attacks::abs(file_of(t) - file_of(s)) == 1));
        }
        if !r {
            let t = choose|t: int| 0 <= t < 64 && !!(#[trigger] bit(relevant.view(), t) && bit(enemy, t));
            assert(relevant.has(t));
            assert(bit(enemy, t) && side_file(s, t) && ahead_of(color, s, t));
        } else {
            assert forall|t: int| #[trigger] bit(enemy, t) && side_file(s, t) && ahead_of(color, s, t) implies false by {
                assert(relevant.has(t) == (side_file(s, t) && ahead_of(color, s, t)));
            }
        }
    }
    r
}

/// The outpost terms of the pieces of kind index `k` (knight 1 or bishop 2) of `color`.
fn outposts_of_kind(board: &Board, color: Color, k: usize) -> (r: Score)
    requires
        k == 1 || k == 2,
    ensures
        r.view() == outpost_terms(board.view(), color, k as int, 64),
{
    let ghost m = board.view();
    let friendly = board.side(color);
    let friendly_pawns = board.pieces(PieceKind::Pawn) & friendly;
    let enemy_pawns = board.pieces(PieceKind::Pawn) & board.side(color.flip());
    let eligible = outpost_ranks(color);
    let pieces = board.pieces_by_index(k) & friendly;
    let mut score = Score::ZERO();
    let mut s: u8 = 0;
    while s < 64
        invariant
            s <= 64,
            k == 1 || k == 2,
            m == board.view(),
            pieces.view() == m.pieces[k as int] & m.sides[color.idx()],
            friendly_pawns.view() == pawns_of(m, color),
            enemy_pawns.view() == pawns_of(m, color.opp()),
            forall|t: int| 0 <= t < 64 ==> #[trigger] eligible.has(t) == outpost_rank(color, t),
            score.view() == outpost_terms(m, color, k as int, s as int),
        decreases 64 - s,
    {
        let sq = Square::from_index_unchecked(s);
        assert(eligible.has(s as int) == outpost_rank(color, s as int));
        if pieces.contains(sq) && eligible.contains(sq) && is_outpost_square(sq, color, enemy_pawns) {
            let guards = pawn_attacks(color.flip(), sq);
            let supported = (guards & friendly_pawns).is_nonempty();
            proof {
                let fp = friendly_pawns.view();
                lemma_and_zero(guards.view(), fp);
                if supported {
                    let t = choose|t: int| 0 <= t < 64 && !!(#[trigger] bit(guards.view(), t) && bit(fp, t));
                    assert(guards.has(t));
                    assert(bit(fp, t) && crate::attacks::pawn_geom(color.opp(), s as int, t));
                } else {
                    assert forall|t: int| #[trigger] bit(fp, t) && crate::attacks::pawn_geom(color.opp(), s as int, t) implies false by {
                        assert(guards.has(t) == crate::attacks::pawn_geom(color.opp(), s as int, t));
                    }
                }
                assert(supported == is_supported(fp, color, s as int));
            }
            let bonus = if k == 1 {
                if supported { S(30, 20) } else { S(20, 15) }
            } else {
                if supported { S(18, 12) } else { S(10, 8) }
            };
            score = score + bonus;
        }
        s = s + 1;
    }
    score
}

/// The outpost terms of one side: its knights, then its bishops.
fn evaluate_outposts_for_side(board: &Board, color: Color) -> (r: Score)
    ensures
        r.view() == wadd(outpost_terms(board.view(), color, 1, 64), outpost_terms(board.view(), color, 2, 64)),
{
    outposts_of_kind(board, color, 1) + outposts_of_kind(board, color, 2)
}

/// Evaluate knight and bishop outposts for both sides.
///
/// Returns a [`Score`] from White's perspective.
pub fn evaluate_outposts(board: &Board) -> (r: Score)
    ensures
        r.view() == outposts_word(board.view()),
{
    evaluate_outposts_for_side(board, Color::White) - evaluate_outposts_for_side(board, Color::Black)
}

} // verus!
