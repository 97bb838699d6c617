//! Piece mobility evaluation for HCE (Handcrafted Evaluation).
//!
//! Mobility measures how many safe squares each piece can reach. Pieces with
//! greater freedom of movement receive a bonus proportional to their mobility.
//! Safe squares exclude friendly-occupied squares and squares controlled by
//! enemy pawns.

use vstd::prelude::*;

use crate::attacks::{bishop_attacks, bishop_sees, knight_attacks, knight_geom, pawn_attacks, pawn_geom, queen_attacks, rook_attacks, rook_sees};
use crate::bitboard::{lemma_popcount_le_64, Bitboard};
use crate::bits::{bit, count_from, lemma_bit_and, lemma_bit_not, lemma_bit_or, lemma_popcount_pred, popcount};
use crate::board::{Board, BoardModel};
use crate::color::Color;
use crate::eval::score::{lemma_pack_roundtrip, scaled, wadd, wsub, Score, S};
use crate::piece_kind::PieceKind;
use crate::square::Square;

verus! {

broadcast use Score::lemma_from_word, Board::lemma_shaped, Bitboard::lemma_from_bits, Square::lemma_range;

/// A piece of kind index `k` (knight, bishop, rook or queen) on `s` attacks
/// `t` over the occupancy `occ`.
pub open spec fn sees(k: int, s: int, t: int, occ: u64) -> bool {
    if k == 1 {
        knight_geom(s, t)
    } else if k == 2 {
        bishop_sees(s, t, occ)
    } else if k == 3 {
        rook_sees(s, t, occ)
    } else if k == 4 {
        rook_sees(s, t, occ) || bishop_sees(s, t, occ)
    } else {
        false
    }
}

/// A pawn of color `c` among `pawns` attacks `t`.
pub open spec fn pawn_covered(pawns: u64, c: Color, t: int) -> bool {
    exists|p: int| #[trigger] bit(pawns, p) && pawn_geom(c, p, t)
}

/// The squares a piece of kind index `k` of color `c` on `s` may count: those it
/// attacks that hold no friendly piece and no enemy pawn covers.
pub open spec fn mobility_pred(m: BoardModel, c: Color, k: int, s: int) -> spec_fn(int) -> bool {
    |t: int| sees(k, s, t, m.occupied) && !bit(m.sides[c.idx()], t)
        && !pawn_covered(m.pieces[0] & m.sides[c.opp().idx()], c.opp(), t)
}

/// Middlegame mobility weight of kind index `k`.
pub open spec fn mobility_mg(k: int) -> i16 {
    if k == 1 {
        4
    } else if k == 2 {
        3
    } else if k == 3 {
        2
    } else {
        1
    }
}

/// Endgame mobility weight of kind index `k`.
pub open spec fn mobility_eg(k: int) -> i16 {
    if k == 1 {
        4
    } else if k == 2 {
        5
    } else if k == 3 {
        3
    } else {
        2
    }
}

/// The mobility word of the pieces of kind index `k` and color `c` on the squares `0..n`.
pub open spec fn mobility_kind(m: BoardModel, c: Color, k: int, n: int) -> i32
    decreases n,
{
    if n <= 0 {
        0
    } else {
        let prev = mobility_kind(m, c, k, n - 1);
        if bit(m.pieces[k] & m.sides[c.idx()], n - 1) {
            wadd(prev, scaled(mobility_mg(k), mobility_eg(k), count_from(mobility_pred(m, c, k, n - 1), 0) as int))
        } else {
            prev
        }
    }
}

/// The mobility word of side `c`: knights, bishops, rooks and queens.
pub open spec fn mobility_side(m: BoardModel, c: Color) -> i32 {
    wadd(wadd(wadd(mobility_kind(m, c, 1, 64), mobility_kind(m, c, 2, 64)), mobility_kind(m, c, 3, 64)), mobility_kind(m, c, 4, 64))
}

/// The mobility word of a position: White's mobility minus Black's.
pub open spec fn mobility_word(m: BoardModel) -> i32 {
    wsub(mobility_side(m, Color::White), mobility_side(m, Color::Black))
}

/// The squares attacked by the pawns `pawns` of `color`.
fn pawn_attack_span(pawns: Bitboard, color: Color) -> (r: Bitboard)
    ensures
        forall|t: int| 0 <= t < 64 ==> (#[trigger] r.has(t) <==> pawn_covered(pawns.view(), color, t)),
{
    let mut acc: u64 = 0;
    let mut s: u8 = 0;
    proof {
        assert forall|t: int| 0 <= t < 64 implies !#[trigger] bit(acc, t) by {
            crate::bits::lemma_bit_zero(t);
        }
    }
    while s < 64
        invariant
            s <= 64,
            forall|t: int| 0 <= t < 64 ==> (#[trigger] bit(acc, t) <==> exists|p: int| 0 <= p < s && #[trigger] bit(pawns.view(), p) && pawn_geom(color, p, t)),
        decreases 64 - s,
    {
        let sq = Square::from_index_unchecked(s);
        if pawns.contains(sq) {
            let att = pawn_attacks(color, sq);
            proof {
                assert forall|t: int| 0 <= t < 64 implies (#[trigger] bit(acc | att.view(), t) <==> exists|p: int| 0 <= p < s + 1 && #[trigger] bit(pawns.view(), p) && pawn_geom(color, p, t)) by {
                    lemma_bit_or(acc, att.view(), t);
                    assert(att.has(t) == pawn_geom(color, s as int, t));
                    if exists|p: int| 0 <= p < s + 1 && #[trigger] bit(pawns.view(), p) && pawn_geom(color, p, t) {
                        let p = choose|p: int| 0 <= p < s + 1 && #[trigger] bit(pawns.view(), p) && pawn_geom(color, p, t);
                        if p < s {
                            assert(bit(acc, t));
                        }
                    }
                }
            }
            acc = acc | att.inner();
        } else {
            proof {
                assert forall|t: int| 0 <= t < 64 implies (#[trigger] bit(acc, t) <==> exists|p: int| 0 <= p < s + 1 && #[trigger] bit(pawns.view(), p) && pawn_geom(color, p, t)) by {
                    if exists|p: int| 0 <= p < s + 1 && #[trigger] bit(pawns.view(), p) && pawn_geom(color, p, t) {
                        let p = choose|p: int| 0 <= p < s + 1 && #[trigger] bit(pawns.view(), p) && pawn_geom(color, p, t);
                        assert(p != s);
                    }
                }
            }
        }
        s = s + 1;
    }
    proof {
        assert forall|t: int| 0 <= t < 64 implies (#[trigger] bit(acc, t) <==> pawn_covered(pawns.view(), color, t)) by {
            if pawn_covered(pawns.view(), color, t) {
                let p = choose|p: int| #[trigger] bit(pawns.view(), p) && pawn_geom(color, p, t);
                assert(0 <= p < 64);
            }
        }
    }
    Bitboard::new(acc)
}

/// The squares attacked by a piece of kind index `k` on `sq`.
pub(crate) fn attacks_of(k: usize, sq: Square, occupied: Bitboard) -> (r: Bitboard)
    requires
        1 <= k <= 4,
    ensures
        forall|t: int| 0 <= t < 64 ==> #[trigger] r.has(t) == sees(k as int, sq.view(), t, occupied.view()),
{
    if k == 1 {
        knight_attacks(sq)
    } else if k == 2 {
        bishop_attacks(sq, occupied)
    } else if k == 3 {
        rook_attacks(sq, occupied)
    } else {
        queen_attacks(sq, occupied)
    }
}

/// The mobility of the pieces of kind index `k` among `pieces`, each weighted by
/// the number of safe squares it attacks.
fn mobility_of_kind(board: &Board, color: Color, k: usize, pieces: Bitboard, safe: Bitboard) -> (r: Score)
    requires
        1 <= k <= 4,
        pieces.view() == board.view().pieces[k as int] & board.view().sides[color.idx()],
        forall|t: int| 0 <= t < 64 ==> #[trigger] safe.has(t) == (!bit(board.view().sides[color.idx()], t)
            && !pawn_covered(board.view().pieces[0] & board.view().sides[color.opp().idx()], color.opp(), t)),
    ensures
        r.view() == mobility_kind(board.view(), color, k as int, 64),
{
    let ghost m = board.view();
    let occupied = board.occupied();
    let (mg, eg): (i16, i16) = if k == 1 {
        (4, 4)
    } else if k == 2 {
        (3, 5)
    } else if k == 3 {
        (2, 3)
    } else {
        (1, 2)
    };
    let weight = S(mg, eg);
    proof {
        lemma_pack_roundtrip(mg, eg);
    }
    let mut score = Score::ZERO();
    let mut s: u8 = 0;
    while s < 64
        invariant
            s <= 64,
            1 <= k <= 4,
            m == board.view(),
            occupied.view() == m.occupied,
            pieces.view() == m.pieces[k as int] & m.sides[color.idx()],
            forall|t: int| 0 <= t < 64 ==> #[trigger] safe.has(t) == (!bit(m.sides[color.idx()], t)
                && !pawn_covered(m.pieces[0] & m.sides[color.opp().idx()], color.opp(), t)),
            mg == mobility_mg(k as int),
            eg == mobility_eg(k as int),
            weight.view() == crate::eval::score::pack(mg, eg),
            crate::eval::score::unpack_mg(weight.view()) == mg,
            crate::eval::score::unpack_eg(weight.view()) == eg,
            score.view() == mobility_kind(m, color, k as int, s as int),
        decreases 64 - s,
    {
        let sq = Square::from_index_unchecked(s);
        if pieces.contains(sq) {
            let att = attacks_of(k, sq, occupied);
            let attacks = att & safe;
            let n = attacks.count();
            proof {
                assert forall|t: int| 0 <= t < 64 implies #[trigger] bit(attacks.view(), t) == mobility_pred(m, color, k as int, s as int)(t) by {
                    lemma_bit_and(att.view(), safe.view(), t);
                    assert(att.has(t) == sees(k as int, s as int, t, m.occupied));
                    assert(safe.has(t) == (!bit(m.sides[color.idx()], t)
                        && !pawn_covered(m.pieces[0] & m.sides[color.opp().idx()], color.opp(), t)));
                }
                lemma_popcount_pred(attacks.view(), mobility_pred(m, color, k as int, s as int));
                lemma_popcount_le_64(attacks.view());
            }
            score = score + weight * (n as i16);
        }
        s = s + 1;
    }
    score
}

/// Mobility of one side: knights, bishops, rooks and queens, each weighted by
/// the number of safe squares it attacks.
fn evaluate_mobility_for_side(board: &Board, color: Color) -> (r: Score)
    ensures
        r.view() == mobility_side(board.view(), color),
{
    let ghost m = board.view();
    let friendly = board.side(color);
    let enemy_pawns = board.pieces(PieceKind::Pawn) & board.side(color.flip());
    let enemy_pawn_attacks = pawn_attack_span(enemy_pawns, color.flip());
    let safe = Bitboard::new(!friendly.inner() & !enemy_pawn_attacks.inner());
    proof {
        assert forall|t: int| 0 <= t < 64 implies #[trigger] safe.has(t) == (!bit(m.sides[color.idx()], t)
            && !pawn_covered(m.pieces[0] & m.sides[color.opp().idx()], color.opp(), t)) by {
            lemma_bit_and(!friendly.view(), !enemy_pawn_attacks.view(), t);
            lemma_bit_not(friendly.view(), t);
            lemma_bit_not(enemy_pawn_attacks.view(), t);
            assert(enemy_pawn_attacks.has(t) == pawn_covered(enemy_pawns.view(), color.opp(), t));
        }
    }
    let knights = mobility_of_kind(board, color, 1, board.pieces(PieceKind::Knight) & friendly, safe);
    let bishops = mobility_of_kind(board, color, 2, board.pieces(PieceKind::Bishop) & friendly, safe);
    let rooks = mobility_of_kind(board, color, 3, board.pieces(PieceKind::Rook) & friendly, safe);
    let queens = mobility_of_kind(board, color, 4, board.pieces(PieceKind::Queen) & friendly, safe);
    knights + bishops + rooks + queens
}

/// Evaluate piece mobility for both sides.
///
/// Returns a [`Score`] from White's perspective: White's mobility bonus minus
/// Black's mobility bonus.
pub fn evaluate_mobility(board: &Board) -> (r: Score)
    ensures
        r.view() == mobility_word(board.view()),
{
    evaluate_mobility_for_side(board, Color::White) - evaluate_mobility_for_side(board, Color::Black)
}

} // verus!

