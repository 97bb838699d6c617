//! Pawn structure evaluation: doubled, isolated, backward, connected and
//! passed pawns.
//!
//! All scores are returned from White's perspective (positive = White better).

use vstd::prelude::*;

use crate::attacks::{abs, pawn_attacks, pawn_geom};
use crate::bitboard::{file_bits, lemma_popcount_le_64, rank_bits, Bitboard};
use crate::bits::{bit, lemma_and_zero, lemma_bit_file, lemma_bit_or, lemma_bit_rank, popcount};
use crate::board::{opt_sq, Board, BoardModel};
use crate::color::Color;
use crate::eval::score::{pack, scaled, wadd, wsub, Score, S};
use crate::piece_kind::PieceKind;
use crate::square::{file_of, rank_of, Square};

verus! {

broadcast use Score::lemma_from_word, Board::lemma_shaped, Bitboard::lemma_from_bits, Square::lemma_range;

/// Passed pawn bonus indexed by the pawn's rank from its own side (0 = back rank).
pub const PASSED_PAWN_BONUS: [(i16, i16); 7] = [
    (0, 0),      // rank 1 — impossible for a pawn
    (5, 10),     // rank 2 — starting rank
    (10, 20),    // rank 3
    (20, 40),    // rank 4
    (40, 70),    // rank 5
    (70, 120),   // rank 6
    (100, 200),  // rank 7 — one step from promotion
];

/// `t` lies on the file of `s` or on a neighbouring file.
pub open spec fn near_file(s: int, t: int) -> bool {
    abs(file_of(t) - file_of(s)) <= 1
}

/// `t` lies on a file next to the file of `s`.
pub open spec fn side_file(s: int, t: int) -> bool {
    abs(file_of(t) - file_of(s)) == 1
}

/// `t` is on a rank strictly ahead of `s` from `color`'s point of view.
pub open spec fn ahead_of(color: Color, s: int, t: int) -> bool {
    if color == Color::White {
        rank_of(t) > rank_of(s)
    } else {
        rank_of(t) < rank_of(s)
    }
}

/// The rank of `s` counted from `color`'s back rank.
pub open spec fn relative_rank(color: Color, s: int) -> int {
    if color == Color::White {
        rank_of(s)
    } else {
        7 - rank_of(s)
    }
}

/// No enemy pawn stands ahead of `s` on its own or a neighbouring file.
pub open spec fn is_passed(enemy: u64, color: Color, s: int) -> bool {
    !exists|t: int| #[trigger] bit(enemy, t) && near_file(s, t) && ahead_of(color, s, t)
}

/// A friendly pawn defends `s` (stands diagonally behind it).
pub open spec fn is_supported(friendly: u64, color: Color, s: int) -> bool {
    exists|t: int| #[trigger] bit(friendly, t) && pawn_geom(color.opp(), s, t)
}

/// No friendly pawn stands on a neighbouring file of `s`.
pub open spec fn is_isolated(friendly: u64, s: int) -> bool {
    !exists|t: int| #[trigger] bit(friendly, t) && side_file(s, t)
}

/// A friendly pawn on a neighbouring file is level with or behind `s`.
pub open spec fn has_rear_support(friendly: u64, color: Color, s: int) -> bool {
    exists|t: int| #[trigger] bit(friendly, t) && side_file(s, t) && !ahead_of(color, s, t)
}

/// The square in front of a pawn of `color` on `s`, if it is on the board.
pub open spec fn stop_sq(color: Color, s: int) -> Option<int> {
    if color == Color::White {
        if s + 8 < 64 {
            Some(s + 8)
        } else {
            None
        }
    } else {
        if s < 8 {
            None
        } else {
            Some(s - 8)
        }
    }
}

/// An enemy pawn attacks square `st`.
pub open spec fn pawn_guarded(enemy: u64, color: Color, st: int) -> bool {
    exists|t: int| #[trigger] bit(enemy, t) && pawn_geom(color, st, t)
}

/// The pawn on `s` has no support behind and its stop square is guarded by an enemy pawn.
pub open spec fn is_backward(friendly: u64, enemy: u64, color: Color, s: int) -> bool {
    &&& !has_rear_support(friendly, color, s)
    &&& stop_sq(color, s) matches Some(st) && pawn_guarded(enemy, color, st)
}

/// The score word after adding the terms of the pawn on `s` to `acc`: the
/// passed bonus (plus the supported bonus), then either the isolated penalty or
/// the backward penalty and the connected bonus.
pub open spec fn pawn_step(acc: i32, friendly: u64, enemy: u64, color: Color, s: int) -> i32 {
    let b = PASSED_PAWN_BONUS[relative_rank(color, s)];
    let a1 = if is_passed(enemy, color, s) {
        let x = wadd(acc, pack(b.0, b.1));
        if is_supported(friendly, color, s) {
            wadd(x, pack(15, 25))
        } else {
            x
        }
    } else {
        acc
    };
    if is_isolated(friendly, s) {
        wadd(a1, pack(-10i16, -20i16))
    } else {
        let a2 = if is_backward(friendly, enemy, color, s) { wadd(a1, pack(-15i16, -10i16)) } else { a1 };
        if is_supported(friendly, color, s) {
            wadd(a2, pack(5, 8))
        } else {
            a2
        }
    }
}

/// The doubled-pawn penalties of the files `0..n`: one penalty per pawn beyond
/// the first on each file.
pub open spec fn doubled_terms(friendly: u64, n: int) -> i32
    decreases n,
{
    if n <= 0 {
        0
    } else {
        let count = popcount(file_bits(n - 1) & friendly) as int;
        let prev = doubled_terms(friendly, n - 1);
        if count > 1 {
            wadd(prev, scaled(-10i16, -15i16, count - 1))
        } else {
            prev
        }
    }
}

/// The pawn-structure word of one side: the doubled penalties, then the terms
/// of each pawn on the squares `0..n` in square order.
pub open spec fn pawn_side_terms(friendly: u64, enemy: u64, color: Color, n: int) -> i32
    decreases n,
{
    if n <= 0 {
        doubled_terms(friendly, 8)
    } else {
        let prev = pawn_side_terms(friendly, enemy, color, n - 1);
        if bit(friendly, n - 1) {
            pawn_step(prev, friendly, enemy, color, n - 1)
        } else {
            prev
        }
    }
}

/// No pawn of `color` stands on its promotion rank.
pub open spec fn pawns_below_last_rank(pawns: u64, color: Color) -> bool {
    forall|t: int| #[trigger] bit(pawns, t) ==> relative_rank(color, t) < 7
}

/// The pawn-structure word of a position: White's side minus Black's side.
pub open spec fn pawns_word(m: BoardModel) -> i32 {
    let w = m.pieces[0] & m.sides[0];
    let b = m.pieces[0] & m.sides[1];
    wsub(pawn_side_terms(w, b, Color::White, 64), pawn_side_terms(b, w, Color::Black, 64))
}

/// The bits of the ranks `lo..hi`.
fn rank_span(lo: usize, hi: usize) -> (r: u64)
    requires
        lo <= hi <= 8,
    ensures
        forall|t: int| #[trigger] bit(r, t) == (0 <= t < 64 && lo <= rank_of(t) < hi),
{
    let ranks = Bitboard::RANKS();
    let mut bits: u64 = 0;
    let mut k = lo;
    proof {
        assert forall|t: int| #[trigger] bit(0u64, t) == (0 <= t < 64 && lo <= rank_of(t) < lo) by {
            crate::bits::lemma_bit_zero(t);
        }
    }
    while k < hi
        invariant
            lo <= k <= hi <= 8,
            forall|i: int| 0 <= i < 8 ==> (#[trigger] ranks@[i]).view() == rank_bits(i),
            forall|t: int| #[trigger] bit(bits, t) == (0 <= t < 64 && lo <= rank_of(t) < k),
        decreases hi - k,
    {
        let row = ranks[k].inner();
        proof {
            assert forall|t: int| #[trigger] bit(bits | row, t) == (0 <= t < 64 && lo <= rank_of(t) < k + 1) by {
                lemma_bit_or(bits, row, t);
                lemma_bit_rank(k as int, t);
            }
        }
        bits = bits | row;
        k = k + 1;
    }
    bits
}

/// The squares of the files next to file `f`.
pub(crate) fn adjacent_files(f: usize) -> (r: Bitboard)
    requires
        f < 8,
    ensures
        forall|t: int| #[trigger] r.has(t) == (0 <= t < 64 && abs(file_of(t) - f) == 1),
{
    let files = Bitboard::FILES();
    let mut bits: u64 = 0;
    if f > 0 {
        bits = bits | files[f - 1].inner();
    }
    if f < 7 {
        bits = bits | files[f + 1].inner();
    }
    proof {
        assert forall|t: int| #[trigger] bit(bits, t) == (0 <= t < 64 && abs(file_of(t) - f) == 1) by {
            crate::bits::lemma_bit_zero(t);
            if f > 0 {
                lemma_bit_file(f - 1, t);
                lemma_bit_or(0, file_bits(f - 1), t);
            }
            if f < 7 {
                lemma_bit_file(f + 1, t);
                if f > 0 {
                    lemma_bit_or(0u64 | file_bits(f - 1), file_bits(f + 1), t);
                } else {
                    lemma_bit_or(0u64, file_bits(f + 1), t);
                }
            }
        }
    }
    Bitboard::new(bits)
}

/// The squares ahead of `sq` (from `color`'s side) on its own and the
/// neighbouring files: a pawn on `sq` is passed when no enemy pawn stands there.
pub(crate) fn passed_pawn_mask(color: Color, sq: Square) -> (r: Bitboard)
    ensures
        forall|t: int| #[trigger] r.has(t) == (0 <= t < 64 && near_file(sq.view(), t) && ahead_of(color, sq.view(), t)),
{
    let rank = sq.index() / 8;
    let file = sq.index() % 8;
    let own = Bitboard::FILES()[file];
    let adj = adjacent_files(file);
    let span = own.inner() | adj.inner();
    let rows = match color {
        Color::White => rank_span(rank + 1, 8),
        Color::Black => rank_span(0, rank),
    };
    proof {
        assert forall|t: int| #[trigger] bit(span & rows, t) == (0 <= t < 64 && near_file(sq.view(), t) && ahead_of(color, sq.view(), t)) by {
            crate::bits::lemma_bit_and(span, rows, t);
            lemma_bit_or(own.view(), adj.view(), t);
            lemma_bit_file(file as int, t);
            assert(adj.has(t) == (0 <= t < 64 && abs(file_of(t) - file) == 1));
        }
    }
    Bitboard::new(span & rows)
}

/// The squares on the neighbouring files of `sq` that are level with or
/// behind it (from `color`'s side): where a pawn that could support `sq` stands.
fn rear_span_mask(sq: Square, color: Color) -> (r: Bitboard)
    ensures
        forall|t: int| #[trigger] r.has(t) == (0 <= t < 64 && side_file(sq.view(), t) && !ahead_of(color, sq.view(), t)),
{
    let rank = sq.index() / 8;
    let file = sq.index() % 8;
    let rows = match color {
        Color::White => rank_span(0, rank + 1),
        Color::Black => rank_span(rank, 8),
    };
    let adj = adjacent_files(file);
    proof {
        assert forall|t: int| #[trigger] bit(adj.view() & rows, t) == (0 <= t < 64 && side_file(sq.view(), t) && !ahead_of(color, sq.view(), t)) by {
            crate::bits::lemma_bit_and(adj.view(), rows, t);
            assert(adj.has(t) == (0 <= t < 64 && abs(file_of(t) - file) == 1));
        }
    }
    Bitboard::new(adj.inner() & rows)
}

/// The square in front of a pawn of `color` on `sq`, if it is on the board.
pub(crate) fn stop_square(sq: Square, color: Color) -> (r: Option<Square>)
    ensures
        opt_sq(r) == stop_sq(color, sq.view()),
{
    let idx = sq.index() as u8;
    match color {
        Color::White => Square::from_index(idx + 8),
        Color::Black => {
            if idx < 8 {
                None
            } else {
                Square::from_index(idx - 8)
            }
        },
    }
}

/// Evaluate pawn structure for one side: doubled pawns per file, then for each
/// pawn (lowest square first) the passed, supported, isolated, backward and
/// connected terms.
fn evaluate_pawns_for_side(friendly_pawns: Bitboard, enemy_pawns: Bitboard, color: Color) -> (r: Score)
    requires
        pawns_below_last_rank(friendly_pawns.view(), color),
    ensures
        r.view() == pawn_side_terms(friendly_pawns.view(), enemy_pawns.view(), color, 64),
{
    let ghost friendly = friendly_pawns.view();
    let ghost enemy = enemy_pawns.view();
    let files = Bitboard::FILES();
    let mut score = Score::ZERO();
    let mut f: usize = 0;
    while f < 8
        invariant
            f <= 8,
            friendly == friendly_pawns.view(),
            forall|i: int| 0 <= i < 8 ==> (#[trigger] files@[i]).view() == file_bits(i),
            score.view() == doubled_terms(friendly, f as int),
        decreases 8 - f,
    {
        let count = (files[f] & friendly_pawns).count();
        if count > 1 {
            proof {
                lemma_popcount_le_64(file_bits(f as int) & friendly);
                crate::eval::score::lemma_pack_roundtrip(-10i16, -15i16);
            }
            score = score + S(-10, -15) * ((count - 1) as i16);
        }
        f = f + 1;
    }
    let mut s: u8 = 0;
    while s < 64
        invariant
            s <= 64,
            friendly == friendly_pawns.view(),
            enemy == enemy_pawns.view(),
            pawns_below_last_rank(friendly, color),
            score.view() == pawn_side_terms(friendly, enemy, color, s as int),
        decreases 64 - s,
    {
        let sq = Square::from_index_unchecked(s);
        if friendly_pawns.contains(sq) {
            score = pawn_terms(score, friendly_pawns, enemy_pawns, color, sq);
        }
        s = s + 1;
    }
    score
}

/// Add the terms of the pawn on `sq` to `score`.
fn pawn_terms(score: Score, friendly_pawns: Bitboard, enemy_pawns: Bitboard, color: Color, sq: Square) -> (r: Score)
    requires
        friendly_pawns.has(sq.view()),
        pawns_below_last_rank(friendly_pawns.view(), color),
    ensures
        r.view() == pawn_step(score.view(), friendly_pawns.view(), enemy_pawns.view(), color, sq.view()),
{
    let ghost friendly = friendly_pawns.view();
    let ghost enemy = enemy_pawns.view();
    let ghost s = sq.view();
    let mut score = score;
    let rank_idx = match color {
        Color::White => sq.index() / 8,
        Color::Black => 7 - sq.index() / 8,
    };
    let passed_mask = passed_pawn_mask(color, sq);
    let passed = (passed_mask & enemy_pawns).is_empty();
    proof {
        lemma_and_zero(passed_mask.view(), enemy);
        if !passed {
            let t = choose|t: int| 0 <= t < 64 && !!(#[trigger] bit(passed_mask.view(), t) && bit(enemy, t));
            assert(passed_mask.has(t));
            assert(bit(enemy, t) && near_file(s, t) && ahead_of(color, s, t));
        }
        if passed {
            assert forall|t: int| #[trigger] bit(enemy, t) && near_file(s, t) && ahead_of(color, s, t) implies false by {
                assert(passed_mask.has(t));
            }
        }
        assert(passed == is_passed(enemy, color, s));
        assert(bit(friendly, s));
    }
    let support_sqs = pawn_attacks(color.flip(), sq);
    let supported = (support_sqs & friendly_pawns).is_nonempty();
    proof {
        lemma_and_zero(support_sqs.view(), friendly);
        if supported {
            let t = choose|t: int| 0 <= t < 64 && !!(#[trigger] bit(support_sqs.view(), t) && bit(friendly, t));
            assert(support_sqs.has(t));
            assert(bit(friendly, t) && pawn_geom(color.opp(), s, t));
        } else {
            assert forall|t: int| #[trigger] bit(friendly, t) && pawn_geom(color.opp(), s, t) implies false by {
                assert(support_sqs.has(t));
            }
        }
        assert(supported == is_supported(friendly, color, s));
    }
    if passed {
        let b = PASSED_PAWN_BONUS[rank_idx];
        score = score + Score::new(b.0, b.1);
        if supported {
            score = score + S(15, 25);
        }
    }
    let adj = adjacent_files(sq.index() % 8);
    let isolated = (adj & friendly_pawns).is_empty();
    proof {
        lemma_and_zero(adj.view(), friendly);
        if !isolated {
            let t = choose|t: int| 0 <= t < 64 && !!(#[trigger] bit(adj.view(), t) && bit(friendly, t));
            assert(adj.has(t));
            assert(bit(friendly, t) && side_file(s, t));
        } else {
            assert forall|t: int| #[trigger] bit(friendly, t) && side_file(s, t) implies false by {
                assert(adj.has(t));
            }
        }
        assert(isolated == is_isolated(friendly, s));
    }
    if isolated {
        return score + S(-10, -20);
    }
    let rear = rear_span_mask(sq, color);
    let no_support_behind = (rear & friendly_pawns).is_empty();
    proof {
        lemma_and_zero(rear.view(), friendly);
        if !no_support_behind {
            let t = choose|t: int| 0 <= t < 64 && !!(#[trigger] bit(rear.view(), t) && bit(friendly, t));
            assert(rear.has(t));
            assert(bit(friendly, t) && side_file(s, t) && !ahead_of(color, s, t));
        } else {
            assert forall|t: int| #[trigger] bit(friendly, t) && side_file(s, t) && !ahead_of(color, s, t) implies false by {
                assert(rear.has(t));
            }
        }
        assert(no_support_behind == !has_rear_support(friendly, color, s));
    }
    if no_support_behind {
        if let Some(stop) = stop_square(sq, color) {
            let guards = pawn_attacks(color, stop);
            let stop_attacked = (guards & enemy_pawns).is_nonempty();
            proof {
                lemma_and_zero(guards.view(), enemy);
                if stop_attacked {
                    let t = choose|t: int| 0 <= t < 64 && !!(#[trigger] bit(guards.view(), t) && bit(enemy, t));
                    assert(guards.has(t));
                    assert(bit(enemy, t) && pawn_geom(color, stop.view(), t));
                } else {
                    assert forall|t: int| #[trigger] bit(enemy, t) && pawn_geom(color, stop.view(), t) implies false by {
                        assert(guards.has(t));
                    }
                }
                assert(stop_attacked == pawn_guarded(enemy, color, stop.view()));
            }
            if stop_attacked {
                score = score + S(-15, -10);
            }
        }
    }
    if supported {
        score = score + S(5, 8);
    }
    score
}

/// Evaluate pawn structure for both sides.
///
/// Returns a [`Score`] from White's perspective: White's pawn terms minus
/// Black's pawn terms.
pub fn evaluate_pawns(board: &Board) -> (r: Score)
    requires
        pawns_below_last_rank(board.view().pieces[0] & board.view().sides[0], Color::White),
        pawns_below_last_rank(board.view().pieces[0] & board.view().sides[1], Color::Black),
    ensures
        r.view() == pawns_word(board.view()),
{
    let pawns = board.pieces(PieceKind::Pawn);
    let white_pawns = pawns & board.side(Color::White);
    let black_pawns = pawns & board.side(Color::Black);
    let white_score = evaluate_pawns_for_side(white_pawns, black_pawns, Color::White);
    let black_score = evaluate_pawns_for_side(black_pawns, white_pawns, Color::Black);
    white_score - black_score
}

} // verus!
