//! King safety evaluation: pawn shield, attacker zone, pawn storm, and open files.
//!
//! All scores are from White's perspective (positive = White is safer).

use vstd::prelude::*;

use crate::attacks::{abs, king_attacks, king_geom};
use crate::bitboard::{file_bits, lemma_popcount_le_64, Bitboard};
use crate::bits::{bit, count_from, lemma_and_zero, lemma_bit_file, lemma_count_le, lemma_bit_and, lemma_bit_not, lemma_bit_or, lemma_bit_rank, lemma_bit_shift8, lemma_popcount_pred, popcount};
use crate::board::{Board, BoardModel};
use crate::color::Color;
use crate::eval::mobility::{attacks_of, sees};
use crate::eval::pawns::{near_file, stop_sq, stop_square};
use crate::eval::score::{lemma_pack_roundtrip, pack, scaled, unpack_eg, unpack_mg, wadd, wsub, Score, S};
use crate::movegen::{king_of, lemma_king_of, lowest_bit};
use crate::piece_kind::PieceKind;
use crate::square::{file_of, rank_of, Square};

verus! {

broadcast use Score::lemma_from_word, Board::lemma_shaped, Bitboard::lemma_from_bits, Square::lemma_range;

/// `x` is the king square `k` or one of its neighbours.
pub open spec fn near_king(k: int, x: int) -> bool {
    0 <= x < 64 && abs(rank_of(x) - rank_of(k)) <= 1 && abs(file_of(x) - file_of(k)) <= 1
}

/// The zone of a king of `color` on `k`: its square and neighbours, and those
/// squares moved one rank forward.
pub open spec fn in_zone(color: Color, k: int, t: int) -> bool {
    0 <= t < 64 && (near_king(k, t) || if color == Color::White {
        t >= 8 && near_king(k, t - 8)
    } else {
        t < 56 && near_king(k, t + 8)
    })
}

/// The pawn shield of a king of `color` on `k`: the square in front of it and
/// the squares beside that one on the same rank.
pub open spec fn in_shield(color: Color, k: int, t: int) -> bool {
    &&& stop_sq(color, k) matches Some(f)
    &&& 0 <= t < 64
    &&& rank_of(t) == rank_of(f)
    &&& near_file(f, t)
}

/// The shield squares of a king of `color` on `k`.
pub open spec fn shield_pred(color: Color, k: int) -> spec_fn(int) -> bool {
    |t: int| in_shield(color, k, t)
}

/// The shield squares of a king of `color` on `k` that hold one of `pawns`.
pub open spec fn shielded_pred(color: Color, k: int, pawns: u64) -> spec_fn(int) -> bool {
    |t: int| in_shield(color, k, t) && bit(pawns, t)
}

/// The pawns of `c`.
pub open spec fn pawns_of(m: BoardModel, c: Color) -> u64 {
    m.pieces[0] & m.sides[c.idx()]
}

/// The shield penalty word of side `c`: 30 middlegame points per shield square
/// without a friendly pawn.
pub open spec fn shield_word(m: BoardModel, c: Color) -> i32 {
    let k = king_of(m, c);
    let missing = count_from(shield_pred(c, k), 0) - count_from(shielded_pred(c, k, pawns_of(m, c)), 0);
    scaled(-30i16, 0i16, missing)
}

/// A piece of kind index `k` on `s` attacks a square of the zone of the king of `kc`.
pub open spec fn hits_zone(m: BoardModel, kc: Color, k: int, s: int) -> bool {
    exists|t: int| #[trigger] sees(k, s, t, m.occupied) && in_zone(kc, king_of(m, kc), t)
}

/// The number of enemy pieces of kind index `k` on the squares `0..n` that
/// attack the zone of the king of `kc`.
pub open spec fn zone_hits(m: BoardModel, kc: Color, k: int, n: int) -> int
    decreases n,
{
    if n <= 0 {
        0
    } else {
        zone_hits(m, kc, k, n - 1) + if bit(m.pieces[k] & m.sides[kc.opp().idx()], n - 1) && hits_zone(m, kc, k, n - 1) {
            1int
        } else {
            0int
        }
    }
}

/// The weighted number of enemy pieces attacking the king zone of `kc`.
pub open spec fn zone_weight(m: BoardModel, kc: Color) -> int {
    2 * zone_hits(m, kc, 1, 64) + 2 * zone_hits(m, kc, 2, 64) + 3 * zone_hits(m, kc, 3, 64) + 5 * zone_hits(m, kc, 4, 64)
}

/// The number of enemy pieces attacking the king zone of `kc`.
pub open spec fn zone_attackers(m: BoardModel, kc: Color) -> int {
    zone_hits(m, kc, 1, 64) + zone_hits(m, kc, 2, 64) + zone_hits(m, kc, 3, 64) + zone_hits(m, kc, 4, 64)
}

/// The danger to the king of `kc`: zero without an enemy queen or with fewer
/// than two attackers of its zone, else the square of the weighted attackers over four.
pub open spec fn zone_danger(m: BoardModel, kc: Color) -> int {
    if m.pieces[4] & m.sides[kc.opp().idx()] == 0 {
        0
    } else if zone_attackers(m, kc) < 2 {
        0
    } else {
        zone_weight(m, kc) * zone_weight(m, kc) / 4
    }
}

/// The pawn-storm word of the king of `kc` over the squares `0..n`: enemy pawns
/// on the king's or a neighbouring file two or three ranks away cost 20
/// middlegame points, four ranks away 10.
pub open spec fn storm_terms(m: BoardModel, kc: Color, n: int) -> i32
    decreases n,
{
    if n <= 0 {
        0
    } else {
        let prev = storm_terms(m, kc, n - 1);
        let s = n - 1;
        let k = king_of(m, kc);
        let dist = abs(rank_of(k) - rank_of(s));
        if bit(pawns_of(m, kc.opp()), s) && near_file(k, s) {
            if 2 <= dist <= 3 {
                wadd(prev, pack(-20i16, 0i16))
            } else if dist == 4 {
                wadd(prev, pack(-10i16, 0i16))
            } else {
                prev
            }
        } else {
            prev
        }
    }
}

/// The open-file word of the king of `kc` over the files `lo..f`: a file with
/// no pawns costs 25 middlegame points, one with only enemy pawns 15.
pub open spec fn open_terms(m: BoardModel, kc: Color, lo: int, f: int) -> i32
    decreases f - lo,
{
    if f <= lo {
        0
    } else {
        let prev = open_terms(m, kc, lo, f - 1);
        let mask = file_bits(f - 1);
        if m.pieces[0] & mask == 0 {
            wadd(prev, pack(-25i16, 0i16))
        } else if pawns_of(m, kc) & mask == 0 {
            wadd(prev, pack(-15i16, 0i16))
        } else {
            prev
        }
    }
}

/// The open-file word of the king of `kc`: the king's file and its neighbours.
pub open spec fn open_word(m: BoardModel, kc: Color) -> i32 {
    let f = file_of(king_of(m, kc));
    open_terms(m, kc, if f > 0 { f - 1 } else { 0 }, if f < 7 { f + 2 } else { 8 })
}

/// The king-safety word of a position: shield, zone danger, pawn storm and open
/// files, each White's minus Black's.
pub open spec fn king_safety_word(m: BoardModel) -> i32 {
    let shield = wsub(shield_word(m, Color::White), shield_word(m, Color::Black));
    let danger = wsub(pack((-((zone_danger(m, Color::White) as i16) as int)) as i16, 0i16),
        pack((-((zone_danger(m, Color::Black) as i16) as int)) as i16, 0i16));
    let storm = wsub(storm_terms(m, Color::White, 64), storm_terms(m, Color::Black, 64));
    let open = wsub(open_word(m, Color::White), open_word(m, Color::Black));
    wadd(wadd(wadd(shield, danger), storm), open)
}

/// The zone of a king of `color` on `king_sq`: the king's square and its
/// neighbours, plus those squares shifted one rank forward.
fn king_zone(king_sq: Square, color: Color) -> (r: Bitboard)
    ensures
        forall|t: int| 0 <= t < 64 ==> #[trigger] r.has(t) == in_zone(color, king_sq.view(), t),
{
    let ghost k = king_sq.view();
    let ring = king_attacks(king_sq);
    let own = king_sq.bitboard();
    let b = (ring | own).inner();
    proof {
        assert forall|x: int| 0 <= x < 64 implies #[trigger] bit(b, x) == near_king(k, x) by {
            lemma_bit_or(ring.view(), own.view(), x);
            assert(ring.has(x) == king_geom(k, x));
            assert(own.has(x) == (x == k));
        }
    }
    let forward = match color {
        Color::White => {
            let r8 = Bitboard::RANK_8().inner();
            let f = (b & !r8) << 8u8;
            proof {
                assert forall|t: int| 0 <= t < 64 implies #[trigger] bit(f, t) == (t >= 8 && near_king(k, t - 8)) by {
                    lemma_bit_shift8(b & !r8, t);
                    lemma_bit_and(b, !r8, t - 8);
                    lemma_bit_not(r8, t - 8);
                    lemma_bit_rank(7, t - 8);
                }
            }
            f
        },
        Color::Black => {
            let r1 = Bitboard::RANK_1().inner();
            let f = (b & !r1) >> 8u8;
            proof {
                assert forall|t: int| 0 <= t < 64 implies #[trigger] bit(f, t) == (t < 56 && near_king(k, t + 8)) by {
                    lemma_bit_shift8(b & !r1, t);
                    lemma_bit_and(b, !r1, t + 8);
                    lemma_bit_not(r1, t + 8);
                    lemma_bit_rank(0, t + 8);
                }
            }
            f
        },
    };
    proof {
        assert forall|t: int| 0 <= t < 64 implies #[trigger] bit(b | forward, t) == in_zone(color, k, t) by {
            lemma_bit_or(b, forward, t);
        }
    }
    Bitboard::new(b | forward)
}

/// The files of `king_sq` and its neighbours.
fn king_file_cluster(king_sq: Square) -> (r: Bitboard)
    ensures
        forall|t: int| 0 <= t < 64 ==> #[trigger] r.has(t) == near_file(king_sq.view(), t),
{
    let files = Bitboard::FILES();
    let f = king_sq.index() % 8;
    let own = files[f].inner();
    let left = if f > 0 { files[f - 1].inner() } else { 0 };
    let right = if f < 7 { files[f + 1].inner() } else { 0 };
    proof {
        assert forall|t: int| 0 <= t < 64 implies #[trigger] bit(own | left | right, t) == near_file(king_sq.view(), t) by {
            lemma_bit_or(own | left, right, t);
            lemma_bit_or(own, left, t);
            lemma_bit_file(f as int, t);
            crate::bits::lemma_bit_zero(t);
            if f > 0 {
                lemma_bit_file(f - 1, t);
            }
            if f < 7 {
                lemma_bit_file(f + 1, t);
            }
        }
    }
    Bitboard::new(own | left | right)
}

/// The shield squares of a king of `color` on `king_sq`: the square in front
/// and its neighbours on the same rank (none when the king is on its last rank).
fn shield_mask(king_sq: Square, color: Color) -> (r: Bitboard)
    ensures
        forall|t: int| 0 <= t < 64 ==> #[trigger] r.has(t) == in_shield(color, king_sq.view(), t),
{
    match stop_square(king_sq, color) {
        None => {
            let r = Bitboard::EMPTY();
            proof {
                assert forall|t: int| 0 <= t < 64 implies #[trigger] r.has(t) == in_shield(color, king_sq.view(), t) by {
                    crate::bits::lemma_bit_zero(t);
                }
            }
            r
        },
        Some(front) => {
            let i = front.index();
            let file = i % 8;
            let mut bb = front.bitboard();
            if file > 0 {
                bb = bb.with(Square::from_index_unchecked((i - 1) as u8));
            }
            if file < 7 {
                bb = bb.with(Square::from_index_unchecked((i + 1) as u8));
            }
            bb
        },
    }
}

/// The shield penalty of side `color`: one penalty per shield square without a
/// friendly pawn.
fn pawn_shield_penalty(board: &Board, color: Color) -> (r: Score)
    requires
        board.view().has_king(color),
    ensures
        r.view() == shield_word(board.view(), color),
{
    let ghost m = board.view();
    let king_sq = board.king_square(color);
    proof {
        lemma_king_of(m, color, king_sq.view());
    }
    let ghost k = king_sq.view();
    let shield = shield_mask(king_sq, color);
    let friendly_pawns = board.pieces(PieceKind::Pawn) & board.side(color);
    let shield_pawns = shield & friendly_pawns;
    let total = shield.count();
    let covered = shield_pawns.count();
    proof {
        assert forall|t: int| 0 <= t < 64 implies #[trigger] bit(shield.view(), t) == shield_pred(color, k)(t) by {
            assert(shield.has(t) == in_shield(color, k, t));
        }
        assert forall|t: int| 0 <= t < 64 implies #[trigger] bit(shield_pawns.view(), t) == shielded_pred(color, k, pawns_of(m, color))(t) by {
            lemma_bit_and(shield.view(), friendly_pawns.view(), t);
            assert(shield.has(t) == in_shield(color, k, t));
        }
        lemma_popcount_pred(shield.view(), shield_pred(color, k));
        lemma_popcount_pred(shield_pawns.view(), shielded_pred(color, k, pawns_of(m, color)));
        lemma_count_le(shield_pred(color, k), shielded_pred(color, k, pawns_of(m, color)), 0);
        lemma_popcount_le_64(shield.view());
        lemma_pack_roundtrip(-30i16, 0i16);
    }
    let missing = total - covered;
    S(-30, 0) * (missing as i16)
}

/// The number of enemy pieces of kind index `k` attacking `zone`, the zone of
/// the king of `king_color`.
fn zone_hits_of(board: &Board, king_color: Color, k: usize, zone: Bitboard) -> (r: i32)
    requires
        1 <= k <= 4,
        board.view().has_king(king_color),
        forall|t: int| 0 <= t < 64 ==> #[trigger] zone.has(t) == in_zone(king_color, king_of(board.view(), king_color), t),
    ensures
        r == zone_hits(board.view(), king_color, k as int, 64),
        0 <= r <= 64,
{
    let ghost m = board.view();
    let occupied = board.occupied();
    let attackers = board.pieces_by_index(k) & board.side(king_color.flip());
    let mut hits: i32 = 0;
    let mut s: u8 = 0;
    while s < 64
        invariant
            s <= 64,
            1 <= k <= 4,
            m == board.view(),
            occupied.view() == m.occupied,
            attackers.view() == m.pieces[k as int] & m.sides[king_color.opp().idx()],
            forall|t: int| 0 <= t < 64 ==> #[trigger] zone.has(t) == in_zone(king_color, king_of(m, king_color), t),
            hits == zone_hits(m, king_color, k as int, s as int),
            0 <= hits <= s,
        decreases 64 - s,
    {
        let sq = Square::from_index_unchecked(s);
        if attackers.contains(sq) {
            let att = attacks_of(k, sq, occupied);
            let reaches = (att & zone).is_nonempty();
            proof {
                lemma_and_zero(att.view(), zone.view());
                if reaches {
                    let t = choose|t: int| 0 <= t < 64 && !!(#[trigger] bit(att.view(), t) && bit(zone.view(), t));
                    assert(att.has(t) == sees(k as int, s as int, t, m.occupied));
                    assert(zone.has(t) == in_zone(king_color, king_of(m, king_color), t));
                    assert(sees(k as int, s as int, t, m.occupied) && in_zone(king_color, king_of(m, king_color), t));
                } else {
                    assert forall|t: int| #[trigger] sees(k as int, s as int, t, m.occupied) && in_zone(king_color, king_of(m, king_color), t) implies false by {
                        assert(att.has(t) == sees(k as int, s as int, t, m.occupied));
                        assert(zone.has(t) == in_zone(king_color, king_of(m, king_color), t));
                    }
                }
                assert(reaches == hits_zone(m, king_color, k as int, s as int));
            }
            if reaches {
                hits = hits + 1;
            }
        }
        s = s + 1;
    }
    hits
}

/// `(x as i16)` is not `i16::MIN` for the zone dangers, which are at most 147456
/// and never 32768 or 98304.
proof fn lemma_danger_cast(x: i32)
    by (bit_vector)
    requires
        0 <= x <= 147456,
        x != 32768,
        x != 98304,
    ensures
        (x as i16) != i16::MIN,
{
}

/// The weighted attackers of a king zone squared over four is never 32768 or 98304.
proof fn lemma_danger_values(d: int)
    requires
        0 <= d <= 768,
    ensures
        d * d / 4 <= 147456,
        d * d / 4 != 32768,
        d * d / 4 != 98304,
{
    assert(d * d <= 768 * 768) by (nonlinear_arith)
        requires
            0 <= d <= 768,
    ;
    if d <= 362 {
        assert(d * d <= 362 * 362) by (nonlinear_arith)
            requires
                0 <= d <= 362,
        ;
    } else if d <= 627 {
        assert(363 * 363 <= d * d <= 627 * 627) by (nonlinear_arith)
            requires
                363 <= d <= 627,
        ;
    } else {
        assert(628 * 628 <= d * d) by (nonlinear_arith)
            requires
                628 <= d,
        ;
    }
}

/// The danger to the king of `king_color` from enemy pieces attacking its zone.
/// Without an enemy queen there is no danger; with fewer than two attackers
/// neither. Otherwise the weighted attackers are squared and divided by four.
fn attacker_zone_danger(board: &Board, king_color: Color) -> (r: i32)
    requires
        board.view().has_king(king_color),
    ensures
        r == zone_danger(board.view(), king_color),
        0 <= r <= 147456,
        r != 32768,
        r != 98304,
{
    let ghost m = board.view();
    let attacker_color = king_color.flip();
    let attacker_queens = board.pieces(PieceKind::Queen) & board.side(attacker_color);
    if attacker_queens.is_empty() {
        return 0;
    }
    let king_sq = board.king_square(king_color);
    proof {
        lemma_king_of(m, king_color, king_sq.view());
    }
    let zone = king_zone(king_sq, king_color);
    let knights = zone_hits_of(board, king_color, 1, zone);
    let bishops = zone_hits_of(board, king_color, 2, zone);
    let rooks = zone_hits_of(board, king_color, 3, zone);
    let queens = zone_hits_of(board, king_color, 4, zone);
    let danger = 2 * knights + 2 * bishops + 3 * rooks + 5 * queens;
    let attacker_count = knights + bishops + rooks + queens;
    if attacker_count < 2 {
        0
    } else {
        proof {
            lemma_danger_values(danger as int);
            assert(danger * danger <= 768 * 768) by (nonlinear_arith)
                requires
                    0 <= danger <= 768,
            ;
        }
        danger * danger / 4
    }
}

/// The pawn-storm penalty against the king of `king_color`: enemy pawns on the
/// king's or a neighbouring file, two to four ranks away.
fn pawn_storm_penalty(board: &Board, king_color: Color) -> (r: Score)
    requires
        board.view().has_king(king_color),
    ensures
        r.view() == storm_terms(board.view(), king_color, 64),
{
    let ghost m = board.view();
    let king_sq = board.king_square(king_color);
    proof {
        lemma_king_of(m, king_color, king_sq.view());
    }
    let cluster = king_file_cluster(king_sq);
    let enemy_pawns = board.pieces(PieceKind::Pawn) & board.side(king_color.flip());
    let storm_pawns = enemy_pawns & cluster;
    let king_rank = king_sq.index() / 8;
    let mut penalty = Score::ZERO();
    let mut s: u8 = 0;
    while s < 64
        invariant
            s <= 64,
            m == board.view(),
            king_sq.view() == king_of(m, king_color),
            king_rank == rank_of(king_sq.view()),
            forall|t: int| 0 <= t < 64 ==> #[trigger] cluster.has(t) == near_file(king_sq.view(), t),
            enemy_pawns.view() == pawns_of(m, king_color.opp()),
            storm_pawns.view() == enemy_pawns.view() & cluster.view(),
            penalty.view() == storm_terms(m, king_color, s as int),
        decreases 64 - s,
    {
        let sq = Square::from_index_unchecked(s);
        proof {
            lemma_bit_and(enemy_pawns.view(), cluster.view(), s as int);
            assert(cluster.has(s as int) == near_file(king_sq.view(), s as int));
        }
        if storm_pawns.contains(sq) {
            let pawn_rank = sq.index() / 8;
            let dist = if king_color == Color::White {
                if king_rank >= pawn_rank {
                    king_rank - pawn_rank
                } else {
                    pawn_rank - king_rank
                }
            } else {
                if pawn_rank >= king_rank {
                    pawn_rank - king_rank
                } else {
                    king_rank - pawn_rank
                }
            };
            if dist >= 2 && dist <= 3 {
                penalty = penalty + S(-20, 0);
            } else if dist == 4 {
                penalty = penalty + S(-10, 0);
            }
        }
        s = s + 1;
    }
    penalty
}

/// The open-file penalty for the king of `king_color`: each of the king's file
/// and its neighbours without pawns costs the open-file penalty, one with only
/// enemy pawns the semi-open penalty.
fn open_file_penalty(board: &Board, king_color: Color) -> (r: Score)
    requires
        board.view().has_king(king_color),
    ensures
        r.view() == open_word(board.view(), king_color),
{
    let ghost m = board.view();
    let king_sq = board.king_square(king_color);
    proof {
        lemma_king_of(m, king_color, king_sq.view());
    }
    let all_pawns = board.pieces(PieceKind::Pawn);
    let friendly_pawns = all_pawns & board.side(king_color);
    let files = Bitboard::FILES();
    let king_file = king_sq.index() % 8;
    let start_file = if king_file > 0 { king_file - 1 } else { 0 };
    let end_file = if king_file < 7 { king_file + 1 } else { 7 };
    let mut penalty = Score::ZERO();
    let mut f = start_file;
    while f <= end_file
        invariant
            start_file <= f <= end_file + 1,
            end_file <= 7,
            m == board.view(),
            all_pawns.view() == m.pieces[0],
            friendly_pawns.view() == pawns_of(m, king_color),
            forall|i: int| 0 <= i < 8 ==> (#[trigger] files@[i]).view() == file_bits(i),
            penalty.view() == open_terms(m, king_color, start_file as int, f as int),
        decreases end_file + 1 - f,
    {
        let file_mask = files[f];
        let any_pawns = all_pawns & file_mask;
        let our_pawns = friendly_pawns & file_mask;
        if any_pawns.is_empty() {
            penalty = penalty + S(-25, 0);
        } else if our_pawns.is_empty() {
            penalty = penalty + S(-15, 0);
        }
        f = f + 1;
    }
    penalty
}

/// Evaluate king safety for both sides: pawn shield, attacker zone danger (a
/// middlegame-only penalty), pawn storm and open files.
///
/// Returns a [`Score`] from White's perspective.
pub fn evaluate_king_safety(board: &Board) -> (r: Score)
    requires
        board.view().has_king(Color::White),
        board.view().has_king(Color::Black),
    ensures
        r.view() == king_safety_word(board.view()),
{
    let white_shield = pawn_shield_penalty(board, Color::White);
    let black_shield = pawn_shield_penalty(board, Color::Black);
    let white_danger = attacker_zone_danger(board, Color::White);
    let black_danger = attacker_zone_danger(board, Color::Black);
    proof {
        lemma_danger_cast(white_danger);
        lemma_danger_cast(black_danger);
    }
    let danger_score = S(-(white_danger as i16), 0) - S(-(black_danger as i16), 0);
    let white_storm = pawn_storm_penalty(board, Color::White);
    let black_storm = pawn_storm_penalty(board, Color::Black);
    let white_open = open_file_penalty(board, Color::White);
    let black_open = open_file_penalty(board, Color::Black);
    (white_shield - black_shield) + danger_score + (white_storm - black_storm) + (white_open - black_open)
}

} // verus!
