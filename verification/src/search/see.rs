//! Static Exchange Evaluation (SEE).
//!
//! Determines the material outcome of a sequence of captures on a single square,
//! assuming both sides use their least valuable attacker at each step.

use vstd::prelude::*;

use crate::attacks::{
    bishop_attacks, bishop_sees, king_attacks, king_geom, knight_attacks, knight_geom, pawn_attacks, pawn_geom,
    rook_attacks, rook_sees,
};
use crate::bitboard::Bitboard;
use crate::bits::{bit, lemma_bit_and, lemma_bit_not, lemma_bit_or, lemma_bits_ext, single};
use crate::board::{Board, BoardModel};
use crate::chess_move::{Move, MoveKind};
use crate::color::Color;
use crate::movegen::{lemma_word_of, lowest_bit, word_of};
use crate::piece_kind::PieceKind;
use crate::square::Square;

verus! {

broadcast use Square::lemma_range, Bitboard::lemma_from_bits, Board::lemma_shaped;

/// Material values for SEE, indexed by `PieceKind::index()`.
pub const SEE_VALUE: [i32; 6] = [100, 320, 330, 500, 900, 20_000];

/// The SEE value of a piece kind.
pub open spec fn see_value(k: PieceKind) -> int {
    match k {
        PieceKind::Pawn => 100,
        PieceKind::Knight => 320,
        PieceKind::Bishop => 330,
        PieceKind::Rook => 500,
        PieceKind::Queen => 900,
        PieceKind::King => 20_000,
    }
}

fn value_of(k: PieceKind) -> (r: i32)
    ensures
        r == see_value(k),
{
    SEE_VALUE[k.index()]
}

/// A piece on `a` (of either color) attacks `dst` over the occupancy `occ`.
pub open spec fn attacker_at(m: BoardModel, dst: int, occ: u64, a: int) -> bool {
    ||| bit(m.pieces[1], a) && knight_geom(dst, a)
    ||| bit(m.pieces[5], a) && king_geom(dst, a)
    ||| (bit(m.pieces[3], a) || bit(m.pieces[4], a)) && rook_sees(dst, a, occ)
    ||| (bit(m.pieces[2], a) || bit(m.pieces[4], a)) && bishop_sees(dst, a, occ)
    ||| bit(m.pieces[0] & m.sides[0], a) && pawn_geom(Color::Black, dst, a)
    ||| bit(m.pieces[0] & m.sides[1], a) && pawn_geom(Color::White, dst, a)
}

/// Compute all pieces that attack a given square with the given occupancy.
///
/// Sliding attacks use the provided `occ` bitboard, which reveals X-ray
/// attackers as pieces are removed.
fn attackers_of(sq: Square, occ: Bitboard, board: &Board) -> (r: Bitboard)
    ensures
        forall|a: int| #[trigger] r.has(a) == (0 <= a < 64 && attacker_at(board.view(), sq.view(), occ.view(), a)),
{
    let ghost m = board.view();
    let na = knight_attacks(sq);
    let knights = na & board.pieces(PieceKind::Knight);
    let ka = king_attacks(sq);
    let kings = ka & board.pieces(PieceKind::King);
    let ra = rook_attacks(sq, occ);
    let rq = board.pieces(PieceKind::Rook) | board.pieces(PieceKind::Queen);
    let rook_like = ra & rq;
    let ba = bishop_attacks(sq, occ);
    let bq = board.pieces(PieceKind::Bishop) | board.pieces(PieceKind::Queen);
    let bishop_like = ba & bq;
    let wa = pawn_attacks(Color::Black, sq);
    let wp = board.pieces(PieceKind::Pawn) & board.side(Color::White);
    let white_pawns = wa & wp;
    let ba2 = pawn_attacks(Color::White, sq);
    let bp = board.pieces(PieceKind::Pawn) & board.side(Color::Black);
    let black_pawns = ba2 & bp;
    let r = Bitboard::new(
        knights.inner() | kings.inner() | rook_like.inner() | bishop_like.inner() | white_pawns.inner()
            | black_pawns.inner(),
    );
    proof {
        assert forall|a: int| #[trigger] r.has(a) == (0 <= a < 64 && attacker_at(m, sq.view(), occ.view(), a)) by {
            assert(na.has(a) == knight_geom(sq.view(), a));
            assert(ka.has(a) == king_geom(sq.view(), a));
            assert(ra.has(a) == rook_sees(sq.view(), a, occ.view()));
            assert(ba.has(a) == bishop_sees(sq.view(), a, occ.view()));
            assert(wa.has(a) == pawn_geom(Color::Black, sq.view(), a));
            assert(ba2.has(a) == pawn_geom(Color::White, sq.view(), a));
            lemma_bit_and(na.view(), m.pieces[1], a);
            lemma_bit_and(ka.view(), m.pieces[5], a);
            lemma_bit_and(ra.view(), rq.view(), a);
            lemma_bit_or(m.pieces[3], m.pieces[4], a);
            lemma_bit_and(ba.view(), bq.view(), a);
            lemma_bit_or(m.pieces[2], m.pieces[4], a);
            lemma_bit_and(wa.view(), wp.view(), a);
            lemma_bit_and(ba2.view(), bp.view(), a);
            let x1 = knights.view() | kings.view();
            let x2 = x1 | rook_like.view();
            let x3 = x2 | bishop_like.view();
            let x4 = x3 | white_pawns.view();
            lemma_bit_or(knights.view(), kings.view(), a);
            lemma_bit_or(x1, rook_like.view(), a);
            lemma_bit_or(x2, bishop_like.view(), a);
            lemma_bit_or(x3, white_pawns.view(), a);
            lemma_bit_or(x4, black_pawns.view(), a);
        }
    }
    r
}

/// The lowest set bit of a nonzero word.
pub open spec fn lowest(x: u64) -> int {
    choose|k: int| lowest_bit(x, k)
}

/// The candidates of kind index `k` of `side` among `att`.
pub open spec fn candidates(m: BoardModel, att: u64, side: Color, k: int) -> u64 {
    att & m.sides[side.idx()] & m.pieces[k]
}

/// The least valuable attacker of `side` among `att`: the lowest square of
/// the first kind, in value order, that has one.
pub open spec fn lva(m: BoardModel, att: u64, side: Color) -> Option<(int, PieceKind)> {
    if candidates(m, att, side, 0) != 0 {
        Some((lowest(candidates(m, att, side, 0)), PieceKind::Pawn))
    } else if candidates(m, att, side, 1) != 0 {
        Some((lowest(candidates(m, att, side, 1)), PieceKind::Knight))
    } else if candidates(m, att, side, 2) != 0 {
        Some((lowest(candidates(m, att, side, 2)), PieceKind::Bishop))
    } else if candidates(m, att, side, 3) != 0 {
        Some((lowest(candidates(m, att, side, 3)), PieceKind::Rook))
    } else if candidates(m, att, side, 4) != 0 {
        Some((lowest(candidates(m, att, side, 4)), PieceKind::Queen))
    } else if candidates(m, att, side, 5) != 0 {
        Some((lowest(candidates(m, att, side, 5)), PieceKind::King))
    } else {
        None
    }
}

/// The lowest square of `x`, if any, is the one `lowest` chooses.
proof fn lemma_lowest(x: u64, k: int)
    requires
        lowest_bit(x, k),
    ensures
        lowest(x) == k,
{
    let k2 = lowest(x);
    assert(lowest_bit(x, k2));
    if k2 < k {
        assert(!bit(x, k2));
    }
    if k < k2 {
        assert(!bit(x, k));
    }
}

fn candidate_square(attackers: Bitboard, side: Bitboard, board: &Board, kind: PieceKind) -> (r: Option<Square>)
    requires
        side.view() == board.view().sides[0] || side.view() == board.view().sides[1],
    ensures
        r.is_none() == (attackers.view() & side.view() & board.view().pieces[kind.idx()] == 0),
        r matches Some(s) ==> s.view() == lowest(attackers.view() & side.view() & board.view().pieces[kind.idx()]),
{
    let candidates = attackers & side & board.pieces(kind);
    let r = candidates.lsb();
    proof {
        if let Some(s) = r {
            assert forall|j: int| 0 <= j < s.view() implies !#[trigger] bit(candidates.view(), j) by {
                assert(!candidates.has(j));
            }
            lemma_lowest(candidates.view(), s.view());
        }
    }
    r
}

/// Find the least valuable attacker from the given attacker set for a side.
///
/// Returns `(square, piece_kind)` of the least valuable attacker, or `None`.
fn least_valuable_attacker(attackers: Bitboard, side: Color, board: &Board) -> (r: Option<(Square, PieceKind)>)
    ensures
        match (r, lva(board.view(), attackers.view(), side)) {
            (None, None) => true,
            (Some((s, k)), Some((s2, k2))) => s.view() == s2 && k == k2,
            _ => false,
        },
{
    let sb = board.side(side);
    if let Some(sq) = candidate_square(attackers, sb, board, PieceKind::Pawn) {
        return Some((sq, PieceKind::Pawn));
    }
    if let Some(sq) = candidate_square(attackers, sb, board, PieceKind::Knight) {
        return Some((sq, PieceKind::Knight));
    }
    if let Some(sq) = candidate_square(attackers, sb, board, PieceKind::Bishop) {
        return Some((sq, PieceKind::Bishop));
    }
    if let Some(sq) = candidate_square(attackers, sb, board, PieceKind::Rook) {
        return Some((sq, PieceKind::Rook));
    }
    if let Some(sq) = candidate_square(attackers, sb, board, PieceKind::Queen) {
        return Some((sq, PieceKind::Queen));
    }
    if let Some(sq) = candidate_square(attackers, sb, board, PieceKind::King) {
        return Some((sq, PieceKind::King));
    }
    None
}

/// The bishop-and-queen attackers of `dst` that a removal on the diagonals
/// may reveal, and likewise for rooks and queens on the lines.
pub open spec fn refreshed(m: BoardModel, dst: int, occ: u64, att: u64, kind: PieceKind) -> u64 {
    let diag = word_of(|t: int| bishop_sees(dst, t, occ)) & (m.pieces[2] | m.pieces[4]);
    let orth = word_of(|t: int| rook_sees(dst, t, occ)) & (m.pieces[3] | m.pieces[4]);
    let a1 = if kind == PieceKind::Pawn || kind == PieceKind::Bishop || kind == PieceKind::Queen {
        att | diag
    } else {
        att
    };
    let a2 = if kind == PieceKind::Rook || kind == PieceKind::Queen {
        a1 | orth
    } else {
        a1
    };
    a2 & occ
}

/// The gains of the recaptures on `dst` from capture `d + 1` on: `side`
/// takes the piece worth `nv` with its least valuable attacker, the gain
/// being `nv` minus the previous gain `g`; the sequence stops when `side` has
/// no attacker, and at the 32nd capture (whose gain stays 0).
pub open spec fn swap_gains(m: BoardModel, dst: int, occ: u64, att: u64, side: Color, nv: int, g: int, d: int) -> Seq<
    int,
>
    decreases 32 - d,
{
    if d >= 32 {
        Seq::empty()
    } else {
        match lva(m, att, side) {
            None => Seq::empty(),
            Some((sq, kind)) => {
                if d + 1 >= 32 {
                    seq![0]
                } else {
                    let g2 = nv - g;
                    let occ2 = occ & !single(sq);
                    seq![g2] + swap_gains(
                        m,
                        dst,
                        occ2,
                        refreshed(m, dst, occ2, att, kind),
                        side.opp(),
                        see_value(kind),
                        g2,
                        d + 1,
                    )
                }
            },
        }
    }
}

/// Backward minimax over the gains: each side may stop capturing.
pub open spec fn settle(gs: Seq<int>) -> int
    decreases gs.len(),
{
    if gs.len() <= 1 {
        if gs.len() == 1 { gs[0] } else { 0 }
    } else {
        let rest = -settle(gs.drop_first());
        if gs[0] < rest { gs[0] } else { rest }
    }
}

/// The occupancy after the first capture: without the moving piece, and
/// without the pawn an en passant capture takes.
pub open spec fn occ_after_first(m: BoardModel, mv: Move) -> u64 {
    let dst = mv.dst();
    let o = m.occupied & !single(mv.src());
    if mv.spec_kind() == MoveKind::EnPassant {
        let cap = if m.side_to_move == Color::White { dst - 8 } else { dst + 8 };
        if 0 <= cap < 64 { o & !single(cap) } else { o }
    } else {
        o
    }
}

/// The value of the piece the first capture takes.
pub open spec fn first_victim(m: BoardModel, mv: Move) -> int {
    if mv.spec_kind() == MoveKind::EnPassant {
        100
    } else {
        match m.piece_at(mv.dst()) {
            Some(k) => see_value(k),
            None => 0,
        }
    }
}

/// The value of the piece standing on the target after the first capture
/// (the promoted piece for a promotion).
pub open spec fn first_attacker(m: BoardModel, mv: Move) -> int {
    if mv.spec_kind() == MoveKind::Promotion {
        see_value(mv.promo().spec_kind())
    } else {
        match m.piece_at(mv.src()) {
            Some(k) => see_value(k),
            None => 100,
        }
    }
}

/// The static exchange value of `mv`: the settled gains of the capture
/// sequence on its target, from the mover's side.
pub open spec fn see_model(m: BoardModel, mv: Move) -> int {
    let occ = occ_after_first(m, mv);
    let att = word_of(|a: int| attacker_at(m, mv.dst(), occ, a)) & occ;
    settle(
        seq![first_victim(m, mv)] + swap_gains(
            m,
            mv.dst(),
            occ,
            att,
            m.side_to_move.opp(),
            first_attacker(m, mv),
            first_victim(m, mv),
            0,
        ),
    )
}

/// Full Static Exchange Evaluation.
///
/// Returns the material gain/loss from the side-to-move's perspective
/// after all profitable recaptures on the target square.
pub fn see(board: &Board, mv: Move) -> (r: i32)
    ensures
        r == see_model(board.view(), mv),
        -660_000 <= r <= 660_000,
{
    let ghost m = board.view();
    let src = mv.source();
    let dst = mv.dest();
    let kind_mv = mv.kind();
    let attacker_kind = match board.piece_on(src) {
        Some(k) => k,
        None => PieceKind::Pawn,
    };
    let victim_value: i32 = if kind_mv == MoveKind::EnPassant {
        value_of(PieceKind::Pawn)
    } else {
        match board.piece_on(dst) {
            Some(v) => value_of(v),
            None => 0,
        }
    };
    let attacker_value: i32 = if kind_mv == MoveKind::Promotion {
        value_of(mv.promotion_piece().to_piece_kind())
    } else {
        value_of(attacker_kind)
    };
    let mut occ = board.occupied().without(src);
    if kind_mv == MoveKind::EnPassant {
        let d = dst.index();
        let captured: Option<usize> = if board.side_to_move() == Color::White {
            if d >= 8 { Some(d - 8) } else { None }
        } else {
            if d + 8 < 64 { Some(d + 8) } else { None }
        };
        if let Some(ci) = captured {
            occ = occ.without(Square::from_index_unchecked(ci as u8));
        }
    }
    assert(occ.view() == occ_after_first(m, mv));
    let a0 = attackers_of(dst, occ, board);
    proof {
        assert forall|t: int| #[trigger] bit(a0.view(), t) == (0 <= t < 64 && attacker_at(m, dst.view(), occ.view(), t)) by {
            assert(a0.has(t) == (0 <= t < 64 && attacker_at(m, dst.view(), occ.view(), t)));
        }
        lemma_word_of(|a: int| attacker_at(m, dst.view(), occ.view(), a), a0.view());
    }
    let mut all_attackers = a0 & occ;
    let mut side = board.side_to_move().flip();
    let mut next_victim_value = attacker_value;
    let mut gain: Vec<i32> = Vec::new();
    let mut z: usize = 0;
    while z < 33
        invariant
            z <= 33,
            gain@.len() == z,
            forall|j: int| 0 <= j < z ==> #[trigger] gain@[j] == 0,
        decreases 33 - z,
    {
        gain.push(0);
        z = z + 1;
    }
    gain.set(0, victim_value);
    let mut depth: usize = 0;
    let ghost full: Seq<int> = seq![first_victim(m, mv)] + swap_gains(
        m,
        dst.view(),
        occ.view(),
        all_attackers.view(),
        m.side_to_move.opp(),
        first_attacker(m, mv),
        first_victim(m, mv),
        0,
    );
    let ghost mut gs: Seq<int> = seq![victim_value as int];
    let mut stop = false;
    while !stop
        invariant
            m == board.view(),
            depth <= 32,
            gain@.len() == 33,
            gs.len() == depth + 1,
            forall|j: int| 0 <= j <= depth ==> #[trigger] gain@[j] as int == gs[j],
            forall|j: int| depth < j < 33 ==> #[trigger] gain@[j] == 0,
            forall|j: int| 0 <= j <= depth ==> -660_000 <= #[trigger] gs[j] <= 660_000,
            -20_000 * (depth + 1) <= gs[depth as int] <= 20_000 * (depth + 1),
            0 <= next_victim_value <= 20_000,
            !stop ==> depth < 32 && full == gs + swap_gains(
                m,
                dst.view(),
                occ.view(),
                all_attackers.view(),
                side,
                next_victim_value as int,
                gs[depth as int],
                depth as int,
            ),
            stop ==> full == gs,
        decreases 33 - depth + (if stop { 0int } else { 1int }),
    {
        let ghost cur_att = all_attackers.view();
        let ghost cur_occ = occ.view();
        let ghost cur_side = side;
        let ghost cur_nv = next_victim_value as int;
        let ghost cur_g = gs[depth as int];
        let ghost cur_d = depth as int;
        match least_valuable_attacker(all_attackers, side, board) {
            None => {
                stop = true;
                assert(full == gs + Seq::<int>::empty());
                assert(gs + Seq::<int>::empty() =~= gs);
            },
            Some((sq, kind)) => {
                if depth + 1 >= 32 {
                    depth = depth + 1;
                    proof {
                        gs = gs.push(0);
                        assert(full == gs);
                    }
                    stop = true;
                } else {
                    depth = depth + 1;
                    let g = next_victim_value - gain[depth - 1];
                    gain.set(depth, g);
                    proof {
                        gs = gs.push(g as int);
                    }
                    next_victim_value = value_of(kind);
                    occ = occ.without(sq);
                    if kind == PieceKind::Pawn || kind == PieceKind::Bishop || kind == PieceKind::Queen {
                        let ba = bishop_attacks(dst, occ);
                        proof {
                            assert forall|t: int| #[trigger] bit(ba.view(), t) == (0 <= t < 64 && bishop_sees(dst.view(), t, occ.view())) by {
                                assert(ba.has(t) == bishop_sees(dst.view(), t, occ.view()));
                            }
                            lemma_word_of(|t: int| bishop_sees(dst.view(), t, occ.view()), ba.view());
                        }
                        all_attackers = all_attackers | (ba & (board.pieces(PieceKind::Bishop) | board.pieces(PieceKind::Queen)));
                    }
                    if kind == PieceKind::Rook || kind == PieceKind::Queen {
                        let ra = rook_attacks(dst, occ);
                        proof {
                            assert forall|t: int| #[trigger] bit(ra.view(), t) == (0 <= t < 64 && rook_sees(dst.view(), t, occ.view())) by {
                                assert(ra.has(t) == rook_sees(dst.view(), t, occ.view()));
                            }
                            lemma_word_of(|t: int| rook_sees(dst.view(), t, occ.view()), ra.view());
                        }
                        all_attackers = all_attackers | (ra & (board.pieces(PieceKind::Rook) | board.pieces(PieceKind::Queen)));
                    }
                    all_attackers = all_attackers & occ;
                    side = side.flip();
                    proof {
                        assert(all_attackers.view() == refreshed(m, dst.view(), occ.view(), cur_att, kind));
                        assert(swap_gains(m, dst.view(), cur_occ, cur_att, cur_side, cur_nv, cur_g, cur_d) == seq![g as int]
                            + swap_gains(m, dst.view(), occ.view(), all_attackers.view(), side, next_victim_value as int, g as int, depth as int));
                        assert(full == gs + swap_gains(m, dst.view(), occ.view(), all_attackers.view(), side, next_victim_value as int, gs[depth as int], depth as int));
                    }
                }
            },
        }
    }
    let ghost d_final = depth as int;
    let mut k = depth;
    while k > 0
        invariant
            k <= d_final <= 32,
            gain@.len() == 33,
            gs.len() == d_final + 1,
            full == gs,
            forall|j: int| 0 <= j < k ==> #[trigger] gain@[j] as int == gs[j],
            gain@[k as int] as int == settle(gs.subrange(k as int, d_final + 1)),
            forall|j: int| 0 <= j <= d_final ==> -660_000 <= #[trigger] gs[j] <= 660_000,
            -660_000 <= gain@[k as int] <= 660_000,
        decreases k,
    {
        k = k - 1;
        let a = gain[k];
        let b = gain[k + 1];
        let v = if a < -b { a } else { -b };
        gain.set(k, v);
        assert(gs.subrange(k as int, d_final + 1).drop_first() =~= gs.subrange(k + 1, d_final + 1));
    }
    assert(gs.subrange(0, d_final + 1) =~= gs);
    gain[0]
}

/// Threshold version of SEE: returns true if the SEE score >= threshold.
pub fn see_ge(board: &Board, mv: Move, threshold: i32) -> (r: bool)
    ensures
        r == (see_model(board.view(), mv) >= threshold),
{
    see(board, mv) >= threshold
}

} // verus!
