//! What the static exchange sees as pieces leave the target's lines.

use vstd::prelude::*;

use crate::attacks::{abs, bishop_sees, is_sq, ray_on, ray_sees, ray_sq, rook_sees, step};
use crate::bits::{bit, lemma_bit_and, lemma_bit_not, lemma_bit_or, lemma_bit_single, lemma_bit_zero, lemma_bits_ext, lemma_zero_iff_no_bits, single};
use crate::board::BoardModel;
use crate::movegen::{kinds_apart, lemma_word_of, word_of};
use crate::piece_kind::PieceKind;
use crate::search::see::{attacker_at, candidates, first_victim, lowest, lva, occ_after_first, refreshed, see_model, see_value, settle, swap_gains};
use crate::chess_move::Move;
use crate::color::Color;
use crate::legal_apply::lemma_lowest_exists;
use crate::movegen::lowest_bit;
use crate::square::{file_of, rank_of};

verus! {

/// The bits of the squares below `n` that satisfy `p`.
spec fn word_upto(p: spec_fn(int) -> bool, n: nat) -> u64
    decreases n,
{
    if n == 0 {
        0
    } else {
        word_upto(p, (n - 1) as nat) | (if p(n - 1) { single(n - 1) } else { 0u64 })
    }
}

proof fn lemma_word_upto(p: spec_fn(int) -> bool, n: nat)
    requires
        n <= 64,
    ensures
        forall|t: int| #[trigger] bit(word_upto(p, n), t) == (0 <= t < n && p(t)),
    decreases n,
{
    if n == 0 {
        assert forall|t: int| #[trigger] bit(word_upto(p, n), t) == (0 <= t < n && p(t)) by {
            lemma_bit_zero(t);
        }
    } else {
        lemma_word_upto(p, (n - 1) as nat);
        let x = word_upto(p, (n - 1) as nat);
        let y: u64 = if p(n - 1) { single(n - 1) } else { 0u64 };
        assert forall|t: int| #[trigger] bit(word_upto(p, n), t) == (0 <= t < n && p(t)) by {
            lemma_bit_or(x, y, t);
            lemma_bit_single(n - 1, t);
            lemma_bit_zero(t);
        }
    }
}

/// The word of a predicate holds exactly the squares satisfying it.
pub proof fn lemma_word_bits(p: spec_fn(int) -> bool)
    ensures
        forall|t: int| #[trigger] bit(word_of(p), t) == (0 <= t < 64 && p(t)),
{
    lemma_word_upto(p, 64);
    lemma_word_of(p, word_upto(p, 64));
}

/// The rank and file of the `j`-th square of a ray on the board.
proof fn lemma_ray_coords(s: int, dr: int, df: int, j: int)
    requires
        is_sq(s),
        ray_on(s, dr, df, j),
    ensures
        is_sq(ray_sq(s, dr, df, j)),
        rank_of(ray_sq(s, dr, df, j)) == rank_of(s) + step(dr, j),
        file_of(ray_sq(s, dr, df, j)) == file_of(s) + step(df, j),
{
}

/// A ray sees past occupancies that block no more of it: when every square
/// of the ray blocked in `to` is blocked in `from`, what the ray reaches
/// over `from` it reaches over `to`.
proof fn lemma_ray_fewer_blockers(s: int, t: int, from: u64, to: u64, dr: int, df: int)
    requires
        is_sq(s),
        -1 <= dr <= 1,
        -1 <= df <= 1,
        forall|j: int| 1 <= j && ray_on(s, dr, df, j) && #[trigger] bit(to, ray_sq(s, dr, df, j)) ==> bit(from, ray_sq(s, dr, df, j)),
        ray_sees(s, t, from, dr, df),
    ensures
        ray_sees(s, t, to, dr, df),
{
    let k = choose|k: int|
        #![trigger ray_sq(s, dr, df, k)]
        k >= 1 && ray_on(s, dr, df, k) && ray_sq(s, dr, df, k) == t && forall|j: int|
            1 <= j < k ==> !bit(from, #[trigger] ray_sq(s, dr, df, j));
    assert forall|j: int| 1 <= j < k implies !bit(to, #[trigger] ray_sq(s, dr, df, j)) by {
        assert(ray_on(s, dr, df, j));
        assert(!bit(from, ray_sq(s, dr, df, j)));
    }
    assert(ray_sq(s, dr, df, k) == t);
}

/// Squares off a ray: no square of the ray from `dst` along `(dr, df)` is `s`
/// when `s` is not on the ray's line and side (its rank and file offsets
/// from `dst` are not `j` steps of the direction).
proof fn lemma_off_ray(dst: int, s: int, dr: int, df: int)
    requires
        is_sq(dst),
        is_sq(s),
        -1 <= dr <= 1,
        -1 <= df <= 1,
        forall|j: int| j >= 1 ==> !(rank_of(s) - rank_of(dst) == #[trigger] step(dr, j) && file_of(s) - file_of(dst) == step(df, j)),
    ensures
        forall|j: int| j >= 1 && ray_on(dst, dr, df, j) ==> #[trigger] ray_sq(dst, dr, df, j) != s,
{
    assert forall|j: int| j >= 1 && ray_on(dst, dr, df, j) implies #[trigger] ray_sq(dst, dr, df, j) != s by {
        lemma_ray_coords(dst, dr, df, j);
        assert(!(rank_of(s) - rank_of(dst) == step(dr, j) && file_of(s) - file_of(dst) == step(df, j)));
    }
}

/// Where a ray from `dst` reaches a square, the square's offsets are `j`
/// steps of the direction for some `j >= 1`.
proof fn lemma_ray_offsets(dst: int, s: int, occ: u64, dr: int, df: int)
    requires
        is_sq(dst),
        ray_sees(dst, s, occ, dr, df),
    ensures
        exists|j: int| j >= 1 && rank_of(s) - rank_of(dst) == #[trigger] step(dr, j) && file_of(s) - file_of(dst) == step(df, j),
{
    let k = choose|k: int|
        #![trigger ray_sq(dst, dr, df, k)]
        k >= 1 && ray_on(dst, dr, df, k) && ray_sq(dst, dr, df, k) == s && forall|j: int|
            1 <= j < k ==> !bit(occ, #[trigger] ray_sq(dst, dr, df, j));
    lemma_ray_coords(dst, dr, df, k);
    assert(step(dr, k) == step(dr, k));
}

/// Removing the square `s` from the occupancy: no ray from `dst` loses its
/// view, and a family of rays (the lines, or the diagonals) that does not
/// pass through `s` sees exactly what it saw.
proof fn lemma_removal_views(dst: int, t: int, occ: u64, s: int)
    requires
        is_sq(dst),
        is_sq(s),
    ensures
        rook_sees(dst, t, occ) ==> rook_sees(dst, t, occ & !single(s)),
        bishop_sees(dst, t, occ) ==> bishop_sees(dst, t, occ & !single(s)),
        rank_of(s) != rank_of(dst) && file_of(s) != file_of(dst) ==> (rook_sees(dst, t, occ & !single(s)) ==> rook_sees(dst, t, occ)),
        abs(rank_of(s) - rank_of(dst)) != abs(file_of(s) - file_of(dst)) || rank_of(s) == rank_of(dst) ==> (bishop_sees(
            dst,
            t,
            occ & !single(s),
        ) ==> bishop_sees(dst, t, occ)),
{
    let occ2 = occ & !single(s);
    assert forall|x: int| #[trigger] bit(occ2, x) == (bit(occ, x) && x != s) by {
        lemma_bit_and(occ, !single(s), x);
        lemma_bit_not(single(s), x);
        lemma_bit_single(s, x);
    }
    let dirs = seq![(1int, 0int), (-1int, 0int), (0int, 1int), (0int, -1int), (1int, 1int), (1int, -1int), (-1int, 1int), (-1int, -1int)];
    assert forall|i: int| 0 <= i < 8 implies (ray_sees(dst, t, occ, #[trigger] dirs[i].0, dirs[i].1) ==> ray_sees(
        dst,
        t,
        occ2,
        dirs[i].0,
        dirs[i].1,
    )) by {
        if ray_sees(dst, t, occ, dirs[i].0, dirs[i].1) {
            lemma_ray_fewer_blockers(dst, t, occ, occ2, dirs[i].0, dirs[i].1);
        }
    }
    assert(ray_sees(dst, t, occ, 1, 0) ==> ray_sees(dst, t, occ2, 1, 0)) by { assert(dirs[0] == (1int, 0int)); }
    assert(ray_sees(dst, t, occ, -1, 0) ==> ray_sees(dst, t, occ2, -1, 0)) by { assert(dirs[1] == (-1int, 0int)); }
    assert(ray_sees(dst, t, occ, 0, 1) ==> ray_sees(dst, t, occ2, 0, 1)) by { assert(dirs[2] == (0int, 1int)); }
    assert(ray_sees(dst, t, occ, 0, -1) ==> ray_sees(dst, t, occ2, 0, -1)) by { assert(dirs[3] == (0int, -1int)); }
    assert(ray_sees(dst, t, occ, 1, 1) ==> ray_sees(dst, t, occ2, 1, 1)) by { assert(dirs[4] == (1int, 1int)); }
    assert(ray_sees(dst, t, occ, 1, -1) ==> ray_sees(dst, t, occ2, 1, -1)) by { assert(dirs[5] == (1int, -1int)); }
    assert(ray_sees(dst, t, occ, -1, 1) ==> ray_sees(dst, t, occ2, -1, 1)) by { assert(dirs[6] == (-1int, 1int)); }
    assert(ray_sees(dst, t, occ, -1, -1) ==> ray_sees(dst, t, occ2, -1, -1)) by { assert(dirs[7] == (-1int, -1int)); }
    if rank_of(s) != rank_of(dst) && file_of(s) != file_of(dst) {
        lemma_back_family(dst, t, occ, s, 1, 0);
        lemma_back_family(dst, t, occ, s, -1, 0);
        lemma_back_family(dst, t, occ, s, 0, 1);
        lemma_back_family(dst, t, occ, s, 0, -1);
    }
    if abs(rank_of(s) - rank_of(dst)) != abs(file_of(s) - file_of(dst)) || rank_of(s) == rank_of(dst) {
        lemma_back_family(dst, t, occ, s, 1, 1);
        lemma_back_family(dst, t, occ, s, 1, -1);
        lemma_back_family(dst, t, occ, s, -1, 1);
        lemma_back_family(dst, t, occ, s, -1, -1);
    }
}

/// A ray that does not pass through `s` sees over the occupancy without `s`
/// only what it saw with it.
proof fn lemma_back_family(dst: int, t: int, occ: u64, s: int, dr: int, df: int)
    requires
        is_sq(dst),
        is_sq(s),
        -1 <= dr <= 1,
        -1 <= df <= 1,
        dr != 0 || df != 0,
        dr == 0 || df == 0 ==> rank_of(s) != rank_of(dst) && file_of(s) != file_of(dst),
        dr != 0 && df != 0 ==> abs(rank_of(s) - rank_of(dst)) != abs(file_of(s) - file_of(dst)) || rank_of(s) == rank_of(dst),
    ensures
        ray_sees(dst, t, occ & !single(s), dr, df) ==> ray_sees(dst, t, occ, dr, df),
{
    let occ2 = occ & !single(s);
    assert forall|j: int| j >= 1 implies !(rank_of(s) - rank_of(dst) == #[trigger] step(dr, j) && file_of(s) - file_of(dst) == step(
        df,
        j,
    )) by {}
    lemma_off_ray(dst, s, dr, df);
    assert forall|x: int| #[trigger] bit(occ2, x) == (bit(occ, x) && x != s) by {
        lemma_bit_and(occ, !single(s), x);
        lemma_bit_not(single(s), x);
        lemma_bit_single(s, x);
    }
    if ray_sees(dst, t, occ2, dr, df) {
        lemma_ray_fewer_blockers(dst, t, occ2, occ, dr, df);
    }
}

/// The pieces standing in `occ` that attack `dst` over `occ`.
pub open spec fn true_attackers(m: BoardModel, dst: int, occ: u64) -> u64 {
    word_of(|a: int| attacker_at(m, dst, occ, a)) & occ
}

/// The offsets of an attacker of `dst` from it, by the kind of piece it is,
/// keep it off the lines (pawn, knight, bishop) or off the diagonals
/// (knight, rook) through `dst`.
proof fn lemma_attacker_offsets(m: BoardModel, dst: int, occ: u64, s: int, k: PieceKind)
    requires
        m.shaped(),
        kinds_apart(m),
        is_sq(dst),
        is_sq(s),
        attacker_at(m, dst, occ, s),
        bit(m.pieces[k.idx()], s),
    ensures
        k == PieceKind::Pawn || k == PieceKind::Knight || k == PieceKind::Bishop ==> rank_of(s) != rank_of(dst) && file_of(s)
            != file_of(dst),
        k == PieceKind::Knight || k == PieceKind::Rook ==> abs(rank_of(s) - rank_of(dst)) != abs(file_of(s) - file_of(dst))
            || rank_of(s) == rank_of(dst),
{
    assert(!(bit(m.pieces[0], s) && bit(m.pieces[1], s)));
    assert(!(bit(m.pieces[0], s) && bit(m.pieces[2], s)));
    assert(!(bit(m.pieces[0], s) && bit(m.pieces[3], s)));
    assert(!(bit(m.pieces[0], s) && bit(m.pieces[4], s)));
    assert(!(bit(m.pieces[0], s) && bit(m.pieces[5], s)));
    assert(!(bit(m.pieces[1], s) && bit(m.pieces[2], s)));
    assert(!(bit(m.pieces[1], s) && bit(m.pieces[3], s)));
    assert(!(bit(m.pieces[1], s) && bit(m.pieces[4], s)));
    assert(!(bit(m.pieces[1], s) && bit(m.pieces[5], s)));
    assert(!(bit(m.pieces[2], s) && bit(m.pieces[3], s)));
    assert(!(bit(m.pieces[2], s) && bit(m.pieces[4], s)));
    assert(!(bit(m.pieces[2], s) && bit(m.pieces[5], s)));
    assert(!(bit(m.pieces[3], s) && bit(m.pieces[4], s)));
    assert(!(bit(m.pieces[3], s) && bit(m.pieces[5], s)));
    lemma_bit_and(m.pieces[0], m.sides[0], s);
    lemma_bit_and(m.pieces[0], m.sides[1], s);
    if k == PieceKind::Bishop {
        assert(bishop_sees(dst, s, occ));
        if ray_sees(dst, s, occ, 1, 1) {
            lemma_ray_offsets(dst, s, occ, 1, 1);
        } else if ray_sees(dst, s, occ, 1, -1) {
            lemma_ray_offsets(dst, s, occ, 1, -1);
        } else if ray_sees(dst, s, occ, -1, 1) {
            lemma_ray_offsets(dst, s, occ, -1, 1);
        } else {
            lemma_ray_offsets(dst, s, occ, -1, -1);
        }
    }
    if k == PieceKind::Rook {
        assert(rook_sees(dst, s, occ));
        if ray_sees(dst, s, occ, 1, 0) {
            lemma_ray_offsets(dst, s, occ, 1, 0);
        } else if ray_sees(dst, s, occ, -1, 0) {
            lemma_ray_offsets(dst, s, occ, -1, 0);
        } else if ray_sees(dst, s, occ, 0, 1) {
            lemma_ray_offsets(dst, s, occ, 0, 1);
        } else {
            lemma_ray_offsets(dst, s, occ, 0, -1);
        }
    }
}

/// X-ray discovery: when an attacker other than a king leaves the target's
/// square set, the attacker set the exchange continues with is exactly the
/// set of pieces that attack the target over the occupancy without it —
/// the bishops, rooks and queens it was screening join, and nothing else
/// changes but its own departure.
pub proof fn lemma_xray_refresh(m: BoardModel, dst: int, occ: u64, s: int, k: PieceKind)
    requires
        m.shaped(),
        kinds_apart(m),
        is_sq(dst),
        bit(true_attackers(m, dst, occ), s),
        bit(m.pieces[k.idx()], s),
        k != PieceKind::King,
    ensures
        refreshed(m, dst, occ & !single(s), true_attackers(m, dst, occ), k) == true_attackers(m, dst, occ & !single(s)),
{
    let occ2 = occ & !single(s);
    let att = true_attackers(m, dst, occ);
    let w1 = word_of(|a: int| attacker_at(m, dst, occ, a));
    let w2 = word_of(|a: int| attacker_at(m, dst, occ2, a));
    let bw = word_of(|t: int| bishop_sees(dst, t, occ2));
    let rw = word_of(|t: int| rook_sees(dst, t, occ2));
    lemma_word_bits(|a: int| attacker_at(m, dst, occ, a));
    lemma_word_bits(|a: int| attacker_at(m, dst, occ2, a));
    lemma_word_bits(|t: int| bishop_sees(dst, t, occ2));
    lemma_word_bits(|t: int| rook_sees(dst, t, occ2));
    lemma_bit_and(w1, occ, s);
    assert(is_sq(s));
    lemma_attacker_offsets(m, dst, occ, s, k);
    let bq = m.pieces[2] | m.pieces[4];
    let rq = m.pieces[3] | m.pieces[4];
    let diag = bw & bq;
    let orth = rw & rq;
    let a1 = if k == PieceKind::Pawn || k == PieceKind::Bishop || k == PieceKind::Queen { att | diag } else { att };
    let a2 = if k == PieceKind::Rook || k == PieceKind::Queen { a1 | orth } else { a1 };
    assert(refreshed(m, dst, occ2, att, k) == a2 & occ2);
    assert forall|t: int| 0 <= t < 64 implies #[trigger] bit(a2 & occ2, t) == bit(true_attackers(m, dst, occ2), t) by {
        lemma_removal_views(dst, t, occ, s);
        lemma_bit_and(occ, !single(s), t);
        lemma_bit_not(single(s), t);
        lemma_bit_single(s, t);
        lemma_bit_and(w1, occ, t);
        lemma_bit_and(w2, occ2, t);
        lemma_bit_and(bw, bq, t);
        lemma_bit_and(rw, rq, t);
        lemma_bit_or(m.pieces[2], m.pieces[4], t);
        lemma_bit_or(m.pieces[3], m.pieces[4], t);
        lemma_bit_or(att, diag, t);
        lemma_bit_or(a1, orth, t);
        lemma_bit_and(a2, occ2, t);
    }
    lemma_bits_ext(a2 & occ2, true_attackers(m, dst, occ2));
}

/// The SEE value grows with the kind index: pawn, knight, bishop, rook,
/// queen, king.
pub proof fn lemma_see_value_order(a: PieceKind, b: PieceKind)
    ensures
        a.idx() < b.idx() ==> see_value(a) < see_value(b),
{
}

/// The chosen recapturer is an attacker of `side` in `att`, no attacker of
/// `side` is of a cheaper kind, and among those of its kind it stands on the
/// lowest square; with no attacker of `side` there is none.
pub proof fn lemma_lva_least(m: BoardModel, att: u64, side: Color)
    requires
        m.shaped(),
    ensures
        lva(m, att, side) matches Some((sq, k)) ==> {
            &&& bit(att, sq) && bit(m.sides[side.idx()], sq) && bit(m.pieces[k.idx()], sq)
            &&& forall|a: int, j: int|
                0 <= j < k.idx() && bit(att, a) && bit(m.sides[side.idx()], a) ==> !#[trigger] bit(m.pieces[j], a)
            &&& forall|a: int| 0 <= a < sq && bit(att, a) && bit(m.sides[side.idx()], a) ==> !#[trigger] bit(m.pieces[k.idx()], a)
        },
        lva(m, att, side) is None ==> forall|a: int, j: int|
            0 <= j < 6 && bit(att, a) && bit(m.sides[side.idx()], a) ==> !#[trigger] bit(m.pieces[j], a),
{
    let sd = m.sides[side.idx()];
    assert forall|j: int, a: int| 0 <= j < 6 implies #[trigger] bit(candidates(m, att, side, j), a) == (bit(att, a) && bit(sd, a)
        && #[trigger] bit(m.pieces[j], a)) by {
        lemma_bit_and(att & sd, m.pieces[j], a);
        lemma_bit_and(att, sd, a);
    }
    assert forall|j: int| 0 <= j < 6 && #[trigger] candidates(m, att, side, j) == 0 implies forall|a: int|
        bit(att, a) && bit(sd, a) ==> !#[trigger] bit(m.pieces[j], a) by {
        lemma_zero_iff_no_bits(candidates(m, att, side, j));
        assert forall|a: int| bit(att, a) && bit(sd, a) implies !#[trigger] bit(m.pieces[j], a) by {
            assert(!bit(candidates(m, att, side, j), a));
        }
    }
    if let Some((sq, k)) = lva(m, att, side) {
        let j = k.idx();
        let c = candidates(m, att, side, j);
        assert(c != 0);
        lemma_zero_iff_no_bits(c);
        let w = choose|a: int| 0 <= a < 64 && #[trigger] bit(c, a);
        lemma_lowest_exists(c, w);
        let l = choose|l: int| lowest_bit(c, l);
        assert(lowest(c) == l) by {
            let l2 = lowest(c);
            assert(lowest_bit(c, l2));
            if l2 < l {
                assert(!bit(c, l2));
            }
            if l < l2 {
                assert(!bit(c, l));
            }
        }
        assert(sq == l);
        assert(bit(c, sq));
        assert forall|a: int| 0 <= a < sq && bit(att, a) && bit(sd, a) implies !#[trigger] bit(m.pieces[k.idx()], a) by {
            assert(!bit(c, a));
        }
        assert forall|a: int, i: int| 0 <= i < k.idx() && bit(att, a) && bit(sd, a) implies !#[trigger] bit(m.pieces[i], a) by {
            if i == 0 {
                assert(candidates(m, att, side, 0) == 0);
            } else if i == 1 {
                assert(candidates(m, att, side, 1) == 0);
            } else if i == 2 {
                assert(candidates(m, att, side, 2) == 0);
            } else if i == 3 {
                assert(candidates(m, att, side, 3) == 0);
            } else {
                assert(candidates(m, att, side, 4) == 0);
            }
        }
        lemma_bit_and(att & sd, m.pieces[j], sq);
        lemma_bit_and(att, sd, sq);
    }
}

/// A capture is never worth more than what it takes: the capturing side may
/// always stop after it.
pub proof fn lemma_see_at_most_victim(m: BoardModel, mv: Move)
    ensures
        see_model(m, mv) <= first_victim(m, mv),
{
    let occ = occ_after_first(m, mv);
    let att = word_of(|a: int| attacker_at(m, mv.dst(), occ, a)) & occ;
    let rest = swap_gains(m, mv.dst(), occ, att, m.side_to_move.opp(), crate::search::see::first_attacker(m, mv), first_victim(m, mv), 0);
    let gs = seq![first_victim(m, mv)] + rest;
    assert(gs[0] == first_victim(m, mv));
    if gs.len() > 1 {
        assert(settle(gs) == if gs[0] < -settle(gs.drop_first()) { gs[0] } else { -settle(gs.drop_first()) });
    }
}

/// A capture no piece of the other side can answer gains exactly the piece
/// it takes.
pub proof fn lemma_unanswered_capture(m: BoardModel, mv: Move)
    requires
        m.shaped(),
        forall|a: int|
            !(#[trigger] bit(true_attackers(m, mv.dst(), occ_after_first(m, mv)), a) && bit(m.sides[m.side_to_move.opp().idx()], a)),
    ensures
        see_model(m, mv) == first_victim(m, mv),
{
    let occ = occ_after_first(m, mv);
    let att = true_attackers(m, mv.dst(), occ);
    assert(att == word_of(|a: int| attacker_at(m, mv.dst(), occ, a)) & occ);
    lemma_lva_least(m, att, m.side_to_move.opp());
    if let Some((sq, k)) = lva(m, att, m.side_to_move.opp()) {
        assert(bit(att, sq) && bit(m.sides[m.side_to_move.opp().idx()], sq));
    }
    let rest = swap_gains(m, mv.dst(), occ, att, m.side_to_move.opp(), crate::search::see::first_attacker(m, mv), first_victim(m, mv), 0);
    assert(rest == Seq::<int>::empty());
    let gs = seq![first_victim(m, mv)] + rest;
    assert(gs =~= seq![first_victim(m, mv)]);
}

/// The gains of the recaptures on `dst` when each side takes with its least
/// valuable attacker among the pieces that really attack `dst` over the
/// occupancy left at that point.
pub open spec fn true_gains(m: BoardModel, dst: int, occ: u64, side: Color, nv: int, g: int, d: int) -> Seq<int>
    decreases 32 - d,
{
    if d >= 32 {
        Seq::empty()
    } else {
        match lva(m, true_attackers(m, dst, occ), side) {
            None => Seq::empty(),
            Some((sq, kind)) => {
                if d + 1 >= 32 {
                    seq![0]
                } else {
                    let g2 = nv - g;
                    seq![g2] + true_gains(m, dst, occ & !single(sq), side.opp(), see_value(kind), g2, d + 1)
                }
            },
        }
    }
}

/// With no king next to the target, the exchange sequence is the one built
/// from the real attackers at every step.
proof fn lemma_gains_true(m: BoardModel, dst: int, occ: u64, side: Color, nv: int, g: int, d: int)
    requires
        m.shaped(),
        kinds_apart(m),
        is_sq(dst),
        forall|a: int| !(bit(m.pieces[5], a) && #[trigger] crate::attacks::king_geom(dst, a)),
    ensures
        swap_gains(m, dst, occ, true_attackers(m, dst, occ), side, nv, g, d) == true_gains(m, dst, occ, side, nv, g, d),
    decreases 32 - d,
{
    let att = true_attackers(m, dst, occ);
    if d < 32 {
        lemma_lva_least(m, att, side);
        if let Some((sq, kind)) = lva(m, att, side) {
            if d + 1 < 32 {
                let occ2 = occ & !single(sq);
                if kind == PieceKind::King {
                    let w1 = word_of(|a: int| attacker_at(m, dst, occ, a));
                    lemma_word_bits(|a: int| attacker_at(m, dst, occ, a));
                    lemma_bit_and(w1, occ, sq);
                    assert(!(bit(m.pieces[5], sq) && crate::attacks::king_geom(dst, sq)));
                    assert(!(bit(m.pieces[0], sq) && bit(m.pieces[5], sq)));
                    assert(!(bit(m.pieces[1], sq) && bit(m.pieces[5], sq)));
                    assert(!(bit(m.pieces[2], sq) && bit(m.pieces[5], sq)));
                    assert(!(bit(m.pieces[3], sq) && bit(m.pieces[5], sq)));
                    assert(!(bit(m.pieces[4], sq) && bit(m.pieces[5], sq)));
                    lemma_bit_and(m.pieces[0], m.sides[0], sq);
                    lemma_bit_and(m.pieces[0], m.sides[1], sq);
                    assert(false);
                }
                lemma_xray_refresh(m, dst, occ, sq, kind);
                lemma_gains_true(m, dst, occ2, side.opp(), see_value(kind), nv - g, d + 1);
            }
        }
    }
}

/// Static exchange evaluation is the minimax over the capture sequence in
/// which each side takes with its least valuable attacker among the pieces
/// that really attack the target once the earlier captures have left it,
/// X-ray attackers included (on a board where no king stands next to the
/// target and no square holds two kinds).
pub proof fn lemma_see_real_attackers(m: BoardModel, mv: Move)
    requires
        m.shaped(),
        kinds_apart(m),
        is_sq(mv.dst()),
        forall|a: int| !(bit(m.pieces[5], a) && #[trigger] crate::attacks::king_geom(mv.dst(), a)),
    ensures
        see_model(m, mv) == settle(
            seq![first_victim(m, mv)] + true_gains(
                m,
                mv.dst(),
                occ_after_first(m, mv),
                m.side_to_move.opp(),
                crate::search::see::first_attacker(m, mv),
                first_victim(m, mv),
                0,
            ),
        ),
{
    let occ = occ_after_first(m, mv);
    assert(true_attackers(m, mv.dst(), occ) == word_of(|a: int| attacker_at(m, mv.dst(), occ, a)) & occ);
    lemma_gains_true(m, mv.dst(), occ, m.side_to_move.opp(), crate::search::see::first_attacker(m, mv), first_victim(m, mv), 0);
}

} // verus!
