//! Legal move generation.
//!
//! Moves are described by their 16-bit codes (see [`move_code`]). Each
//! generator adds to a [`MoveList`] exactly the moves of one class, given the
//! pinned pieces and the check mask; [`generate_legal_moves`] combines them.

use vstd::prelude::*;

use crate::attacks::{
    between, between_geom, bishop_attacks, bishop_sees, is_sq, king_attacks, king_geom, knight_attacks,
    knight_geom, line, line_geom, pawn_attacks, pawn_geom, rook_attacks, rook_sees,
};
use crate::bitboard::Bitboard;
use crate::bits::{bit, single, lemma_bit_and, lemma_bit_not, lemma_bit_or, lemma_popcount_pop, lemma_zero_iff_no_bits, popcount};
use crate::board::{Board, BoardModel};
use crate::castle_rights::CastleRights;
use crate::make_move::attacked_by;
use crate::chess_move::{move_code, Move, PromotionPiece};
use crate::color::Color;
use crate::piece_kind::PieceKind;
use crate::square::Square;

verus! {

broadcast use Square::lemma_range, Bitboard::lemma_from_bits, Board::lemma_shaped;

// ---------------------------------------------------------------------------
// Move codes
// ---------------------------------------------------------------------------

/// Source square of a move code.
pub open spec fn code_src(c: int) -> int {
    c % 64
}

/// Destination square of a move code.
pub open spec fn code_dst(c: int) -> int {
    (c / 64) % 64
}

/// Promotion field of a move code.
pub open spec fn code_promo(c: int) -> int {
    (c / 4096) % 4
}

/// Kind field of a move code (0 normal, 1 promotion, 2 en passant, 3 castling).
pub open spec fn code_kind(c: int) -> int {
    c / 16384
}

/// Encoding and decoding move codes are inverse.
pub proof fn lemma_code_fields(s: int, d: int, p: int, k: int)
    by (nonlinear_arith)
    requires
        0 <= s < 64,
        0 <= d < 64,
        0 <= p < 4,
        0 <= k < 4,
    ensures
        code_src(move_code(s, d, p, k)) == s,
        code_dst(move_code(s, d, p, k)) == d,
        code_promo(move_code(s, d, p, k)) == p,
        code_kind(move_code(s, d, p, k)) == k,
        0 <= move_code(s, d, p, k) < 65536,
{
}

/// A code in range is the code of its fields.
pub proof fn lemma_code_decompose(c: int)
    by (nonlinear_arith)
    requires
        0 <= c < 65536,
    ensures
        c == move_code(code_src(c), code_dst(c), code_promo(c), code_kind(c)),
        0 <= code_src(c) < 64,
        0 <= code_dst(c) < 64,
        0 <= code_promo(c) < 4,
        0 <= code_kind(c) < 4,
{
}

// ---------------------------------------------------------------------------
// Move list
// ---------------------------------------------------------------------------

/// Whether some move of `ms` has code `c`.
pub open spec fn listed(ms: Seq<Move>, c: int) -> bool {
    exists|i: int| 0 <= i < ms.len() && (#[trigger] ms[i]).view() == c
}

proof fn lemma_listed_push(ms: Seq<Move>, mv: Move)
    ensures
        forall|c: int| #[trigger] listed(ms.push(mv), c) == (listed(ms, c) || mv.view() == c),
{
    assert forall|c: int| #[trigger] listed(ms.push(mv), c) == (listed(ms, c) || mv.view() == c) by {
        if listed(ms, c) {
            let i = choose|i: int| 0 <= i < ms.len() && (#[trigger] ms[i]).view() == c;
            assert(ms.push(mv)[i] == ms[i]);
        }
        if mv.view() == c {
            assert(ms.push(mv)[ms.len() as int] == mv);
        }
        if listed(ms.push(mv), c) {
            let i = choose|i: int| 0 <= i < ms.len() + 1 && (#[trigger] ms.push(mv)[i]).view() == c;
            if i < ms.len() {
                assert(ms[i] == ms.push(mv)[i]);
            }
        }
    }
}

/// No two moves of `ms` have the same code.
pub open spec fn distinct(ms: Seq<Move>) -> bool {
    forall|i: int, j: int| 0 <= i < j < ms.len() ==> (#[trigger] ms[i]).view() != (#[trigger] ms[j]).view()
}

/// Pushing a move whose code is not listed keeps the codes distinct.
proof fn lemma_distinct_push(ms: Seq<Move>, mv: Move)
    requires
        distinct(ms),
        !listed(ms, mv.view() as int),
    ensures
        distinct(ms.push(mv)),
{
    assert forall|i: int, j: int| 0 <= i < j < ms.push(mv).len() implies (#[trigger] ms.push(mv)[i]).view() != (
    #[trigger] ms.push(mv)[j]).view() by {
        if j == ms.len() {
            assert(ms.push(mv)[i] == ms[i]);
            if ms[i].view() == mv.view() {
                assert(listed(ms, mv.view() as int));
            }
        } else {
            assert(ms.push(mv)[i] == ms[i]);
            assert(ms.push(mv)[j] == ms[j]);
        }
    }
}

/// A growable buffer of generated moves.
pub struct MoveList {
    moves: Vec<Move>,
}

impl View for MoveList {
    type V = Seq<Move>;

    closed spec fn view(&self) -> Seq<Move> {
        self.moves@
    }
}

impl MoveList {
    /// Create an empty move list.
    pub fn new() -> (r: MoveList)
        ensures
            r.view() == Seq::<Move>::empty(),
    {
        MoveList { moves: Vec::new() }
    }

    /// Push a move onto the list.
    pub fn push(&mut self, mv: Move)
        ensures
            final(self)@ == old(self)@.push(mv),
    {
        self.moves.push(mv);
    }

    /// Return the number of moves in the list.
    pub fn len(&self) -> (r: usize)
        ensures
            r == self@.len(),
    {
        self.moves.len()
    }

    /// Return `true` if the list is empty.
    pub fn is_empty(&self) -> (r: bool)
        ensures
            r == (self@.len() == 0),
    {
        self.moves.len() == 0
    }

    /// Return a slice of the moves.
    pub fn as_slice(&self) -> (r: &[Move])
        ensures
            r.view() == self@,
    {
        self.moves.as_slice()
    }

    /// The move at position `index`.
    pub fn get(&self, index: usize) -> (r: Move)
        requires
            index < self@.len(),
        ensures
            r == self@[index as int],
    {
        self.moves[index]
    }
}

impl Default for MoveList {
    fn default() -> (r: MoveList)
        ensures
            r.view() == Seq::<Move>::empty(),
    {
        MoveList::new()
    }
}

// ---------------------------------------------------------------------------
// Draining bitboards
// ---------------------------------------------------------------------------

/// Popping the lowest square of `b` leaves `rest`, one bit fewer.
proof fn lemma_pop(b: Bitboard, s: int, rest: Bitboard)
    requires
        b.has(s),
        forall|j: int| #[trigger] rest.has(j) == (b.has(j) && j != s),
    ensures
        popcount(rest.view()) < popcount(b.view()),
{
    assert forall|j: int| #[trigger] bit(rest.view(), j) == (bit(b.view(), j) && j != s) by {
        assert(rest.has(j) == (b.has(j) && j != s));
    }
    lemma_popcount_pop(b.view(), rest.view(), s);
}

/// An empty bitboard has no squares.
proof fn lemma_drained(b: Bitboard)
    requires
        b.view() == 0,
    ensures
        forall|j: int| !#[trigger] b.has(j),
{
    lemma_zero_iff_no_bits(b.view());
}

/// The normal moves from `src` to the squares of `targets`.
pub open spec fn normal_moves_to(src: int, targets: u64, c: int) -> bool {
    0 <= c < 4096 && code_src(c) == src && bit(targets, code_dst(c))
}

/// Push a normal move from `src` to every square of `targets`.
fn push_targets(list: &mut MoveList, src: Square, targets: Bitboard)
    ensures
        forall|c: int| #[trigger] listed(final(list)@, c) == (listed(old(list)@, c) || normal_moves_to(src.view(), targets.view(), c)),
        distinct(old(list)@) && (forall|c: int| #![trigger listed(old(list)@, c)] normal_moves_to(src.view(), targets.view(), c)
            ==> !listed(old(list)@, c)) ==> distinct(final(list)@),
{
    let ghost fresh = distinct(old(list)@) && (forall|c: int| #![trigger listed(old(list)@, c)] normal_moves_to(src.view(), targets.view(), c)
        ==> !listed(old(list)@, c));
    let mut rest = targets;
    while rest.is_nonempty()
        invariant
            fresh == (distinct(old(list)@) && (forall|c: int| #![trigger listed(old(list)@, c)] normal_moves_to(src.view(), targets.view(), c)
                ==> !listed(old(list)@, c))),
            fresh ==> distinct(list@),
            forall|j: int| #[trigger] rest.has(j) ==> targets.has(j),
            forall|c: int| #[trigger] listed(list@, c) == (listed(old(list)@, c) || (normal_moves_to(src.view(), targets.view(), c)
                && !rest.has(code_dst(c)))),
        decreases popcount(rest.view()),
    {
        if let Some((dst, next)) = rest.pop_lsb() {
            proof {
                lemma_pop(rest, dst.view(), next);
            }
            let mv = Move::new(src, dst);
            proof {
                lemma_listed_push(list@, mv);
                lemma_code_fields(src.view(), dst.view(), 0, 0);
                assert(normal_moves_to(src.view(), targets.view(), mv.view() as int));
                if fresh {
                    assert(!listed(old(list)@, mv.view() as int));
                    assert(!listed(list@, mv.view() as int));
                    lemma_distinct_push(list@, mv);
                }
                assert forall|c: int| #[trigger] listed(list@.push(mv), c) == (listed(old(list)@, c) || (normal_moves_to(src.view(), targets.view(), c)
                    && !next.has(code_dst(c)))) by {
                    if 0 <= c < 4096 && code_src(c) == src.view() && code_dst(c) == dst.view() {
                        lemma_code_decompose(c);
                    }
                }
            }
            list.push(mv);
            rest = next;
        }
    }
    proof {
        lemma_drained(rest);
    }
}

/// The four promotion codes from `src` to `dst`.
pub open spec fn promotion_moves(src: int, dst: int, c: int) -> bool {
    0 <= c < 65536 && code_kind(c) == 1 && code_src(c) == src && code_dst(c) == dst
}

/// Push the four promotions from `src` to `dst` (knight, bishop, rook, queen).
fn push_promotions(list: &mut MoveList, src: Square, dst: Square)
    ensures
        forall|c: int| #[trigger] listed(final(list)@, c) == (listed(old(list)@, c) || promotion_moves(src.view(), dst.view(), c)),
        distinct(old(list)@) && (forall|c: int| #![trigger listed(old(list)@, c)] promotion_moves(src.view(), dst.view(), c)
            ==> !listed(old(list)@, c)) ==> distinct(final(list)@),
{
    let ghost l0 = list@;
    let m0 = Move::new_promotion(src, dst, PromotionPiece::Knight);
    let m1 = Move::new_promotion(src, dst, PromotionPiece::Bishop);
    let m2 = Move::new_promotion(src, dst, PromotionPiece::Rook);
    let m3 = Move::new_promotion(src, dst, PromotionPiece::Queen);
    proof {
        lemma_listed_push(l0, m0);
        lemma_listed_push(l0.push(m0), m1);
        lemma_listed_push(l0.push(m0).push(m1), m2);
        lemma_listed_push(l0.push(m0).push(m1).push(m2), m3);
        lemma_code_fields(src.view(), dst.view(), 0, 1);
        lemma_code_fields(src.view(), dst.view(), 1, 1);
        lemma_code_fields(src.view(), dst.view(), 2, 1);
        lemma_code_fields(src.view(), dst.view(), 3, 1);
        assert forall|c: int| #[trigger] promotion_moves(src.view(), dst.view(), c) implies c == m0.view() || c == m1.view() || c
            == m2.view() || c == m3.view() by {
            lemma_code_decompose(c);
        }
        assert(promotion_moves(src.view(), dst.view(), m0.view() as int));
        assert(promotion_moves(src.view(), dst.view(), m1.view() as int));
        assert(promotion_moves(src.view(), dst.view(), m2.view() as int));
        assert(promotion_moves(src.view(), dst.view(), m3.view() as int));
        if distinct(l0) && (forall|c: int| #![trigger listed(l0, c)] promotion_moves(src.view(), dst.view(), c) ==> !listed(l0, c)) {
            assert(!listed(l0, m0.view() as int));
            assert(!listed(l0, m1.view() as int));
            assert(!listed(l0, m2.view() as int));
            assert(!listed(l0, m3.view() as int));
            lemma_distinct_push(l0, m0);
            lemma_distinct_push(l0.push(m0), m1);
            lemma_distinct_push(l0.push(m0).push(m1), m2);
            lemma_distinct_push(l0.push(m0).push(m1).push(m2), m3);
        }
    }
    list.push(m0);
    list.push(m1);
    list.push(m2);
    list.push(m3);
}

// ---------------------------------------------------------------------------
// Knights and sliders
// ---------------------------------------------------------------------------

/// A knight move of the side to move: not pinned, onto a square that is not
/// friendly and lies in the check mask.
pub open spec fn knight_move(m: BoardModel, pinned: u64, mask: u64, c: int) -> bool {
    let us = m.side_to_move.idx();
    let s = code_src(c);
    let d = code_dst(c);
    &&& 0 <= c < 4096
    &&& bit(m.pieces[1] & m.sides[us], s)
    &&& !bit(pinned, s)
    &&& knight_geom(s, d)
    &&& !bit(m.sides[us], d)
    &&& bit(mask, d)
}

/// Generate legal knight moves.
fn gen_knights(board: &Board, pinned: Bitboard, check_mask: Bitboard, list: &mut MoveList)
    ensures
        forall|c: int| #[trigger] listed(final(list)@, c) == (listed(old(list)@, c) || knight_move(board.view(), pinned.view(), check_mask.view(), c)),
        distinct(old(list)@) && (forall|c: int| #![trigger listed(old(list)@, c)] knight_move(board.view(), pinned.view(), check_mask.view(), c)
            ==> !listed(old(list)@, c)) ==> distinct(final(list)@),
{
    let ghost m = board.view();
    let ghost fresh = distinct(old(list)@) && (forall|c: int| #![trigger listed(old(list)@, c)] knight_move(m, pinned.view(), check_mask.view(), c)
        ==> !listed(old(list)@, c));
    let us = board.side_to_move();
    let friendly = board.side(us);
    let all = board.pieces(PieceKind::Knight) & friendly;
    let mut knights = all;
    while knights.is_nonempty()
        invariant
            m == board.view(),
            fresh == (distinct(old(list)@) && (forall|c: int| #![trigger listed(old(list)@, c)] knight_move(m, pinned.view(), check_mask.view(), c)
                ==> !listed(old(list)@, c))),
            fresh ==> distinct(list@),
            friendly.view() == m.sides[m.side_to_move.idx()],
            all.view() == m.pieces[1] & friendly.view(),
            forall|j: int| #[trigger] knights.has(j) ==> all.has(j),
            forall|c: int| #[trigger] listed(list@, c) == (listed(old(list)@, c) || (knight_move(m, pinned.view(), check_mask.view(), c)
                && !knights.has(code_src(c)))),
        decreases popcount(knights.view()),
    {
        if let Some((src, next)) = knights.pop_lsb() {
            proof {
                lemma_pop(knights, src.view(), next);
            }
            if !pinned.contains(src) {
                let ka = knight_attacks(src);
                let targets = ka & Bitboard::new(!friendly.inner()) & check_mask;
                let ghost l1 = list@;
                proof {
                    if fresh {
                        assert forall|c: int| #![trigger listed(l1, c)] normal_moves_to(src.view(), targets.view(), c) implies !listed(l1, c) by {
                            let d = code_dst(c);
                            assert(ka.has(d) == knight_geom(src.view(), d));
                            lemma_bit_and(ka.view() & !(friendly.view()), check_mask.view(), d);
                            lemma_bit_and(ka.view(), !(friendly.view()), d);
                            lemma_bit_not(friendly.view(), d);
                            lemma_bit_and(m.pieces[1], friendly.view(), code_src(c));
                            assert(knight_move(m, pinned.view(), check_mask.view(), c));
                            assert(knights.has(code_src(c)));
                        }
                    }
                }
                push_targets(list, src, targets);
                proof {
                    assert forall|c: int| #[trigger] listed(list@, c) == (listed(old(list)@, c) || (knight_move(m, pinned.view(), check_mask.view(), c)
                        && !next.has(code_src(c)))) by {
                        let d = code_dst(c);
                        assert(ka.has(d) == knight_geom(src.view(), d));
                        lemma_bit_and(ka.view() & !(friendly.view()), check_mask.view(), d);
                        lemma_bit_and(ka.view(), !(friendly.view()), d);
                        lemma_bit_not(friendly.view(), d);
                        lemma_bit_and(m.pieces[1], friendly.view(), code_src(c));
                        assert(listed(l1, c) == (listed(old(list)@, c) || (knight_move(m, pinned.view(), check_mask.view(), c)
                            && !knights.has(code_src(c)))));
                    }
                }
            } else {
                proof {
                    assert forall|c: int| #[trigger] listed(list@, c) == (listed(old(list)@, c) || (knight_move(m, pinned.view(), check_mask.view(), c)
                        && !next.has(code_src(c)))) by {
                        assert(listed(list@, c) == (listed(old(list)@, c) || (knight_move(m, pinned.view(), check_mask.view(), c)
                            && !knights.has(code_src(c)))));
                    }
                }
            }
            knights = next;
        }
    }
    proof {
        lemma_drained(knights);
    }
}

/// The squares a slider of kind `k` (bishop, rook or queen) on `s` attacks.
pub open spec fn slider_sees(k: PieceKind, s: int, t: int, occ: u64) -> bool {
    match k {
        PieceKind::Bishop => bishop_sees(s, t, occ),
        PieceKind::Rook => rook_sees(s, t, occ),
        _ => rook_sees(s, t, occ) || bishop_sees(s, t, occ),
    }
}

/// A move of a slider of kind `k` of the side to move: onto an attacked square
/// that is not friendly and lies in the check mask, along the line through the
/// king when the slider is pinned.
pub open spec fn slider_move(m: BoardModel, king: int, pinned: u64, mask: u64, k: PieceKind, c: int) -> bool {
    let us = m.side_to_move.idx();
    let s = code_src(c);
    let d = code_dst(c);
    &&& 0 <= c < 4096
    &&& bit(m.pieces[k.idx()] & m.sides[us], s)
    &&& slider_sees(k, s, d, m.occupied)
    &&& !bit(m.sides[us], d)
    &&& bit(mask, d)
    &&& (bit(pinned, s) ==> line_geom(king, s, d))
}

fn slider_attacks(kind: PieceKind, sq: Square, occupied: Bitboard) -> (r: Bitboard)
    requires
        kind == PieceKind::Bishop || kind == PieceKind::Rook || kind == PieceKind::Queen,
    ensures
        forall|t: int| #[trigger] r.has(t) == slider_sees(kind, sq.view(), t, occupied.view()),
{
    match kind {
        PieceKind::Bishop => bishop_attacks(sq, occupied),
        PieceKind::Rook => rook_attacks(sq, occupied),
        _ => {
            let a = rook_attacks(sq, occupied);
            let b = bishop_attacks(sq, occupied);
            let r = Bitboard::new(a.inner() | b.inner());
            proof {
                assert(kind == PieceKind::Queen);
                assert forall|t: int| #[trigger] r.has(t) == slider_sees(kind, sq.view(), t, occupied.view()) by {
                    lemma_bit_or(a.view(), b.view(), t);
                    assert(a.has(t) == rook_sees(sq.view(), t, occupied.view()));
                    assert(b.has(t) == bishop_sees(sq.view(), t, occupied.view()));
                }
            }
            r
        },
    }
}

/// Generate legal moves for the sliders of one kind.
fn gen_slider_type(
    board: &Board,
    king_sq: Square,
    pinned: Bitboard,
    check_mask: Bitboard,
    list: &mut MoveList,
    friendly: Bitboard,
    occupied: Bitboard,
    kind: PieceKind,
)
    requires
        kind == PieceKind::Bishop || kind == PieceKind::Rook || kind == PieceKind::Queen,
        friendly.view() == board.view().sides[board.view().side_to_move.idx()],
        occupied.view() == board.view().occupied,
    ensures
        forall|c: int| #[trigger] listed(final(list)@, c) == (listed(old(list)@, c) || slider_move(
            board.view(),
            king_sq.view(),
            pinned.view(),
            check_mask.view(),
            kind,
            c,
        )),
        distinct(old(list)@) && (forall|c: int| #![trigger listed(old(list)@, c)] slider_move(board.view(), king_sq.view(),
            pinned.view(), check_mask.view(), kind, c) ==> !listed(old(list)@, c)) ==> distinct(final(list)@),
{
    let ghost m = board.view();
    let ghost fresh = distinct(old(list)@) && (forall|c: int| #![trigger listed(old(list)@, c)] slider_move(m, king_sq.view(),
        pinned.view(), check_mask.view(), kind, c) ==> !listed(old(list)@, c));
    let us = board.side_to_move();
    let all = board.pieces(kind) & board.side(us);
    let mut pieces = all;
    while pieces.is_nonempty()
        invariant
            m == board.view(),
            kind == PieceKind::Bishop || kind == PieceKind::Rook || kind == PieceKind::Queen,
            friendly.view() == m.sides[m.side_to_move.idx()],
            occupied.view() == m.occupied,
            all.view() == m.pieces[kind.idx()] & friendly.view(),
            forall|j: int| #[trigger] pieces.has(j) ==> all.has(j),
            fresh == (distinct(old(list)@) && (forall|c: int| #![trigger listed(old(list)@, c)] slider_move(m, king_sq.view(),
                pinned.view(), check_mask.view(), kind, c) ==> !listed(old(list)@, c))),
            fresh ==> distinct(list@),
            forall|c: int| #[trigger] listed(list@, c) == (listed(old(list)@, c) || (slider_move(
                m,
                king_sq.view(),
                pinned.view(),
                check_mask.view(),
                kind,
                c,
            ) && !pieces.has(code_src(c)))),
        decreases popcount(pieces.view()),
    {
        if let Some((src, next)) = pieces.pop_lsb() {
            proof {
                lemma_pop(pieces, src.view(), next);
            }
            let sa = slider_attacks(kind, src, occupied);
            let base = sa & Bitboard::new(!friendly.inner()) & check_mask;
            let pin_line = line(king_sq, src);
            let targets = if pinned.contains(src) {
                base & pin_line
            } else {
                base
            };
            let ghost l1 = list@;
            proof {
                if fresh {
                    assert forall|c: int| #![trigger listed(l1, c)] normal_moves_to(src.view(), targets.view(), c) implies !listed(l1, c) by {
                        let d = code_dst(c);
                        assert(sa.has(d) == slider_sees(kind, src.view(), d, occupied.view()));
                        assert(pin_line.has(d) == line_geom(king_sq.view(), src.view(), d));
                        lemma_bit_and(base.view(), pin_line.view(), d);
                        lemma_bit_and(sa.view() & !(friendly.view()), check_mask.view(), d);
                        lemma_bit_and(sa.view(), !(friendly.view()), d);
                        lemma_bit_not(friendly.view(), d);
                        lemma_bit_and(m.pieces[kind.idx()], friendly.view(), code_src(c));
                        assert(slider_move(m, king_sq.view(), pinned.view(), check_mask.view(), kind, c));
                        assert(pieces.has(code_src(c)));
                    }
                }
            }
            push_targets(list, src, targets);
            proof {
                assert forall|c: int| #[trigger] listed(list@, c) == (listed(old(list)@, c) || (slider_move(
                    m,
                    king_sq.view(),
                    pinned.view(),
                    check_mask.view(),
                    kind,
                    c,
                ) && !next.has(code_src(c)))) by {
                    let d = code_dst(c);
                    assert(sa.has(d) == slider_sees(kind, src.view(), d, occupied.view()));
                    assert(pin_line.has(d) == line_geom(king_sq.view(), src.view(), d));
                    lemma_bit_and(base.view(), pin_line.view(), d);
                    lemma_bit_and(sa.view() & !(friendly.view()), check_mask.view(), d);
                    lemma_bit_and(sa.view(), !(friendly.view()), d);
                    lemma_bit_not(friendly.view(), d);
                    lemma_bit_and(m.pieces[kind.idx()], friendly.view(), code_src(c));
                    assert(listed(l1, c) == (listed(old(list)@, c) || (slider_move(m, king_sq.view(), pinned.view(), check_mask.view(), kind, c)
                        && !pieces.has(code_src(c)))));
                }
            }
            pieces = next;
        }
    }
    proof {
        lemma_drained(pieces);
    }
}

/// No square holds pieces of two kinds.
pub open spec fn kinds_apart(m: BoardModel) -> bool {
    forall|i: int, j: int, s: int|
        #![trigger bit(m.pieces[i], s), bit(m.pieces[j], s)]
        0 <= i < j < 6 ==> !(bit(m.pieces[i], s) && bit(m.pieces[j], s))
}

/// In a consistent position no square holds pieces of two kinds.
pub proof fn lemma_kinds_apart(m: BoardModel)
    requires
        crate::make_move::consistent(m),
    ensures
        kinds_apart(m),
{
    assert forall|i: int, j: int, s: int| #![trigger bit(m.pieces[i], s), bit(m.pieces[j], s)] 0 <= i < j < 6 implies !(bit(
        m.pieces[i],
        s,
    ) && bit(m.pieces[j], s)) by {
        if 0 <= s < 64 {
            assert(crate::make_move::square_code(m, s) <= 12);
        }
    }
}

/// The slider moves of all three kinds.
pub open spec fn any_slider_move(m: BoardModel, king: int, pinned: u64, mask: u64, c: int) -> bool {
    slider_move(m, king, pinned, mask, PieceKind::Bishop, c) || slider_move(m, king, pinned, mask, PieceKind::Rook, c)
        || slider_move(m, king, pinned, mask, PieceKind::Queen, c)
}

/// Generate legal slider moves (bishops, rooks, queens).
fn gen_sliders(board: &Board, king_sq: Square, pinned: Bitboard, check_mask: Bitboard, list: &mut MoveList)
    ensures
        forall|c: int| #[trigger] listed(final(list)@, c) == (listed(old(list)@, c)
            || slider_move(board.view(), king_sq.view(), pinned.view(), check_mask.view(), PieceKind::Bishop, c)
            || slider_move(board.view(), king_sq.view(), pinned.view(), check_mask.view(), PieceKind::Rook, c)
            || slider_move(board.view(), king_sq.view(), pinned.view(), check_mask.view(), PieceKind::Queen, c)),
        kinds_apart(board.view()) && distinct(old(list)@) && (forall|c: int| #![trigger listed(old(list)@, c)] any_slider_move(
            board.view(), king_sq.view(), pinned.view(), check_mask.view(), c) ==> !listed(old(list)@, c)) ==> distinct(final(list)@),
{
    let ghost m = board.view();
    let ghost l0 = list@;
    let us = board.side_to_move();
    let friendly = board.side(us);
    let occupied = board.occupied();
    gen_slider_type(board, king_sq, pinned, check_mask, list, friendly, occupied, PieceKind::Bishop);
    let ghost l1 = list@;
    gen_slider_type(board, king_sq, pinned, check_mask, list, friendly, occupied, PieceKind::Rook);
    let ghost l2 = list@;
    gen_slider_type(board, king_sq, pinned, check_mask, list, friendly, occupied, PieceKind::Queen);
    proof {
        if kinds_apart(m) && distinct(l0) && (forall|c: int| #![trigger listed(l0, c)] any_slider_move(m, king_sq.view(), pinned.view(),
            check_mask.view(), c) ==> !listed(l0, c)) {
            assert forall|c: int| #![trigger listed(l0, c)] slider_move(m, king_sq.view(), pinned.view(), check_mask.view(),
                PieceKind::Bishop, c) implies !listed(l0, c) by {
                assert(any_slider_move(m, king_sq.view(), pinned.view(), check_mask.view(), c));
            }
            assert forall|c: int| #![trigger listed(l1, c)] slider_move(m, king_sq.view(), pinned.view(), check_mask.view(),
                PieceKind::Rook, c) implies !listed(l1, c) by {
                assert(any_slider_move(m, king_sq.view(), pinned.view(), check_mask.view(), c));
                let s = code_src(c);
                lemma_bit_and(m.pieces[3], m.sides[m.side_to_move.idx()], s);
                if slider_move(m, king_sq.view(), pinned.view(), check_mask.view(), PieceKind::Bishop, c) {
                    lemma_bit_and(m.pieces[2], m.sides[m.side_to_move.idx()], s);
                    assert(!(bit(m.pieces[2], s) && bit(m.pieces[3], s)));
                }
            }
            assert forall|c: int| #![trigger listed(l2, c)] slider_move(m, king_sq.view(), pinned.view(), check_mask.view(),
                PieceKind::Queen, c) implies !listed(l2, c) by {
                assert(any_slider_move(m, king_sq.view(), pinned.view(), check_mask.view(), c));
                let s = code_src(c);
                lemma_bit_and(m.pieces[4], m.sides[m.side_to_move.idx()], s);
                if slider_move(m, king_sq.view(), pinned.view(), check_mask.view(), PieceKind::Bishop, c) {
                    lemma_bit_and(m.pieces[2], m.sides[m.side_to_move.idx()], s);
                    assert(!(bit(m.pieces[2], s) && bit(m.pieces[4], s)));
                }
                if slider_move(m, king_sq.view(), pinned.view(), check_mask.view(), PieceKind::Rook, c) {
                    lemma_bit_and(m.pieces[3], m.sides[m.side_to_move.idx()], s);
                    assert(!(bit(m.pieces[3], s) && bit(m.pieces[4], s)));
                }
            }
        }
    }
}

// ---------------------------------------------------------------------------
// King
// ---------------------------------------------------------------------------

/// Check if `sq` is attacked by `by_color`, using `occupied` for sliding piece rays.
fn is_attacked(board: &Board, sq: Square, by_color: Color, occupied: Bitboard) -> (r: bool)
    ensures
        r == attacked_by(board.view(), sq.view(), by_color, occupied.view()),
{
    board.is_square_attacked_with_occ(sq, by_color, occupied)
}

/// A step of the king of the side to move onto a square that is not friendly
/// and not attacked once the king has left its square.
pub open spec fn king_step(m: BoardModel, king: int, c: int) -> bool {
    let them = m.side_to_move.opp();
    let d = code_dst(c);
    &&& 0 <= c < 4096
    &&& code_src(c) == king
    &&& king_geom(king, d)
    &&& !bit(m.sides[m.side_to_move.idx()], d)
    &&& !attacked_by(m, d, them, m.occupied ^ single(king))
}

/// A castling move: the king is not in check, the right is held, the squares
/// between king and rook are empty and the squares the king crosses are not
/// attacked.
pub open spec fn castle_move(m: BoardModel, king: int, c: int) -> bool {
    let them = m.side_to_move.opp();
    let occ = m.occupied;
    let cr = m.castling;
    &&& !attacked_by(m, king, them, occ)
    &&& if m.side_to_move == Color::White {
        ||| c == move_code(4, 6, 0, 3) && cr & 1 == 1 && !bit(occ, 5) && !bit(occ, 6)
            && !attacked_by(m, 5, them, occ) && !attacked_by(m, 6, them, occ)
        ||| c == move_code(4, 2, 0, 3) && cr & 2 == 2 && !bit(occ, 1) && !bit(occ, 2) && !bit(occ, 3)
            && !attacked_by(m, 2, them, occ) && !attacked_by(m, 3, them, occ)
    } else {
        ||| c == move_code(60, 62, 0, 3) && cr & 4 == 4 && !bit(occ, 61) && !bit(occ, 62)
            && !attacked_by(m, 61, them, occ) && !attacked_by(m, 62, them, occ)
        ||| c == move_code(60, 58, 0, 3) && cr & 8 == 8 && !bit(occ, 57) && !bit(occ, 58) && !bit(occ, 59)
            && !attacked_by(m, 58, them, occ) && !attacked_by(m, 59, them, occ)
    }
}

/// Push the castling move `mv` (of code `code`) when `ok`.
fn push_if(list: &mut MoveList, ok: bool, mv: Move)
    ensures
        forall|c: int| #[trigger] listed(final(list)@, c) == (listed(old(list)@, c) || (ok && c == mv.view())),
        distinct(old(list)@) && (ok ==> !listed(old(list)@, mv.view() as int)) ==> distinct(final(list)@),
{
    if ok {
        proof {
            lemma_listed_push(list@, mv);
            if distinct(list@) && !listed(list@, mv.view() as int) {
                lemma_distinct_push(list@, mv);
            }
        }
        list.push(mv);
    }
}

/// Generate legal king moves (normal moves + castling).
fn gen_king(board: &Board, king_sq: Square, list: &mut MoveList)
    ensures
        forall|c: int| #[trigger] listed(final(list)@, c) == (listed(old(list)@, c) || king_step(board.view(), king_sq.view(), c)
            || castle_move(board.view(), king_sq.view(), c)),
        distinct(old(list)@) && (forall|c: int| #![trigger listed(old(list)@, c)] king_step(board.view(), king_sq.view(), c)
            || castle_move(board.view(), king_sq.view(), c) ==> !listed(old(list)@, c)) ==> distinct(final(list)@),
{
    let ghost m = board.view();
    let ghost fresh = distinct(old(list)@) && (forall|c: int| #![trigger listed(old(list)@, c)] king_step(m, king_sq.view(), c)
        || castle_move(m, king_sq.view(), c) ==> !listed(old(list)@, c));
    let us = board.side_to_move();
    let them = us.flip();
    let friendly = board.side(us);
    let occupied = board.occupied();
    let occupied_no_king = Bitboard::new(occupied.inner() ^ king_sq.bitboard().inner());

    let ka = king_attacks(king_sq);
    let targets = ka & Bitboard::new(!friendly.inner());
    proof {
        assert forall|t: int| #[trigger] targets.has(t) == (king_geom(king_sq.view(), t) && !bit(friendly.view(), t)) by {
            assert(ka.has(t) == king_geom(king_sq.view(), t));
            lemma_bit_and(ka.view(), !(friendly.view()), t);
            lemma_bit_not(friendly.view(), t);
        }
    }
    let mut rest = targets;
    while rest.is_nonempty()
        invariant
            m == board.view(),
            them == m.side_to_move.opp(),
            friendly.view() == m.sides[m.side_to_move.idx()],
            occupied_no_king.view() == m.occupied ^ single(king_sq.view()),
            forall|j: int| #[trigger] rest.has(j) ==> targets.has(j),
            fresh == (distinct(old(list)@) && (forall|c: int| #![trigger listed(old(list)@, c)] king_step(m, king_sq.view(), c)
                || castle_move(m, king_sq.view(), c) ==> !listed(old(list)@, c))),
            fresh ==> distinct(list@),
            forall|t: int| #[trigger] targets.has(t) == (king_geom(king_sq.view(), t) && !bit(friendly.view(), t)),
            forall|c: int| #[trigger] listed(list@, c) == (listed(old(list)@, c) || (king_step(m, king_sq.view(), c)
                && !rest.has(code_dst(c)))),
        decreases popcount(rest.view()),
    {
        if let Some((dst, next)) = rest.pop_lsb() {
            proof {
                lemma_pop(rest, dst.view(), next);
            }
            let safe = !is_attacked(board, dst, them, occupied_no_king);
            let mv = Move::new(king_sq, dst);
            let ghost l1 = list@;
            proof {
                lemma_code_fields(king_sq.view(), dst.view(), 0, 0);
                if fresh && safe {
                    assert(targets.has(dst.view()));
                    assert(king_step(m, king_sq.view(), mv.view() as int));
                    assert(!listed(old(list)@, mv.view() as int));
                }
            }
            push_if(list, safe, mv);
            proof {
                lemma_code_fields(king_sq.view(), dst.view(), 0, 0);
                assert forall|c: int| #[trigger] listed(list@, c) == (listed(old(list)@, c) || (king_step(m, king_sq.view(), c)
                    && !next.has(code_dst(c)))) by {
                    assert(listed(l1, c) == (listed(old(list)@, c) || (king_step(m, king_sq.view(), c)
                        && !rest.has(code_dst(c)))));
                    if 0 <= c < 4096 && code_src(c) == king_sq.view() && code_dst(c) == dst.view() {
                        lemma_code_decompose(c);
                    }
                    if c == mv.view() {
                        assert(targets.has(dst.view()));
                    }
                }
            }
            rest = next;
        }
    }
    proof {
        lemma_drained(rest);
    }

    // Castling: only when not currently in check.
    if is_attacked(board, king_sq, them, occupied) {
        return;
    }
    let castling = board.castling();
    let ghost l2 = list@;
    proof {
        lemma_code_fields(4, 6, 0, 3);
        lemma_code_fields(4, 2, 0, 3);
        lemma_code_fields(60, 62, 0, 3);
        lemma_code_fields(60, 58, 0, 3);
        if fresh {
            assert forall|c: int| #![trigger listed(l2, c)] castle_move(m, king_sq.view(), c) implies !listed(l2, c) by {
                assert(!king_step(m, king_sq.view(), c));
            }
        }
    }
    match us {
        Color::White => {
            let k_ok = castling.contains(CastleRights::WHITE_KING()) && !occupied.contains(Square::F1)
                && !occupied.contains(Square::G1) && !is_attacked(board, Square::F1, them, occupied)
                && !is_attacked(board, Square::G1, them, occupied);
            let mk = Move::new_castle(Square::E1, Square::G1);
            proof {
                if k_ok {
                    assert(castle_move(m, king_sq.view(), mk.view() as int));
                }
            }
            push_if(list, k_ok, mk);
            let q_ok = castling.contains(CastleRights::WHITE_QUEEN()) && !occupied.contains(Square::B1)
                && !occupied.contains(Square::C1) && !occupied.contains(Square::D1)
                && !is_attacked(board, Square::C1, them, occupied) && !is_attacked(board, Square::D1, them, occupied);
            let mq = Move::new_castle(Square::E1, Square::C1);
            proof {
                if q_ok {
                    assert(castle_move(m, king_sq.view(), mq.view() as int));
                    assert(mq.view() != mk.view());
                }
            }
            push_if(list, q_ok, mq);
        },
        Color::Black => {
            let k_ok = castling.contains(CastleRights::BLACK_KING()) && !occupied.contains(Square::F8)
                && !occupied.contains(Square::G8) && !is_attacked(board, Square::F8, them, occupied)
                && !is_attacked(board, Square::G8, them, occupied);
            let mk = Move::new_castle(Square::E8, Square::G8);
            proof {
                if k_ok {
                    assert(castle_move(m, king_sq.view(), mk.view() as int));
                }
            }
            push_if(list, k_ok, mk);
            let q_ok = castling.contains(CastleRights::BLACK_QUEEN()) && !occupied.contains(Square::B8)
                && !occupied.contains(Square::C8) && !occupied.contains(Square::D8)
                && !is_attacked(board, Square::C8, them, occupied) && !is_attacked(board, Square::D8, them, occupied);
            let mq = Move::new_castle(Square::E8, Square::C8);
            proof {
                if q_ok {
                    assert(castle_move(m, king_sq.view(), mq.view() as int));
                    assert(mq.view() != mk.view());
                }
            }
            push_if(list, q_ok, mq);
        },
    }
    proof {
        lemma_code_fields(4, 6, 0, 3);
        lemma_code_fields(4, 2, 0, 3);
        lemma_code_fields(60, 62, 0, 3);
        lemma_code_fields(60, 58, 0, 3);
    }
}

// ---------------------------------------------------------------------------
// Pawns
// ---------------------------------------------------------------------------

/// The square `n` ranks ahead of `s` for a pawn of color `us`.
pub open spec fn ahead(us: Color, s: int, n: int) -> int {
    if us == Color::White { s + 8 * n } else { s - 8 * n }
}

/// Whether `d` lies on the promotion rank of `us`.
pub open spec fn promo_rank(us: Color, d: int) -> bool {
    0 <= d < 64 && d / 8 == (if us == Color::White { 7int } else { 0int })
}

/// A pinned piece may only move along the line through its king.
pub open spec fn pin_ok(king: int, pinned: u64, s: int, d: int) -> bool {
    bit(pinned, s) ==> line_geom(king, s, d)
}

/// The codes of a pawn move from `s` to `d`: the four promotions when
/// `promote`, else the normal move.
pub open spec fn pawn_codes(s: int, d: int, promote: bool, c: int) -> bool {
    if promote { promotion_moves(s, d, c) } else { c == move_code(s, d, 0, 0) }
}

/// The pawns of the side to move.
pub open spec fn our_pawns(m: BoardModel) -> u64 {
    m.pieces[0] & m.sides[m.side_to_move.idx()]
}

/// A single push from `s` onto the empty square `d` ahead of it, into the check mask.
pub open spec fn single_push(m: BoardModel, king: int, pinned: u64, mask: u64, s: int, d: int) -> bool {
    &&& is_sq(s)
    &&& is_sq(d)
    &&& bit(our_pawns(m), s)
    &&& d == ahead(m.side_to_move, s, 1)
    &&& !bit(m.occupied, d)
    &&& bit(mask, d)
    &&& pin_ok(king, pinned, s, d)
}

/// The single-push codes (promotions on the last rank).
pub open spec fn single_push_move(m: BoardModel, king: int, pinned: u64, mask: u64, c: int) -> bool {
    &&& 0 <= c < 65536
    &&& single_push(m, king, pinned, mask, code_src(c), code_dst(c))
    &&& pawn_codes(code_src(c), code_dst(c), promo_rank(m.side_to_move, code_dst(c)), c)
}

/// A double push from the starting rank over an empty square onto an empty square.
pub open spec fn double_push_move(m: BoardModel, king: int, pinned: u64, mask: u64, c: int) -> bool {
    let s = code_src(c);
    let d = code_dst(c);
    let us = m.side_to_move;
    &&& 0 <= c < 4096
    &&& is_sq(s)
    &&& bit(our_pawns(m), s)
    &&& d == ahead(us, s, 2)
    &&& d / 8 == (if us == Color::White { 3int } else { 4int })
    &&& !bit(m.occupied, ahead(us, s, 1))
    &&& !bit(m.occupied, d)
    &&& bit(mask, d)
    &&& pin_ok(king, pinned, s, d)
}

/// A pawn capture of an enemy piece (promotions on the last rank).
pub open spec fn pawn_capture_move(m: BoardModel, king: int, pinned: u64, mask: u64, c: int) -> bool {
    let s = code_src(c);
    let d = code_dst(c);
    let us = m.side_to_move;
    &&& 0 <= c < 65536
    &&& bit(our_pawns(m), s)
    &&& pawn_geom(us, s, d)
    &&& bit(m.sides[us.opp().idx()], d)
    &&& bit(mask, d)
    &&& pin_ok(king, pinned, s, d)
    &&& pawn_codes(s, d, promo_rank(us, d), c)
}

/// Push the pawn move from `src` to `dst`.
fn push_pawn_move(list: &mut MoveList, src: Square, dst: Square, promote: bool)
    ensures
        forall|c: int| #[trigger] listed(final(list)@, c) == (listed(old(list)@, c) || pawn_codes(src.view(), dst.view(), promote, c)),
        distinct(old(list)@) && (forall|c: int| #![trigger listed(old(list)@, c)] pawn_codes(src.view(), dst.view(), promote, c)
            ==> !listed(old(list)@, c)) ==> distinct(final(list)@),
{
    if promote {
        push_promotions(list, src, dst);
    } else {
        let mv = Move::new(src, dst);
        proof {
            lemma_listed_push(list@, mv);
            assert(pawn_codes(src.view(), dst.view(), promote, mv.view() as int));
            if distinct(list@) && (forall|c: int| #![trigger listed(list@, c)] pawn_codes(src.view(), dst.view(), promote, c)
                ==> !listed(list@, c)) {
                lemma_distinct_push(list@, mv);
            }
        }
        list.push(mv);
    }
}

/// The single pushes of the side to move onto the promotion rank (when
/// `promos`) or onto the other ranks.
fn gen_pawn_singles(board: &Board, king_sq: Square, pinned: Bitboard, check_mask: Bitboard, list: &mut MoveList, promos: bool)
    ensures
        forall|c: int| #[trigger] listed(final(list)@, c) == (listed(old(list)@, c) || single_push_move(
            board.view(),
            king_sq.view(),
            pinned.view(),
            check_mask.view(),
            c,
        ) && promo_rank(board.view().side_to_move, code_dst(c)) == promos),
        distinct(old(list)@) && (forall|c: int| #![trigger listed(old(list)@, c)] single_push_move(board.view(), king_sq.view(),
            pinned.view(), check_mask.view(), c) && promo_rank(board.view().side_to_move, code_dst(c)) == promos
            ==> !listed(old(list)@, c)) ==> distinct(final(list)@),
{
    let ghost m = board.view();
    let ghost fresh = distinct(old(list)@) && (forall|c: int| #![trigger listed(old(list)@, c)] single_push_move(m, king_sq.view(),
        pinned.view(), check_mask.view(), c) && promo_rank(m.side_to_move, code_dst(c)) == promos ==> !listed(old(list)@, c));
    let us = board.side_to_move();
    let pawns = board.pieces(PieceKind::Pawn) & board.side(us);
    let occupied = board.occupied();
    let empty = Bitboard::new(!occupied.inner());
    let shifted = match us {
        Color::White => pawns << 8u8,
        Color::Black => pawns >> 8u8,
    };
    let single = shifted & empty;
    let promo_mask = match us {
        Color::White => Bitboard::RANK_8(),
        Color::Black => Bitboard::RANK_1(),
    };
    let rank_sel = if promos {
        promo_mask
    } else {
        Bitboard::new(!promo_mask.inner())
    };
    let sel = single & rank_sel;
    let targets = sel & check_mask;
    proof {
        assert forall|d: int| #[trigger] targets.has(d) == (is_sq(d) && is_sq(ahead(m.side_to_move, d, -1))
            && bit(our_pawns(m), ahead(m.side_to_move, d, -1)) && !bit(m.occupied, d) && bit(check_mask.view(), d)
            && promo_rank(m.side_to_move, d) == promos) by {
            lemma_bit_and(sel.view(), check_mask.view(), d);
            lemma_bit_and(single.view(), rank_sel.view(), d);
            lemma_bit_not(promo_mask.view(), d);
            crate::bits::lemma_bit_rank(7, d);
            crate::bits::lemma_bit_rank(0, d);
            lemma_bit_and(shifted.view(), empty.view(), d);
            lemma_bit_not(occupied.view(), d);
            crate::bits::lemma_bit_shift8(pawns.view(), d);
        }
    }
    let mut rest = targets;
    while rest.is_nonempty()
        invariant
            m == board.view(),
            us == m.side_to_move,
            fresh == (distinct(old(list)@) && (forall|c: int| #![trigger listed(old(list)@, c)] single_push_move(m, king_sq.view(),
                pinned.view(), check_mask.view(), c) && promo_rank(m.side_to_move, code_dst(c)) == promos ==> !listed(old(list)@, c))),
            fresh ==> distinct(list@),
            forall|j: int| #[trigger] rest.has(j) ==> targets.has(j),
            forall|d: int| #[trigger] targets.has(d) == (is_sq(d) && is_sq(ahead(m.side_to_move, d, -1))
                && bit(our_pawns(m), ahead(m.side_to_move, d, -1)) && !bit(m.occupied, d) && bit(check_mask.view(), d)
                && promo_rank(m.side_to_move, d) == promos),
            forall|c: int| #[trigger] listed(list@, c) == (listed(old(list)@, c) || (single_push_move(
                m,
                king_sq.view(),
                pinned.view(),
                check_mask.view(),
                c,
            ) && promo_rank(m.side_to_move, code_dst(c)) == promos && !rest.has(code_dst(c)))),
        decreases popcount(rest.view()),
    {
        if let Some((dst, next)) = rest.pop_lsb() {
            proof {
                lemma_pop(rest, dst.view(), next);
            }
            let si: usize = match us {
                Color::White => dst.index() - 8,
                Color::Black => dst.index() + 8,
            };
            let src = Square::from_index_unchecked(si as u8);
            assert(src.view() == ahead(us, dst.view(), -1));
            let allowed = !pinned.contains(src) || line(king_sq, src).contains(dst);
            let ghost l1 = list@;
            proof {
                lemma_code_fields(src.view(), dst.view(), 0, 0);
                if fresh && allowed {
                    assert(targets.has(dst.view()));
                    assert forall|c: int| #![trigger listed(l1, c)] pawn_codes(src.view(), dst.view(), promos, c) implies !listed(l1, c) by {
                        assert(code_src(c) == src.view() && code_dst(c) == dst.view());
                        assert(single_push(m, king_sq.view(), pinned.view(), check_mask.view(), src.view(), dst.view()));
                        assert(single_push_move(m, king_sq.view(), pinned.view(), check_mask.view(), c));
                    }
                }
            }
            if allowed {
                push_pawn_move(list, src, dst, promos);
            }
            proof {
                lemma_code_fields(src.view(), dst.view(), 0, 0);
                assert forall|c: int| #[trigger] listed(list@, c) == (listed(old(list)@, c) || (single_push_move(
                    m,
                    king_sq.view(),
                    pinned.view(),
                    check_mask.view(),
                    c,
                ) && promo_rank(m.side_to_move, code_dst(c)) == promos && !next.has(code_dst(c)))) by {
                    assert(listed(l1, c) == (listed(old(list)@, c) || (single_push_move(m, king_sq.view(), pinned.view(), check_mask.view(), c)
                        && promo_rank(m.side_to_move, code_dst(c)) == promos && !rest.has(code_dst(c)))));
                    if 0 <= c < 65536 {
                        lemma_code_decompose(c);
                    }
                    if code_dst(c) == dst.view() && single_push(m, king_sq.view(), pinned.view(), check_mask.view(), code_src(c), code_dst(c)) {
                        assert(code_src(c) == src.view());
                    }
                }
            }
            rest = next;
        }
    }
    proof {
        lemma_drained(rest);
    }
}

/// The double pushes of the side to move.
fn gen_pawn_doubles(board: &Board, king_sq: Square, pinned: Bitboard, check_mask: Bitboard, list: &mut MoveList)
    ensures
        forall|c: int| #[trigger] listed(final(list)@, c) == (listed(old(list)@, c) || double_push_move(
            board.view(),
            king_sq.view(),
            pinned.view(),
            check_mask.view(),
            c,
        )),
        distinct(old(list)@) && (forall|c: int| #![trigger listed(old(list)@, c)] double_push_move(board.view(), king_sq.view(),
            pinned.view(), check_mask.view(), c) ==> !listed(old(list)@, c)) ==> distinct(final(list)@),
{
    let ghost m = board.view();
    let ghost fresh = distinct(old(list)@) && (forall|c: int| #![trigger listed(old(list)@, c)] double_push_move(m, king_sq.view(),
        pinned.view(), check_mask.view(), c) ==> !listed(old(list)@, c));
    let us = board.side_to_move();
    let pawns = board.pieces(PieceKind::Pawn) & board.side(us);
    let occupied = board.occupied();
    let empty = Bitboard::new(!occupied.inner());
    let (shifted, rank_mask) = match us {
        Color::White => (pawns << 8u8, Bitboard::RANK_4()),
        Color::Black => (pawns >> 8u8, Bitboard::RANK_5()),
    };
    let intermediate = shifted & empty;
    let shifted2 = match us {
        Color::White => intermediate << 8u8,
        Color::Black => intermediate >> 8u8,
    };
    let t1 = shifted2 & empty;
    let t2 = t1 & rank_mask;
    let targets = t2 & check_mask;
    proof {
        assert forall|d: int| #[trigger] targets.has(d) == (is_sq(d) && is_sq(ahead(m.side_to_move, d, -2))
            && bit(our_pawns(m), ahead(m.side_to_move, d, -2)) && !bit(m.occupied, ahead(m.side_to_move, d, -1))
            && !bit(m.occupied, d) && d / 8 == (if m.side_to_move == Color::White { 3int } else { 4int })
            && bit(check_mask.view(), d)) by {
            let d1 = ahead(m.side_to_move, d, -1);
            lemma_bit_and(t2.view(), check_mask.view(), d);
            lemma_bit_and(t1.view(), rank_mask.view(), d);
            lemma_bit_and(shifted2.view(), empty.view(), d);
            lemma_bit_not(occupied.view(), d);
            crate::bits::lemma_bit_shift8(intermediate.view(), d);
            lemma_bit_and(shifted.view(), empty.view(), d1);
            lemma_bit_not(occupied.view(), d1);
            crate::bits::lemma_bit_shift8(pawns.view(), d1);
            crate::bits::lemma_bit_rank(3, d);
            crate::bits::lemma_bit_rank(4, d);
        }
    }
    let mut rest = targets;
    while rest.is_nonempty()
        invariant
            m == board.view(),
            us == m.side_to_move,
            fresh == (distinct(old(list)@) && (forall|c: int| #![trigger listed(old(list)@, c)] double_push_move(m, king_sq.view(),
                pinned.view(), check_mask.view(), c) ==> !listed(old(list)@, c))),
            fresh ==> distinct(list@),
            forall|j: int| #[trigger] rest.has(j) ==> targets.has(j),
            forall|d: int| #[trigger] targets.has(d) == (is_sq(d) && is_sq(ahead(m.side_to_move, d, -2))
                && bit(our_pawns(m), ahead(m.side_to_move, d, -2)) && !bit(m.occupied, ahead(m.side_to_move, d, -1))
                && !bit(m.occupied, d) && d / 8 == (if m.side_to_move == Color::White { 3int } else { 4int })
                && bit(check_mask.view(), d)),
            forall|c: int| #[trigger] listed(list@, c) == (listed(old(list)@, c) || (double_push_move(
                m,
                king_sq.view(),
                pinned.view(),
                check_mask.view(),
                c,
            ) && !rest.has(code_dst(c)))),
        decreases popcount(rest.view()),
    {
        if let Some((dst, next)) = rest.pop_lsb() {
            proof {
                lemma_pop(rest, dst.view(), next);
            }
            let si: usize = match us {
                Color::White => dst.index() - 16,
                Color::Black => dst.index() + 16,
            };
            let src = Square::from_index_unchecked(si as u8);
            assert(src.view() == ahead(us, dst.view(), -2));
            let allowed = !pinned.contains(src) || line(king_sq, src).contains(dst);
            let mv = Move::new(src, dst);
            let ghost l1 = list@;
            proof {
                lemma_code_fields(src.view(), dst.view(), 0, 0);
                if fresh && allowed {
                    assert(targets.has(dst.view()));
                    assert(double_push_move(m, king_sq.view(), pinned.view(), check_mask.view(), mv.view() as int));
                    assert(!listed(old(list)@, mv.view() as int));
                }
            }
            push_if(list, allowed, mv);
            proof {
                lemma_code_fields(src.view(), dst.view(), 0, 0);
                assert forall|c: int| #[trigger] listed(list@, c) == (listed(old(list)@, c) || (double_push_move(
                    m,
                    king_sq.view(),
                    pinned.view(),
                    check_mask.view(),
                    c,
                ) && !next.has(code_dst(c)))) by {
                    assert(listed(l1, c) == (listed(old(list)@, c) || (double_push_move(m, king_sq.view(), pinned.view(), check_mask.view(), c)
                        && !rest.has(code_dst(c)))));
                    if 0 <= c < 4096 {
                        lemma_code_decompose(c);
                    }
                }
            }
            rest = next;
        }
    }
    proof {
        lemma_drained(rest);
    }
}

/// Push the captures of the pawn on `src`.
fn push_pawn_captures_from(
    board: &Board,
    king_sq: Square,
    pinned: Bitboard,
    check_mask: Bitboard,
    src: Square,
    list: &mut MoveList,
)
    requires
        bit(our_pawns(board.view()), src.view()),
    ensures
        forall|c: int| #[trigger] listed(final(list)@, c) == (listed(old(list)@, c) || (pawn_capture_move(
            board.view(),
            king_sq.view(),
            pinned.view(),
            check_mask.view(),
            c,
        ) && code_src(c) == src.view())),
        distinct(old(list)@) && (forall|c: int| #![trigger listed(old(list)@, c)] pawn_capture_move(board.view(), king_sq.view(),
            pinned.view(), check_mask.view(), c) && code_src(c) == src.view() ==> !listed(old(list)@, c)) ==> distinct(final(list)@),
{
    let ghost m = board.view();
    let ghost fresh = distinct(old(list)@) && (forall|c: int| #![trigger listed(old(list)@, c)] pawn_capture_move(m, king_sq.view(),
        pinned.view(), check_mask.view(), c) && code_src(c) == src.view() ==> !listed(old(list)@, c));
    let us = board.side_to_move();
    let them = us.flip();
    let enemy = board.side(them);
    let pa = pawn_attacks(us, src);
    let t1 = pa & enemy;
    let targets = t1 & check_mask;
    let promo_mask = match us {
        Color::White => Bitboard::RANK_8(),
        Color::Black => Bitboard::RANK_1(),
    };
    let pin_line = line(king_sq, src);
    let is_pinned = pinned.contains(src);
    proof {
        assert forall|d: int| #[trigger] targets.has(d) == (pawn_geom(m.side_to_move, src.view(), d)
            && bit(m.sides[m.side_to_move.opp().idx()], d) && bit(check_mask.view(), d)) by {
            assert(pa.has(d) == pawn_geom(us, src.view(), d));
            lemma_bit_and(t1.view(), check_mask.view(), d);
            lemma_bit_and(pa.view(), enemy.view(), d);
        }
    }
    let mut rest = targets;
    while rest.is_nonempty()
        invariant
            m == board.view(),
            us == m.side_to_move,
            bit(our_pawns(m), src.view()),
            promo_mask.view() == crate::bitboard::rank_bits(if us == Color::White { 7int } else { 0int }),
            is_pinned == bit(pinned.view(), src.view()),
            fresh == (distinct(old(list)@) && (forall|c: int| #![trigger listed(old(list)@, c)] pawn_capture_move(m, king_sq.view(),
                pinned.view(), check_mask.view(), c) && code_src(c) == src.view() ==> !listed(old(list)@, c))),
            fresh ==> distinct(list@),
            forall|t: int| #[trigger] pin_line.has(t) == line_geom(king_sq.view(), src.view(), t),
            forall|j: int| #[trigger] rest.has(j) ==> targets.has(j),
            forall|d: int| #[trigger] targets.has(d) == (pawn_geom(m.side_to_move, src.view(), d)
                && bit(m.sides[m.side_to_move.opp().idx()], d) && bit(check_mask.view(), d)),
            forall|c: int| #[trigger] listed(list@, c) == (listed(old(list)@, c) || (pawn_capture_move(
                m,
                king_sq.view(),
                pinned.view(),
                check_mask.view(),
                c,
            ) && code_src(c) == src.view() && !rest.has(code_dst(c)))),
        decreases popcount(rest.view()),
    {
        if let Some((dst, next)) = rest.pop_lsb() {
            proof {
                lemma_pop(rest, dst.view(), next);
                crate::bits::lemma_bit_rank(7, dst.view());
                crate::bits::lemma_bit_rank(0, dst.view());
            }
            let allowed = !is_pinned || pin_line.contains(dst);
            let promote = promo_mask.contains(dst);
            let ghost l1 = list@;
            proof {
                assert(promote == promo_rank(us, dst.view()));
                lemma_code_fields(src.view(), dst.view(), 0, 0);
                if fresh && allowed {
                    assert(targets.has(dst.view()));
                    assert forall|c: int| #![trigger listed(l1, c)] pawn_codes(src.view(), dst.view(), promote, c) implies !listed(l1, c) by {
                        assert(code_src(c) == src.view() && code_dst(c) == dst.view());
                        assert(pawn_capture_move(m, king_sq.view(), pinned.view(), check_mask.view(), c));
                    }
                }
            }
            if allowed {
                push_pawn_move(list, src, dst, promote);
            }
            proof {
                assert(promote == promo_rank(us, dst.view()));
                lemma_code_fields(src.view(), dst.view(), 0, 0);
                assert forall|c: int| #[trigger] listed(list@, c) == (listed(old(list)@, c) || (pawn_capture_move(
                    m,
                    king_sq.view(),
                    pinned.view(),
                    check_mask.view(),
                    c,
                ) && code_src(c) == src.view() && !next.has(code_dst(c)))) by {
                    assert(listed(l1, c) == (listed(old(list)@, c) || (pawn_capture_move(m, king_sq.view(), pinned.view(), check_mask.view(), c)
                        && code_src(c) == src.view() && !rest.has(code_dst(c)))));
                    if 0 <= c < 65536 {
                        lemma_code_decompose(c);
                    }
                }
            }
            rest = next;
        }
    }
    proof {
        lemma_drained(rest);
    }
}

/// The pawn captures of the side to move.
fn gen_pawn_captures(board: &Board, king_sq: Square, pinned: Bitboard, check_mask: Bitboard, list: &mut MoveList)
    ensures
        forall|c: int| #[trigger] listed(final(list)@, c) == (listed(old(list)@, c) || pawn_capture_move(
            board.view(),
            king_sq.view(),
            pinned.view(),
            check_mask.view(),
            c,
        )),
        distinct(old(list)@) && (forall|c: int| #![trigger listed(old(list)@, c)] pawn_capture_move(board.view(), king_sq.view(),
            pinned.view(), check_mask.view(), c) ==> !listed(old(list)@, c)) ==> distinct(final(list)@),
{
    let ghost m = board.view();
    let ghost fresh = distinct(old(list)@) && (forall|c: int| #![trigger listed(old(list)@, c)] pawn_capture_move(m, king_sq.view(),
        pinned.view(), check_mask.view(), c) ==> !listed(old(list)@, c));
    let us = board.side_to_move();
    let all = board.pieces(PieceKind::Pawn) & board.side(us);
    let mut pawns = all;
    while pawns.is_nonempty()
        invariant
            m == board.view(),
            fresh == (distinct(old(list)@) && (forall|c: int| #![trigger listed(old(list)@, c)] pawn_capture_move(m, king_sq.view(),
                pinned.view(), check_mask.view(), c) ==> !listed(old(list)@, c))),
            fresh ==> distinct(list@),
            all.view() == our_pawns(m),
            forall|j: int| #[trigger] pawns.has(j) ==> all.has(j),
            forall|c: int| #[trigger] listed(list@, c) == (listed(old(list)@, c) || (pawn_capture_move(
                m,
                king_sq.view(),
                pinned.view(),
                check_mask.view(),
                c,
            ) && !pawns.has(code_src(c)))),
        decreases popcount(pawns.view()),
    {
        if let Some((src, next)) = pawns.pop_lsb() {
            proof {
                lemma_pop(pawns, src.view(), next);
            }
            let ghost l1 = list@;
            assert(all.has(src.view()));
            proof {
                if fresh {
                    assert forall|c: int| #![trigger listed(l1, c)] pawn_capture_move(m, king_sq.view(), pinned.view(), check_mask.view(), c)
                        && code_src(c) == src.view() implies !listed(l1, c) by {
                        assert(pawns.has(code_src(c)));
                    }
                }
            }
            push_pawn_captures_from(board, king_sq, pinned, check_mask, src, list);
            proof {
                assert forall|c: int| #[trigger] listed(list@, c) == (listed(old(list)@, c) || (pawn_capture_move(
                    m,
                    king_sq.view(),
                    pinned.view(),
                    check_mask.view(),
                    c,
                ) && !next.has(code_src(c)))) by {
                    assert(listed(l1, c) == (listed(old(list)@, c) || (pawn_capture_move(m, king_sq.view(), pinned.view(), check_mask.view(), c)
                        && !pawns.has(code_src(c)))));
                }
            }
            pawns = next;
        }
    }
    proof {
        lemma_drained(pawns);
    }
}

/// The en passant capture from `s`: the pawn attacks the target square, the
/// capture resolves a check when in check, respects a pin, and does not
/// leave the king on a rank opened to an enemy rook or queen.
pub open spec fn ep_move(m: BoardModel, king: int, pinned: u64, mask: u64, in_check: bool, c: int) -> bool {
    match m.en_passant {
        None => false,
        Some(e) => {
            let us = m.side_to_move;
            let them = us.opp();
            let s = code_src(c);
            let cap = ahead(us, e, -1);
            let after = (m.occupied ^ single(s) ^ single(cap)) | single(e);
            let rq = (m.pieces[3] | m.pieces[4]) & m.sides[them.idx()];
            &&& 0 <= c < 65536
            &&& is_sq(s)
            &&& c == move_code(s, e, 0, 2)
            &&& bit(our_pawns(m), s)
            &&& pawn_geom(them, e, s)
            &&& (in_check ==> bit(mask, e) || bit(mask, cap))
            &&& pin_ok(king, pinned, s, e)
            &&& !(exists|a: int| 0 <= a < 64 && bit(rq, a) && #[trigger] rook_sees(king, a, after))
        },
    }
}

/// The en passant captures of the side to move.
fn gen_pawn_ep(
    board: &Board,
    king_sq: Square,
    pinned: Bitboard,
    check_mask: Bitboard,
    in_check: bool,
    list: &mut MoveList,
)
    ensures
        forall|c: int| #[trigger] listed(final(list)@, c) == (listed(old(list)@, c) || ep_move(
            board.view(),
            king_sq.view(),
            pinned.view(),
            check_mask.view(),
            in_check,
            c,
        )),
        distinct(old(list)@) && (forall|c: int| #![trigger listed(old(list)@, c)] ep_move(board.view(), king_sq.view(),
            pinned.view(), check_mask.view(), in_check, c) ==> !listed(old(list)@, c)) ==> distinct(final(list)@),
{
    let ghost m = board.view();
    let ghost fresh = distinct(old(list)@) && (forall|c: int| #![trigger listed(old(list)@, c)] ep_move(m, king_sq.view(),
        pinned.view(), check_mask.view(), in_check, c) ==> !listed(old(list)@, c));
    let ep_sq = match board.en_passant() {
        Some(e) => e,
        None => {
            return;
        },
    };
    let us = board.side_to_move();
    let them = us.flip();
    let occupied = board.occupied();
    let pa = pawn_attacks(them, ep_sq);
    let all = board.pieces(PieceKind::Pawn) & board.side(us);
    let candidates = pa & all;
    let rq = (board.pieces(PieceKind::Rook) | board.pieces(PieceKind::Queen)) & board.side(them);
    proof {
        assert forall|s: int| #[trigger] candidates.has(s) == (pa.has(s) && all.has(s)) by {
            lemma_bit_and(pa.view(), all.view(), s);
        }
        assert forall|c: int| ep_move(m, king_sq.view(), pinned.view(), check_mask.view(), in_check, c) implies candidates.has(code_src(c)) by {
            assert(pa.has(code_src(c)) == pawn_geom(them, ep_sq.view(), code_src(c)));
        }
    }
    let mut rest = candidates;
    while rest.is_nonempty()
        invariant
            m == board.view(),
            us == m.side_to_move,
            them == us.opp(),
            m.en_passant == Some(ep_sq.view()),
            fresh == (distinct(old(list)@) && (forall|c: int| #![trigger listed(old(list)@, c)] ep_move(m, king_sq.view(),
                pinned.view(), check_mask.view(), in_check, c) ==> !listed(old(list)@, c))),
            fresh ==> distinct(list@),
            occupied.view() == m.occupied,
            rq.view() == (m.pieces[3] | m.pieces[4]) & m.sides[them.idx()],
            forall|j: int| #[trigger] rest.has(j) ==> candidates.has(j),
            forall|s: int| #[trigger] candidates.has(s) == (pa.has(s) && all.has(s)),
            forall|s: int| #[trigger] pa.has(s) == pawn_geom(them, ep_sq.view(), s),
            all.view() == our_pawns(m),
            forall|c: int| #[trigger] listed(list@, c) == (listed(old(list)@, c) || (ep_move(
                m,
                king_sq.view(),
                pinned.view(),
                check_mask.view(),
                in_check,
                c,
            ) && !rest.has(code_src(c)))),
        decreases popcount(rest.view()),
    {
        if let Some((src, next)) = rest.pop_lsb() {
            proof {
                lemma_pop(rest, src.view(), next);
                lemma_bit_and(pa.view(), all.view(), src.view());
                assert(candidates.has(src.view()));
            }
            let ci: usize = match us {
                Color::White => ep_sq.index() - 8,
                Color::Black => ep_sq.index() + 8,
            };
            let captured_sq = Square::from_index_unchecked(ci as u8);
            assert(captured_sq.view() == ahead(us, ep_sq.view(), -1));
            let resolves = !in_check || check_mask.contains(ep_sq) || check_mask.contains(captured_sq);
            let pin_fine = !pinned.contains(src) || line(king_sq, src).contains(ep_sq);
            let after_occ = Bitboard::new(
                (occupied.inner() ^ src.bitboard().inner() ^ captured_sq.bitboard().inner()) | ep_sq.bitboard().inner(),
            );
            let ra = rook_attacks(king_sq, after_occ);
            let exposed = (ra & rq).is_nonempty();
            let mv = Move::new_en_passant(src, ep_sq);
            let ghost l1 = list@;
            proof {
                lemma_code_fields(src.view(), ep_sq.view(), 0, 2);
                let after = after_occ.view();
                assert(exposed == (exists|a: int| 0 <= a < 64 && bit(rq.view(), a) && #[trigger] rook_sees(king_sq.view(), a, after))) by {
                    lemma_zero_iff_no_bits(ra.view() & rq.view());
                    if exposed {
                        let a = choose|a: int| 0 <= a < 64 && #[trigger] bit(ra.view() & rq.view(), a);
                        lemma_bit_and(ra.view(), rq.view(), a);
                        assert(ra.has(a));
                    }
                    assert forall|a: int| 0 <= a < 64 && bit(rq.view(), a) && #[trigger] rook_sees(king_sq.view(), a, after) implies exposed by {
                        lemma_bit_and(ra.view(), rq.view(), a);
                        assert(ra.has(a));
                    }
                }
                if fresh && resolves && pin_fine && !exposed {
                    assert(after_occ.view() == (m.occupied ^ single(src.view()) ^ single(captured_sq.view())) | single(ep_sq.view()));
                    assert(ep_move(m, king_sq.view(), pinned.view(), check_mask.view(), in_check, mv.view() as int));
                    assert(!listed(old(list)@, mv.view() as int));
                }
            }
            push_if(list, resolves && pin_fine && !exposed, mv);
            proof {
                lemma_code_fields(src.view(), ep_sq.view(), 0, 2);
                assert forall|c: int| #[trigger] listed(list@, c) == (listed(old(list)@, c) || (ep_move(
                    m,
                    king_sq.view(),
                    pinned.view(),
                    check_mask.view(),
                    in_check,
                    c,
                ) && !next.has(code_src(c)))) by {
                    assert(listed(l1, c) == (listed(old(list)@, c) || (ep_move(m, king_sq.view(), pinned.view(), check_mask.view(), in_check, c)
                        && !rest.has(code_src(c)))));
                    if 0 <= c < 65536 {
                        lemma_code_decompose(c);
                    }
                    if ep_move(m, king_sq.view(), pinned.view(), check_mask.view(), in_check, c) && code_src(c) == src.view() {
                        assert(after_occ.view() == (m.occupied ^ single(src.view()) ^ single(captured_sq.view())) | single(ep_sq.view()));
                    }
                }
            }
            rest = next;
        }
    }
    proof {
        lemma_drained(rest);
        assert forall|c: int| ep_move(m, king_sq.view(), pinned.view(), check_mask.view(), in_check, c) implies candidates.has(code_src(c)) by {
            lemma_bit_and(pa.view(), all.view(), code_src(c));
        }
    }
}

/// All pawn moves of the side to move, in generation order.
pub open spec fn pawn_move(m: BoardModel, king: int, pinned: u64, mask: u64, in_check: bool, c: int) -> bool {
    single_push_move(m, king, pinned, mask, c) || double_push_move(m, king, pinned, mask, c)
        || pawn_capture_move(m, king, pinned, mask, c) || ep_move(m, king, pinned, mask, in_check, c)
}

/// Generate legal pawn moves.
fn gen_pawns(
    board: &Board,
    king_sq: Square,
    pinned: Bitboard,
    check_mask: Bitboard,
    in_check: bool,
    list: &mut MoveList,
)
    ensures
        forall|c: int| #[trigger] listed(final(list)@, c) == (listed(old(list)@, c) || pawn_move(
            board.view(),
            king_sq.view(),
            pinned.view(),
            check_mask.view(),
            in_check,
            c,
        )),
        distinct(old(list)@) && (forall|c: int| #![trigger listed(old(list)@, c)] pawn_move(board.view(), king_sq.view(),
            pinned.view(), check_mask.view(), in_check, c) ==> !listed(old(list)@, c)) ==> distinct(final(list)@),
{
    let ghost m = board.view();
    let ghost k = king_sq.view();
    let ghost p = pinned.view();
    let ghost w = check_mask.view();
    let ghost l0 = list@;
    gen_pawn_singles(board, king_sq, pinned, check_mask, list, false);
    let ghost l1 = list@;
    gen_pawn_singles(board, king_sq, pinned, check_mask, list, true);
    let ghost l2 = list@;
    gen_pawn_doubles(board, king_sq, pinned, check_mask, list);
    let ghost l3 = list@;
    gen_pawn_captures(board, king_sq, pinned, check_mask, list);
    let ghost l4 = list@;
    gen_pawn_ep(board, king_sq, pinned, check_mask, in_check, list);
    proof {
        if distinct(l0) && (forall|c: int| #![trigger listed(l0, c)] pawn_move(m, k, p, w, in_check, c) ==> !listed(l0, c)) {
            assert forall|c: int| #![trigger listed(l0, c)] single_push_move(m, k, p, w, c) && promo_rank(m.side_to_move, code_dst(c))
                == false implies !listed(l0, c) by {
                assert(pawn_move(m, k, p, w, in_check, c));
            }
            assert forall|c: int| #![trigger listed(l1, c)] single_push_move(m, k, p, w, c) && promo_rank(m.side_to_move, code_dst(c))
                == true implies !listed(l1, c) by {
                assert(pawn_move(m, k, p, w, in_check, c));
            }
            assert forall|c: int| #![trigger listed(l2, c)] double_push_move(m, k, p, w, c) implies !listed(l2, c) by {
                assert(pawn_move(m, k, p, w, in_check, c));
                assert(!single_push_move(m, k, p, w, c));
            }
            assert forall|c: int| #![trigger listed(l3, c)] pawn_capture_move(m, k, p, w, c) implies !listed(l3, c) by {
                assert(pawn_move(m, k, p, w, in_check, c));
                assert(!single_push_move(m, k, p, w, c));
                assert(!double_push_move(m, k, p, w, c));
            }
            assert forall|c: int| #![trigger listed(l4, c)] ep_move(m, k, p, w, in_check, c) implies !listed(l4, c) by {
                assert(pawn_move(m, k, p, w, in_check, c));
                lemma_code_fields(code_src(c), code_dst(c), 0, 0);
                lemma_code_fields(code_src(c), code_dst(c), 0, 2);
                assert(code_kind(c) == 2);
                assert(!single_push_move(m, k, p, w, c));
                assert(!double_push_move(m, k, p, w, c));
                assert(!pawn_capture_move(m, k, p, w, c));
            }
        }
    }
}

// ---------------------------------------------------------------------------
// Checkers and pins
// ---------------------------------------------------------------------------

/// `k` is the lowest set bit of `x`.
pub open spec fn lowest_bit(x: u64, k: int) -> bool {
    bit(x, k) && forall|j: int| 0 <= j < k ==> !#[trigger] bit(x, j)
}

/// The square of the king of color `c` (the lowest one if there are several).
pub open spec fn king_of(m: BoardModel, c: Color) -> int {
    choose|k: int| lowest_bit(m.pieces_of(PieceKind::King, c), k)
}

/// The lowest set bit is unique, so it is the one `king_of` chooses.
pub proof fn lemma_king_of(m: BoardModel, c: Color, k: int)
    requires
        lowest_bit(m.pieces_of(PieceKind::King, c), k),
    ensures
        king_of(m, c) == k,
{
    let x = m.pieces_of(PieceKind::King, c);
    let k2 = king_of(m, c);
    assert(lowest_bit(x, k2));
    if k2 < k {
        assert(!bit(x, k2));
    }
    if k < k2 {
        assert(!bit(x, k));
    }
}

/// No occupied square lies strictly between `k` and `a`.
pub open spec fn no_blocker(occ: u64, k: int, a: int) -> bool {
    forall|t: int| #[trigger] between_geom(k, a, t) ==> !bit(occ, t)
}

/// `b` is the only occupied square strictly between `k` and `a`.
pub open spec fn sole_blocker(occ: u64, k: int, a: int, b: int) -> bool {
    &&& between_geom(k, a, b)
    &&& bit(occ, b)
    &&& forall|t: int| #[trigger] between_geom(k, a, t) && t != b ==> !bit(occ, t)
}

/// An enemy bishop or queen on a diagonal through the king.
pub open spec fn diag_attacker(m: BoardModel, k: int, a: int) -> bool {
    let them = m.side_to_move.opp().idx();
    bit((m.pieces[2] | m.pieces[4]) & m.sides[them], a) && bishop_sees(k, a, 0u64)
}

/// An enemy rook or queen on a rank or file through the king.
pub open spec fn orth_attacker(m: BoardModel, k: int, a: int) -> bool {
    let them = m.side_to_move.opp().idx();
    bit((m.pieces[3] | m.pieces[4]) & m.sides[them], a) && rook_sees(k, a, 0u64)
}

/// The enemy piece on `a` gives check to the king on `k`.
pub open spec fn checker_at(m: BoardModel, k: int, a: int) -> bool {
    let us = m.side_to_move;
    let theirs = m.sides[us.opp().idx()];
    ||| bit(m.pieces[1] & theirs, a) && knight_geom(k, a)
    ||| bit(m.pieces[0] & theirs, a) && pawn_geom(us, k, a)
    ||| diag_attacker(m, k, a) && no_blocker(m.occupied, k, a)
    ||| orth_attacker(m, k, a) && no_blocker(m.occupied, k, a)
}

/// The friendly piece on `b` is pinned to the king on `k`: it is the only
/// piece between the king and an enemy slider on the same line.
pub open spec fn pinned_at(m: BoardModel, k: int, b: int) -> bool {
    &&& bit(m.sides[m.side_to_move.idx()], b)
    &&& exists|a: int| 0 <= a < 64 && (diag_attacker(m, k, a) || orth_attacker(m, k, a))
        && #[trigger] sole_blocker(m.occupied, k, a, b)
}

proof fn lemma_popcount_zero(x: u64)
    ensures
        (popcount(x) == 0) == (x == 0),
    decreases x,
{
    if x != 0 {
        lemma_popcount_zero(x / 2);
    }
}

/// A word whose lowest bit is `b` has popcount 1 exactly when `b` is its only bit.
proof fn lemma_one_bit(x: u64, b: int)
    requires
        lowest_bit(x, b),
    ensures
        (popcount(x) == 1) == (forall|t: int| #[trigger] bit(x, t) ==> t == b),
{
    let rest = x & ((x - 1) as u64);
    crate::bits::lemma_clear_lowest(x, b);
    lemma_popcount_pop(x, rest, b);
    lemma_popcount_zero(rest);
    lemma_zero_iff_no_bits(rest);
    if forall|t: int| #[trigger] bit(x, t) ==> t == b {
        assert forall|j: int| 0 <= j < 64 implies !#[trigger] bit(rest, j) by {
            assert(bit(rest, j) == (bit(x, j) && j != b));
        }
    }
    if popcount(x) == 1 {
        assert forall|t: int| #[trigger] bit(x, t) implies t == b by {
            assert(bit(rest, t) == (bit(x, t) && t != b));
        }
    }
}

/// Fold one slider candidate into the checkers and pinned sets.
fn classify_slider(
    board: &Board,
    king_sq: Square,
    attacker_sq: Square,
    our_pieces: Bitboard,
    occupied: Bitboard,
    checkers: Bitboard,
    pinned: Bitboard,
) -> (r: (Bitboard, Bitboard))
    requires
        our_pieces.view() == board.view().sides[board.view().side_to_move.idx()],
        occupied.view() == board.view().occupied,
    ensures
        forall|t: int| #[trigger] r.0.has(t) == (checkers.has(t) || (t == attacker_sq.view() && no_blocker(
            occupied.view(),
            king_sq.view(),
            attacker_sq.view(),
        ))),
        forall|t: int| #[trigger] r.1.has(t) == (pinned.has(t) || (bit(our_pieces.view(), t) && sole_blocker(
            occupied.view(),
            king_sq.view(),
            attacker_sq.view(),
            t,
        ))),
{
    let between_bb = between(king_sq, attacker_sq);
    let blockers = between_bb & occupied;
    let n = blockers.count();
    let ghost k = king_sq.view();
    let ghost a = attacker_sq.view();
    proof {
        assert forall|t: int| #[trigger] blockers.has(t) == (between_geom(k, a, t) && bit(occupied.view(), t)) by {
            lemma_bit_and(between_bb.view(), occupied.view(), t);
            assert(between_bb.has(t) == between_geom(k, a, t));
        }
        lemma_popcount_zero(blockers.view());
        lemma_zero_iff_no_bits(blockers.view());
    }
    if n == 0 {
        let c2 = checkers.with(attacker_sq);
        proof {
            assert(no_blocker(occupied.view(), k, a)) by {
                assert forall|t: int| #[trigger] between_geom(k, a, t) implies !bit(occupied.view(), t) by {
                    assert(!blockers.has(t));
                }
            }
            assert forall|t: int| #[trigger] pinned.has(t) == (pinned.has(t) || (bit(our_pieces.view(), t) && sole_blocker(occupied.view(), k, a, t))) by {
                if sole_blocker(occupied.view(), k, a, t) {
                    assert(blockers.has(t));
                }
            }
        }
        return (c2, pinned);
    }
    proof {
        let w = choose|t: int| 0 <= t < 64 && #[trigger] bit(blockers.view(), t);
        assert(blockers.has(w));
        assert(!no_blocker(occupied.view(), k, a));
    }
    match blockers.lsb() {
        Some(blocker_sq) => {
            let ghost b = blocker_sq.view();
            proof {
                assert forall|j: int| 0 <= j < b implies !#[trigger] bit(blockers.view(), j) by {
                    assert(!blockers.has(j));
                }
                lemma_one_bit(blockers.view(), b);
            }
            if n == 1 && our_pieces.contains(blocker_sq) {
                let p2 = pinned.with(blocker_sq);
                proof {
                    assert forall|t: int| #[trigger] p2.has(t) == (pinned.has(t) || (bit(our_pieces.view(), t) && sole_blocker(occupied.view(), k, a, t))) by {
                        if sole_blocker(occupied.view(), k, a, t) {
                            assert(blockers.has(t));
                        }
                        if t == b {
                            assert forall|u: int| #[trigger] between_geom(k, a, u) && u != b implies !bit(occupied.view(), u) by {
                                assert(blockers.has(u) ==> bit(blockers.view(), u));
                            }
                        }
                    }
                }
                (checkers, p2)
            } else {
                proof {
                    assert forall|t: int| #[trigger] pinned.has(t) == (pinned.has(t) || (bit(our_pieces.view(), t) && sole_blocker(occupied.view(), k, a, t))) by {
                        if sole_blocker(occupied.view(), k, a, t) {
                            assert(blockers.has(t));
                            assert forall|u: int| #[trigger] bit(blockers.view(), u) implies u == t by {
                                assert(blockers.has(u));
                            }
                            assert(t == b);
                        }
                    }
                }
                (checkers, pinned)
            }
        },
        None => (checkers, pinned),
    }
}

/// Fold every slider candidate of `cands` into the checkers and pinned sets.
fn fold_sliders(
    board: &Board,
    king_sq: Square,
    cands: Bitboard,
    our_pieces: Bitboard,
    occupied: Bitboard,
    checkers: Bitboard,
    pinned: Bitboard,
) -> (r: (Bitboard, Bitboard))
    requires
        our_pieces.view() == board.view().sides[board.view().side_to_move.idx()],
        occupied.view() == board.view().occupied,
    ensures
        forall|t: int| #[trigger] r.0.has(t) == (checkers.has(t) || (cands.has(t) && no_blocker(
            occupied.view(),
            king_sq.view(),
            t,
        ))),
        forall|b: int| #[trigger] r.1.has(b) == (pinned.has(b) || (bit(our_pieces.view(), b) && exists|a: int|
            #[trigger] cands.has(a) && sole_blocker(occupied.view(), king_sq.view(), a, b))),
{
    let ghost k = king_sq.view();
    let ghost occ = occupied.view();
    let mut c = checkers;
    let mut p = pinned;
    let mut rest = cands;
    while rest.is_nonempty()
        invariant
            our_pieces.view() == board.view().sides[board.view().side_to_move.idx()],
            occupied.view() == board.view().occupied,
            k == king_sq.view(),
            occ == occupied.view(),
            forall|a: int| #[trigger] rest.has(a) ==> cands.has(a),
            forall|t: int| #[trigger] c.has(t) == (checkers.has(t) || (cands.has(t) && !rest.has(t) && no_blocker(occ, k, t))),
            forall|b: int| #[trigger] p.has(b) == (pinned.has(b) || (bit(our_pieces.view(), b) && exists|a: int|
                #[trigger] cands.has(a) && !rest.has(a) && sole_blocker(occ, k, a, b))),
        decreases popcount(rest.view()),
    {
        if let Some((a0, next)) = rest.pop_lsb() {
            proof {
                lemma_pop(rest, a0.view(), next);
            }
            let (c2, p2) = classify_slider(board, king_sq, a0, our_pieces, occupied, c, p);
            proof {
                assert forall|t: int| #[trigger] c2.has(t) == (checkers.has(t) || (cands.has(t) && !next.has(t) && no_blocker(occ, k, t))) by {
                    assert(c.has(t) == (checkers.has(t) || (cands.has(t) && !rest.has(t) && no_blocker(occ, k, t))));
                    assert(next.has(t) == (rest.has(t) && t != a0.view()));
                }
                assert forall|b: int| #[trigger] p2.has(b) == (pinned.has(b) || (bit(our_pieces.view(), b) && exists|a: int|
                    #[trigger] cands.has(a) && !next.has(a) && sole_blocker(occ, k, a, b))) by {
                    assert(p.has(b) == (pinned.has(b) || (bit(our_pieces.view(), b) && exists|a: int|
                        #[trigger] cands.has(a) && !rest.has(a) && sole_blocker(occ, k, a, b))));
                    if exists|a: int| #[trigger] cands.has(a) && !next.has(a) && sole_blocker(occ, k, a, b) {
                        let a = choose|a: int| #[trigger] cands.has(a) && !next.has(a) && sole_blocker(occ, k, a, b);
                        assert(next.has(a) == (rest.has(a) && a != a0.view()));
                    }
                    if exists|a: int| #[trigger] cands.has(a) && !rest.has(a) && sole_blocker(occ, k, a, b) {
                        let a = choose|a: int| #[trigger] cands.has(a) && !rest.has(a) && sole_blocker(occ, k, a, b);
                        assert(next.has(a) == (rest.has(a) && a != a0.view()));
                        assert(cands.has(a) && !next.has(a) && sole_blocker(occ, k, a, b));
                    }
                    if sole_blocker(occ, k, a0.view(), b) {
                        assert(next.has(a0.view()) == (rest.has(a0.view()) && a0.view() != a0.view()));
                        assert(cands.has(a0.view()) && !next.has(a0.view()) && sole_blocker(occ, k, a0.view(), b));
                    }
                }
            }
            c = c2;
            p = p2;
            rest = next;
        }
    }
    proof {
        lemma_drained(rest);
    }
    (c, p)
}

/// The checking pieces and the pinned friendly pieces of the side to move.
fn compute_checkers_and_pinned(board: &Board) -> (r: (Bitboard, Bitboard))
    requires
        board.view().has_king(board.view().side_to_move),
    ensures
        forall|a: int| #[trigger] r.0.has(a) == checker_at(board.view(), king_of(board.view(), board.view().side_to_move), a),
        forall|b: int| #[trigger] r.1.has(b) == pinned_at(board.view(), king_of(board.view(), board.view().side_to_move), b),
{
    let ghost m = board.view();
    let us = board.side_to_move();
    let them = us.flip();
    let king_sq = board.king_square(us);
    let ghost k = king_sq.view();
    proof {
        lemma_king_of(m, us, k);
    }
    let our_pieces = board.side(us);
    let their_pieces = board.side(them);
    let occupied = board.occupied();

    let ka = knight_attacks(king_sq);
    let kn = ka & board.pieces(PieceKind::Knight) & their_pieces;
    let pa = pawn_attacks(us, king_sq);
    let pw = pa & board.pieces(PieceKind::Pawn) & their_pieces;
    let checkers = kn | pw;
    let pinned = Bitboard::new(0);

    let diag_sliders = (board.pieces(PieceKind::Bishop) | board.pieces(PieceKind::Queen)) & their_pieces;
    let ba = bishop_attacks(king_sq, Bitboard::new(0));
    let diag_cands = ba & diag_sliders;
    let (checkers, pinned) = fold_sliders(board, king_sq, diag_cands, our_pieces, occupied, checkers, pinned);

    let orth_sliders = (board.pieces(PieceKind::Rook) | board.pieces(PieceKind::Queen)) & their_pieces;
    let ra = rook_attacks(king_sq, Bitboard::new(0));
    let orth_cands = ra & orth_sliders;
    let (checkers2, pinned2) = fold_sliders(board, king_sq, orth_cands, our_pieces, occupied, checkers, pinned);
    proof {
        let theirs = m.sides[them.idx()];
        assert forall|a: int| #[trigger] diag_cands.has(a) == diag_attacker(m, k, a) by {
            lemma_bit_and(ba.view(), diag_sliders.view(), a);
            assert(ba.has(a) == bishop_sees(k, a, 0u64));
        }
        assert forall|a: int| #[trigger] orth_cands.has(a) == orth_attacker(m, k, a) by {
            lemma_bit_and(ra.view(), orth_sliders.view(), a);
            assert(ra.has(a) == rook_sees(k, a, 0u64));
        }
        assert forall|a: int| #[trigger] checkers2.has(a) == checker_at(m, k, a) by {
            lemma_bit_or(kn.view(), pw.view(), a);
            lemma_bit_and(ka.view() & m.pieces[1], theirs, a);
            lemma_bit_and(ka.view(), m.pieces[1], a);
            lemma_bit_and(m.pieces[1], theirs, a);
            lemma_bit_and(pa.view() & m.pieces[0], theirs, a);
            lemma_bit_and(pa.view(), m.pieces[0], a);
            lemma_bit_and(m.pieces[0], theirs, a);
            assert(ka.has(a) == knight_geom(k, a));
            assert(pa.has(a) == pawn_geom(us, k, a));
            assert(diag_cands.has(a) == diag_attacker(m, k, a));
            assert(orth_cands.has(a) == orth_attacker(m, k, a));
        }
        assert forall|b: int| #[trigger] pinned2.has(b) == pinned_at(m, k, b) by {
            crate::bits::lemma_bit_zero(b);
            assert(pinned.has(b) == (bit(0u64, b) || (bit(our_pieces.view(), b) && exists|a: int|
                #[trigger] diag_cands.has(a) && sole_blocker(m.occupied, k, a, b))));
            assert(pinned2.has(b) == (pinned.has(b) || (bit(our_pieces.view(), b) && exists|a: int|
                #[trigger] orth_cands.has(a) && sole_blocker(m.occupied, k, a, b))));
            if pinned_at(m, k, b) {
                let a = choose|a: int| 0 <= a < 64 && (diag_attacker(m, k, a) || orth_attacker(m, k, a))
                    && #[trigger] sole_blocker(m.occupied, k, a, b);
                assert(diag_cands.has(a) == diag_attacker(m, k, a));
                assert(orth_cands.has(a) == orth_attacker(m, k, a));
                assert(pinned2.has(b));
            }
            if pinned2.has(b) {
                assert(bit(our_pieces.view(), b));
                if exists|a: int| #[trigger] diag_cands.has(a) && sole_blocker(m.occupied, k, a, b) {
                    let a = choose|a: int| #[trigger] diag_cands.has(a) && sole_blocker(m.occupied, k, a, b);
                    assert(diag_attacker(m, k, a));
                    assert(0 <= a < 64 && (diag_attacker(m, k, a) || orth_attacker(m, k, a)) && sole_blocker(m.occupied, k, a, b));
                    assert(exists|a: int| 0 <= a < 64 && (diag_attacker(m, k, a) || orth_attacker(m, k, a))
                        && #[trigger] sole_blocker(m.occupied, k, a, b));
                } else {
                    let a = choose|a: int| #[trigger] orth_cands.has(a) && sole_blocker(m.occupied, k, a, b);
                    assert(orth_attacker(m, k, a));
                    assert(0 <= a < 64 && (diag_attacker(m, k, a) || orth_attacker(m, k, a)) && sole_blocker(m.occupied, k, a, b));
                    assert(exists|a: int| 0 <= a < 64 && (diag_attacker(m, k, a) || orth_attacker(m, k, a))
                        && #[trigger] sole_blocker(m.occupied, k, a, b));
                }
                assert(bit(m.sides[m.side_to_move.idx()], b));
                assert(exists|a: int| 0 <= a < 64 && (diag_attacker(m, k, a) || orth_attacker(m, k, a))
                    && #[trigger] sole_blocker(m.occupied, k, a, b));
            }
        }
    }
    (checkers2, pinned2)
}

// ---------------------------------------------------------------------------
// All legal moves
// ---------------------------------------------------------------------------

/// The bits of `x` are exactly the squares satisfying `p`.
pub open spec fn word_holds(x: u64, p: spec_fn(int) -> bool) -> bool {
    forall|t: int| #[trigger] bit(x, t) == (0 <= t < 64 && p(t))
}

/// The word whose bits are the squares satisfying `p`.
pub open spec fn word_of(p: spec_fn(int) -> bool) -> u64 {
    choose|x: u64| #[trigger] word_holds(x, p)
}

pub proof fn lemma_word_of(p: spec_fn(int) -> bool, x: u64)
    requires
        forall|t: int| #[trigger] bit(x, t) == (0 <= t < 64 && p(t)),
    ensures
        word_of(p) == x,
{
    assert(word_holds(x, p));
    let y = word_of(p);
    assert(word_holds(y, p));
    assert forall|t: int| 0 <= t < 64 implies #[trigger] bit(x, t) == bit(y, t) by {
        assert(bit(y, t) == (0 <= t < 64 && p(t)));
    }
    crate::bits::lemma_bits_ext(x, y);
}

/// The moves of every class, given the pinned pieces and the check mask.
pub open spec fn moves_with(m: BoardModel, k: int, pinned: u64, mask: u64, in_check: bool, c: int) -> bool {
    ||| pawn_move(m, k, pinned, mask, in_check, c)
    ||| knight_move(m, pinned, mask, c)
    ||| slider_move(m, k, pinned, mask, PieceKind::Bishop, c)
    ||| slider_move(m, k, pinned, mask, PieceKind::Rook, c)
    ||| slider_move(m, k, pinned, mask, PieceKind::Queen, c)
    ||| king_step(m, k, c)
    ||| castle_move(m, k, c)
}

/// The move classes share no code when no square holds two kinds of piece.
proof fn lemma_classes_apart(m: BoardModel, k: int, pinned: u64, mask: u64, in_check: bool, c: int)
    requires
        kinds_apart(m),
        m.shaped(),
        lowest_bit(m.pieces_of(PieceKind::King, m.side_to_move), k),
    ensures
        pawn_move(m, k, pinned, mask, in_check, c) ==> !knight_move(m, pinned, mask, c) && !any_slider_move(m, k, pinned, mask, c)
            && !king_step(m, k, c) && !castle_move(m, k, c),
        knight_move(m, pinned, mask, c) ==> !any_slider_move(m, k, pinned, mask, c) && !king_step(m, k, c) && !castle_move(m, k, c),
        any_slider_move(m, k, pinned, mask, c) ==> !king_step(m, k, c) && !castle_move(m, k, c),
        king_step(m, k, c) ==> !castle_move(m, k, c),
{
    let s = code_src(c);
    let us = m.sides[m.side_to_move.idx()];
    lemma_bit_and(m.pieces[0], us, s);
    lemma_bit_and(m.pieces[1], us, s);
    lemma_bit_and(m.pieces[2], us, s);
    lemma_bit_and(m.pieces[3], us, s);
    lemma_bit_and(m.pieces[4], us, s);
    lemma_bit_and(m.pieces[5], us, s);
    assert(!(bit(m.pieces[0], s) && bit(m.pieces[1], s)));
    assert(!(bit(m.pieces[0], s) && bit(m.pieces[2], s)));
    assert(!(bit(m.pieces[0], s) && bit(m.pieces[3], s)));
    assert(!(bit(m.pieces[0], s) && bit(m.pieces[4], s)));
    assert(!(bit(m.pieces[0], s) && bit(m.pieces[5], s)));
    assert(!(bit(m.pieces[1], s) && bit(m.pieces[2], s)));
    assert(!(bit(m.pieces[1], s) && bit(m.pieces[3], s)));
    assert(!(bit(m.pieces[1], s) && bit(m.pieces[4], s)));
    assert(!(bit(m.pieces[1], s) && bit(m.pieces[5], s)));
    assert(!(bit(m.pieces[2], s) && bit(m.pieces[5], s)));
    assert(!(bit(m.pieces[3], s) && bit(m.pieces[5], s)));
    assert(!(bit(m.pieces[4], s) && bit(m.pieces[5], s)));
    lemma_code_fields(4, 6, 0, 3);
    lemma_code_fields(4, 2, 0, 3);
    lemma_code_fields(60, 62, 0, 3);
    lemma_code_fields(60, 58, 0, 3);
    if 0 <= c < 65536 {
        lemma_code_decompose(c);
        if is_sq(code_dst(c)) {
            lemma_code_fields(s, code_dst(c), 0, 0);
        }
    }
}

/// Generating the classes in turn never meets a code twice.
proof fn lemma_sequence_fresh(
    m: BoardModel,
    k: int,
    pinned: u64,
    mask: u64,
    in_check: bool,
    l1: Seq<Move>,
    l2: Seq<Move>,
    l3: Seq<Move>,
)
    requires
        kinds_apart(m),
        m.shaped(),
        lowest_bit(m.pieces_of(PieceKind::King, m.side_to_move), k),
        forall|c: int| #[trigger] listed(l1, c) == pawn_move(m, k, pinned, mask, in_check, c),
        forall|c: int| #[trigger] listed(l2, c) == (listed(l1, c) || knight_move(m, pinned, mask, c)),
        forall|c: int| #[trigger] listed(l3, c) == (listed(l2, c) || slider_move(m, k, pinned, mask, PieceKind::Bishop, c)
            || slider_move(m, k, pinned, mask, PieceKind::Rook, c) || slider_move(m, k, pinned, mask, PieceKind::Queen, c)),
    ensures
        forall|c: int| #![trigger listed(l1, c)] knight_move(m, pinned, mask, c) ==> !listed(l1, c),
        forall|c: int| #![trigger listed(l2, c)] any_slider_move(m, k, pinned, mask, c) ==> !listed(l2, c),
        forall|c: int| #![trigger listed(l3, c)] king_step(m, k, c) || castle_move(m, k, c) ==> !listed(l3, c),
{
    assert forall|c: int| #![trigger listed(l1, c)] knight_move(m, pinned, mask, c) implies !listed(l1, c) by {
        lemma_classes_apart(m, k, pinned, mask, in_check, c);
    }
    assert forall|c: int| #![trigger listed(l2, c)] any_slider_move(m, k, pinned, mask, c) implies !listed(l2, c) by {
        lemma_classes_apart(m, k, pinned, mask, in_check, c);
        assert(!listed(l1, c));
    }
    assert forall|c: int| #![trigger listed(l3, c)] king_step(m, k, c) || castle_move(m, k, c) implies !listed(l3, c) by {
        lemma_classes_apart(m, k, pinned, mask, in_check, c);
        assert(!listed(l1, c));
        assert(!listed(l2, c));
    }
}

/// The legal moves of the side to move: without check, every move class
/// over the whole board; in single check, the non-king moves must capture
/// the checker or block its line; in double check, only the king moves.
pub open spec fn legal_move(m: BoardModel, c: int) -> bool {
    let k = king_of(m, m.side_to_move);
    let pinned = word_of(|b: int| pinned_at(m, k, b));
    if !(exists|a: int| #[trigger] checker_at(m, k, a)) {
        moves_with(m, k, pinned, 0xffff_ffff_ffff_ffffu64, false, c)
    } else {
        let a = choose|a: int| #[trigger] checker_at(m, k, a);
        if exists|a2: int| #[trigger] checker_at(m, k, a2) && a2 != a {
            king_step(m, k, c) || castle_move(m, k, c)
        } else {
            moves_with(m, k, pinned, word_of(|t: int| between_geom(k, a, t) || t == a), true, c)
        }
    }
}

/// The null move (code 0, from a1 to a1) is never legal.
pub proof fn lemma_null_not_legal(m: BoardModel)
    ensures
        !legal_move(m, 0),
{
    assert forall|k: int, pinned: u64, mask: u64, in_check: bool| !#[trigger] moves_with(m, k, pinned, mask, in_check, 0) by {
        assert(code_src(0) == 0 && code_dst(0) == 0 && code_kind(0) == 0);
        assert(!knight_geom(0, 0));
        assert(!rook_sees(0, 0, m.occupied));
        assert(!bishop_sees(0, 0, m.occupied));
        lemma_code_fields(4, 6, 0, 3);
        lemma_code_fields(4, 2, 0, 3);
        lemma_code_fields(60, 62, 0, 3);
        lemma_code_fields(60, 58, 0, 3);
        assert(!promotion_moves(0, 0, 0));
    }
}

/// The position has no legal move.
pub closed spec fn no_legal_move(m: BoardModel) -> bool {
    forall|c: int| !#[trigger] legal_move(m, c)
}

/// Generate all legal moves for the current position.
pub fn generate_legal_moves(board: &Board) -> (r: MoveList)
    requires
        board.view().has_king(board.view().side_to_move),
    ensures
        forall|c: int| #[trigger] listed(r@, c) == legal_move(board.view(), c),
        r@.len() == 0 <==> no_legal_move(board.view()),
        crate::make_move::consistent(board.view()) ==> distinct(r@),
{
    let ghost m = board.view();
    let mut list = MoveList::new();
    let us = board.side_to_move();
    let king_sq = board.king_square(us);
    let ghost k = king_sq.view();
    proof {
        lemma_king_of(m, us, k);
    }
    let (checkers, pinned) = compute_checkers_and_pinned(board);
    proof {
        assert forall|t: int| #[trigger] bit(pinned.view(), t) == (0 <= t < 64 && pinned_at(m, k, t)) by {
            assert(pinned.has(t) == pinned_at(m, k, t));
        }
        lemma_word_of(|b: int| pinned_at(m, k, b), pinned.view());
        lemma_popcount_zero(checkers.view());
        lemma_zero_iff_no_bits(checkers.view());
    }
    let n = checkers.count();
    proof {
        if crate::make_move::consistent(m) {
            lemma_kinds_apart(m);
        }
    }
    if n == 0 {
        let check_mask = Bitboard::FULL();
        gen_pawns(board, king_sq, pinned, check_mask, false, &mut list);
        let ghost l1 = list@;
        gen_knights(board, pinned, check_mask, &mut list);
        let ghost l2 = list@;
        gen_sliders(board, king_sq, pinned, check_mask, &mut list);
        let ghost l3 = list@;
        gen_king(board, king_sq, &mut list);
        proof {
            if crate::make_move::consistent(m) {
                lemma_sequence_fresh(m, k, pinned.view(), check_mask.view(), false, l1, l2, l3);
            }
            assert forall|a: int| !#[trigger] checker_at(m, k, a) by {
                assert(checkers.has(a) == checker_at(m, k, a));
            }
        }
    } else {
        proof {
            let w = choose|t: int| 0 <= t < 64 && #[trigger] bit(checkers.view(), t);
            assert(checkers.has(w));
        }
        match checkers.lsb() {
            Some(checker_sq) => {
                let ghost a = checker_sq.view();
                proof {
                    assert forall|j: int| 0 <= j < a implies !#[trigger] bit(checkers.view(), j) by {
                        assert(!checkers.has(j));
                    }
                    lemma_one_bit(checkers.view(), a);
                    let a0 = choose|a0: int| #[trigger] checker_at(m, k, a0);
                    assert(checkers.has(a0));
                }
                if n == 1 {
                    let bt = between(king_sq, checker_sq);
                    let check_mask = bt | checkers;
                    proof {
                        assert forall|t: int| #[trigger] bit(check_mask.view(), t) == (0 <= t < 64 && (between_geom(k, a, t) || t == a)) by {
                            lemma_bit_or(bt.view(), checkers.view(), t);
                            assert(bt.has(t) == between_geom(k, a, t));
                            assert(checkers.has(t) ==> bit(checkers.view(), t));
                        }
                        lemma_word_of(|t: int| between_geom(k, a, t) || t == a, check_mask.view());
                        let a0 = choose|a0: int| #[trigger] checker_at(m, k, a0);
                        assert(checkers.has(a0));
                        assert forall|a2: int| #[trigger] checker_at(m, k, a2) implies a2 == a0 by {
                            assert(checkers.has(a2));
                        }
                    }
                    gen_pawns(board, king_sq, pinned, check_mask, true, &mut list);
                    let ghost l1 = list@;
                    gen_knights(board, pinned, check_mask, &mut list);
                    let ghost l2 = list@;
                    gen_sliders(board, king_sq, pinned, check_mask, &mut list);
                    let ghost l3 = list@;
                    gen_king(board, king_sq, &mut list);
                    proof {
                        if crate::make_move::consistent(m) {
                            lemma_sequence_fresh(m, k, pinned.view(), check_mask.view(), true, l1, l2, l3);
                        }
                    }
                } else {
                    proof {
                        let a0 = choose|a0: int| #[trigger] checker_at(m, k, a0);
                        assert(checkers.has(a0));
                        let w = choose|t: int| #[trigger] bit(checkers.view(), t) && !(t == a);
                        assert(checkers.has(w));
                        if w == a0 {
                            assert(checker_at(m, k, a) && a != a0);
                        } else {
                            assert(checker_at(m, k, w) && w != a0);
                        }
                    }
                    gen_king(board, king_sq, &mut list);
                }
            },
            None => {},
        }
    }
    proof {
        assert forall|c: int| #[trigger] listed(list@, c) == legal_move(m, c) by {
            assert(!listed(Seq::<Move>::empty(), c));
        }
        if list@.len() > 0 {
            assert(listed(list@, list@[0].view() as int));
            assert(legal_move(m, list@[0].view() as int));
        } else {
            assert forall|c: int| !#[trigger] legal_move(m, c) by {
                assert(!listed(list@, c));
            }
        }
    }
    list
}

// ---------------------------------------------------------------------------
// Reading UCI move text
// ---------------------------------------------------------------------------

/// The square named by a file letter and a rank digit, if they name one.
pub open spec fn uci_square(f: char, r: char) -> Option<int> {
    if 'a' <= f && f <= 'h' && '1' <= r && r <= '8' {
        Some(crate::square::sq_of(r as int - '1' as int, f as int - 'a' as int))
    } else {
        None
    }
}

/// The promotion code of a lower-case promotion letter.
pub open spec fn uci_promo(c: char) -> Option<int> {
    if c == 'n' {
        Some(0)
    } else if c == 'b' {
        Some(1)
    } else if c == 'r' {
        Some(2)
    } else if c == 'q' {
        Some(3)
    } else {
        None
    }
}

/// The move code UCI text `t` names on board `m`: two squares and an optional
/// promotion letter; without a promotion, a king moving two files castles and a
/// pawn moving diagonally onto the en passant square captures en passant.
pub open spec fn uci_code(m: BoardModel, t: Seq<char>) -> Option<int> {
    if t.len() != 4 && t.len() != 5 {
        None
    } else {
        match (uci_square(t[0], t[1]), uci_square(t[2], t[3])) {
            (Some(s), Some(d)) => if t.len() == 5 {
                match uci_promo(t[4]) {
                    Some(p) => Some(move_code(s, d, p, 1)),
                    None => None,
                }
            } else if m.piece_at(s) == Some(PieceKind::King) && crate::attacks::abs(d % 8 - s % 8) == 2 {
                Some(move_code(s, d, 0, 3))
            } else if m.piece_at(s) == Some(PieceKind::Pawn) && m.en_passant == Some(d) && s % 8 != d % 8 {
                Some(move_code(s, d, 0, 2))
            } else {
                Some(move_code(s, d, 0, 0))
            },
            _ => None,
        }
    }
}

/// The legal move UCI text `t` names on board `m`, if any.
pub open spec fn uci_move(m: BoardModel, t: Seq<char>) -> Option<int> {
    match uci_code(m, t) {
        Some(c) => if m.has_king(m.side_to_move) && legal_move(m, c) {
            Some(c)
        } else {
            None
        },
        None => None,
    }
}

fn uci_square_of(f: char, r: char) -> (sq: Option<Square>)
    ensures
        opt_square(sq) == uci_square(f, r),
{
    if 'a' <= f && f <= 'h' && '1' <= r && r <= '8' {
        let fi = (f as u32 - 'a' as u32) as u8;
        let ri = (r as u32 - '1' as u32) as u8;
        assert(fi == f as int - 'a' as int);
        assert(ri == r as int - '1' as int);
        Some(Square::from_index_unchecked(ri * 8 + fi))
    } else {
        None
    }
}

/// The square index of an optional square.
pub open spec fn opt_square(sq: Option<Square>) -> Option<int> {
    match sq {
        Some(q) => Some(q.view()),
        None => None,
    }
}

fn uci_promo_of(c: char) -> (r: Option<PromotionPiece>)
    ensures
        match uci_promo(c) {
            Some(p) => r matches Some(q) && q.code() == p,
            None => r is None,
        },
{
    if c == 'n' {
        Some(PromotionPiece::Knight)
    } else if c == 'b' {
        Some(PromotionPiece::Bishop)
    } else if c == 'r' {
        Some(PromotionPiece::Rook)
    } else if c == 'q' {
        Some(PromotionPiece::Queen)
    } else {
        None
    }
}

impl Move {
    /// Read a UCI move text ("e2e4", "e7e8q") on `board`: the legal move it
    /// names, if there is one.
    pub fn from_uci(text: &str, board: &Board) -> (r: Option<Move>)
        ensures
            match uci_move(board.view(), text@) {
                Some(c) => r matches Some(mv) && mv.view() == c,
                None => r is None,
            },
    {
        let ghost m = board.view();
        let t = crate::text::str_chars(text);
        if t.len() != 4 && t.len() != 5 {
            return None;
        }
        let src = match uci_square_of(t[0], t[1]) {
            Some(s) => s,
            None => return None,
        };
        let dst = match uci_square_of(t[2], t[3]) {
            Some(d) => d,
            None => return None,
        };
        let mv = if t.len() == 5 {
            match uci_promo_of(t[4]) {
                Some(p) => Move::new_promotion(src, dst, p),
                None => return None,
            }
        } else {
            let fs = src.index() % 8;
            let fd = dst.index() % 8;
            let is_king = match board.piece_on(src) {
                Some(PieceKind::King) => true,
                _ => false,
            };
            let is_pawn = match board.piece_on(src) {
                Some(PieceKind::Pawn) => true,
                _ => false,
            };
            let onto_ep = match board.en_passant() {
                Some(e) => e.index() == dst.index(),
                None => false,
            };
            if is_king && (fs + 2 == fd || fd + 2 == fs) {
                Move::new_castle(src, dst)
            } else if is_pawn && onto_ep && fs != fd {
                Move::new_en_passant(src, dst)
            } else {
                Move::new(src, dst)
            }
        };
        assert(uci_code(m, t@) == Some(mv.view() as int));
        let us = board.side_to_move();
        if (board.pieces(PieceKind::King) & board.side(us)).is_empty() {
            return None;
        }
        let legal = generate_legal_moves(board);
        let mut i: usize = 0;
        while i < legal.len()
            invariant
                i <= legal@.len(),
                m == board.view(),
                m.has_king(m.side_to_move),
                uci_code(m, text@) == Some(mv.view() as int),
                forall|c: int| #[trigger] listed(legal@, c) == legal_move(m, c),
                forall|j: int| 0 <= j < i ==> (#[trigger] legal@[j]).view() != mv.view(),
            decreases legal@.len() - i,
        {
            let cand = legal.get(i);
            if cand == mv {
                proof {
                    Move::lemma_view_eq(cand, mv);
                    assert(legal@[i as int].view() == mv.view());
                }
                assert(listed(legal@, mv.view() as int));
                return Some(mv);
            }
            proof {
                Move::lemma_view_eq(cand, mv);
            }
            i = i + 1;
        }
        proof {
            if listed(legal@, mv.view() as int) {
                let j = choose|j: int| 0 <= j < legal@.len() && (#[trigger] legal@[j]).view() == mv.view();
                assert(legal@[j].view() != mv.view());
            }
        }
        None
    }
}

} // verus!
