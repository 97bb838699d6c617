//! Reading back the UCI text of a move.

use vstd::prelude::*;

use crate::board::BoardModel;
use crate::chess_move::{Move, MoveKind, PromotionPiece};
use crate::attacks::between_geom;
use crate::bits::{bit, lemma_bit_and, lemma_bit_or, lemma_zero_iff_no_bits};
use crate::legal_apply::lemma_lowest_exists;
use crate::make_move::consistent;
use crate::movegen::{
    checker_at, code_dst, code_kind, code_src, kinds_apart, king_of, lemma_code_decompose,
    lemma_code_fields, lemma_kinds_apart, legal_move, lowest_bit, moves_with, pinned_at, uci_code, uci_move, uci_promo, uci_square,
    word_of,
};
use crate::piece_kind::PieceKind;
use crate::square::square_name;

verus! {

/// Each promotion letter the writer uses reads back as the piece it was
/// written for.
pub proof fn lemma_promo_letter(p: int)
    requires
        0 <= p < 4,
    ensures
        uci_promo(PromotionPiece::from_code(p).spec_kind().spec_fen_char()) == Some(p),
{
}

/// Each square name reads back as its square.
pub proof fn lemma_square_name(s: int)
    requires
        0 <= s < 64,
    ensures
        uci_square(square_name(s)[0], square_name(s)[1]) == Some(s),
{
    let t = square_name(s);
    assert(t[0] as int == 'a' as int + s % 8);
    assert(t[1] as int == '1' as int + s / 8);
}

/// Reading the UCI text of a legal promotion gives the promotion back.
pub proof fn lemma_promotion_text_roundtrip(m: BoardModel, mv: Move)
    requires
        m.has_king(m.side_to_move),
        legal_move(m, mv.view() as int),
        mv.spec_kind() == MoveKind::Promotion,
    ensures
        uci_move(m, mv.uci_text()) == Some(mv.view() as int),
{
    let v = mv.view() as int;
    lemma_code_decompose(v);
    assert(code_kind(v) == 1);
    lemma_square_name(mv.src());
    lemma_square_name(mv.dst());
    let p = (v / 4096) % 4;
    lemma_promo_letter(p);
    let t = mv.uci_text();
    assert(t[0] == square_name(mv.src())[0]);
    assert(t[1] == square_name(mv.src())[1]);
    assert(t[2] == square_name(mv.dst())[0]);
    assert(t[3] == square_name(mv.dst())[1]);
    assert(t[4] == mv.promo().spec_kind().spec_fen_char());
}

/// A held castling right has its king on the home square.
pub open spec fn rights_fit(m: BoardModel) -> bool {
    &&& (m.castling & 1 == 1 || m.castling & 2 == 2) ==> m.piece_at(4) == Some(PieceKind::King)
    &&& (m.castling & 4 == 4 || m.castling & 8 == 8) ==> m.piece_at(60) == Some(PieceKind::King)
}

/// The en passant target, if any, is an empty square.
pub open spec fn ep_fits(m: BoardModel) -> bool {
    m.en_passant matches Some(e) ==> !bit(m.occupied, e)
}

/// The kind a square holds when no square holds two kinds.
proof fn lemma_piece_at(m: BoardModel, s: int, k: int)
    requires
        m.shaped(),
        kinds_apart(m),
        0 <= k < 6,
        bit(m.pieces[k], s),
    ensures
        m.piece_at(s) matches Some(p) && p.idx() == k,
{
    assert(!(bit(m.pieces[0], s) && bit(m.pieces[1], s)));
    assert(!(bit(m.pieces[0], s) && bit(m.pieces[2], s)));
    assert(!(bit(m.pieces[0], s) && bit(m.pieces[3], s)));
    assert(!(bit(m.pieces[0], s) && bit(m.pieces[4], s)));
    assert(!(bit(m.pieces[0], s) && bit(m.pieces[5], s)));
    assert(!(bit(m.pieces[1], s) && bit(m.pieces[2], s)));
    assert(!(bit(m.pieces[1], s) && bit(m.pieces[3], s)));
    assert(!(bit(m.pieces[1], s) && bit(m.pieces[4], s)));
    assert(!(bit(m.pieces[1], s) && bit(m.pieces[5], s)));
    assert(!(bit(m.pieces[2], s) && bit(m.pieces[3], s)));
    assert(!(bit(m.pieces[2], s) && bit(m.pieces[4], s)));
    assert(!(bit(m.pieces[2], s) && bit(m.pieces[5], s)));
    assert(!(bit(m.pieces[3], s) && bit(m.pieces[4], s)));
    assert(!(bit(m.pieces[3], s) && bit(m.pieces[5], s)));
    assert(!(bit(m.pieces[4], s) && bit(m.pieces[5], s)));
}

/// The text of a move of one of the classes, other than a promotion, reads
/// back as its code.
proof fn lemma_class_text(m: BoardModel, k: int, pinned: u64, mask: u64, in_check: bool, mv: Move)
    requires
        consistent(m),
        kinds_apart(m),
        rights_fit(m),
        ep_fits(m),
        bit(m.pieces[5] & m.sides[m.side_to_move.idx()], k),
        moves_with(m, k, pinned, mask, in_check, mv.view() as int),
        mv.spec_kind() != MoveKind::Promotion,
    ensures
        uci_code(m, mv.uci_text()) == Some(mv.view() as int),
{
    let v = mv.view() as int;
    let s = code_src(v);
    let d = code_dst(v);
    let us = m.side_to_move;
    lemma_code_decompose(v);
    assert(mv.src() == s && mv.dst() == d);
    lemma_square_name(s);
    lemma_square_name(d);
    let t = mv.uci_text();
    assert(t == square_name(s) + square_name(d));
    assert(t[0] == square_name(s)[0] && t[1] == square_name(s)[1]);
    assert(t[2] == square_name(d)[0] && t[3] == square_name(d)[1]);
    lemma_bit_and(m.pieces[0], m.sides[us.idx()], s);
    lemma_bit_and(m.pieces[1], m.sides[us.idx()], s);
    lemma_bit_and(m.pieces[2], m.sides[us.idx()], s);
    lemma_bit_and(m.pieces[3], m.sides[us.idx()], s);
    lemma_bit_and(m.pieces[4], m.sides[us.idx()], s);
    lemma_bit_and(m.pieces[5], m.sides[us.idx()], k);
    lemma_bit_or(m.sides[0], m.sides[1], d);
    lemma_code_fields(4, 6, 0, 3);
    lemma_code_fields(4, 2, 0, 3);
    lemma_code_fields(60, 62, 0, 3);
    lemma_code_fields(60, 58, 0, 3);
    if bit(m.pieces[0], s) {
        lemma_piece_at(m, s, 0);
    } else if bit(m.pieces[1], s) {
        lemma_piece_at(m, s, 1);
    } else if bit(m.pieces[2], s) {
        lemma_piece_at(m, s, 2);
    } else if bit(m.pieces[3], s) {
        lemma_piece_at(m, s, 3);
    } else if bit(m.pieces[4], s) {
        lemma_piece_at(m, s, 4);
    } else if bit(m.pieces[5], s) {
        lemma_piece_at(m, s, 5);
    }
    lemma_piece_at(m, k, 5);
}

/// Reading the UCI text of a legal move gives the move back, on a board
/// that is consistent, whose castling rights have their kings at home and
/// whose en passant target is empty.
pub proof fn lemma_uci_text_roundtrip(m: BoardModel, mv: Move)
    requires
        consistent(m),
        m.has_king(m.side_to_move),
        rights_fit(m),
        ep_fits(m),
        legal_move(m, mv.view() as int),
    ensures
        uci_move(m, mv.uci_text()) == Some(mv.view() as int),
{
    if mv.spec_kind() == MoveKind::Promotion {
        lemma_promotion_text_roundtrip(m, mv);
    } else {
        lemma_kinds_apart(m);
        let x = m.pieces_of(PieceKind::King, m.side_to_move);
        lemma_zero_iff_no_bits(x);
        let j = choose|j: int| 0 <= j < 64 && #[trigger] bit(x, j);
        lemma_lowest_exists(x, j);
        let k = king_of(m, m.side_to_move);
        assert(lowest_bit(x, k));
        let c = mv.view() as int;
        let pinned = word_of(|b: int| pinned_at(m, k, b));
        if !(exists|a: int| #[trigger] checker_at(m, k, a)) {
            lemma_class_text(m, k, pinned, 0xffff_ffff_ffff_ffffu64, false, mv);
        } else {
            let a = choose|a: int| #[trigger] checker_at(m, k, a);
            if exists|a2: int| #[trigger] checker_at(m, k, a2) && a2 != a {
                lemma_class_text(m, k, pinned, 0, false, mv);
            } else {
                lemma_class_text(m, k, pinned, word_of(|t: int| between_geom(k, a, t) || t == a), true, mv);
            }
        }
    }
}

} // verus!
