//! What applying a legal move does to the board's consistency.

use vstd::prelude::*;

use crate::attacks::{between_geom, is_sq};
use crate::bits::{bit, lemma_bit_and, lemma_zero_iff_no_bits};
use crate::chess_move::{Move, MoveKind};
use crate::piece_kind::PieceKind;
use crate::board::BoardModel;
use crate::make_move::{consistent, lemma_code, lemma_make_move_hash, make_move_model, move_fits_piece, square_code};
use crate::movegen::{
    castle_move, checker_at, code_dst, code_src, ep_move, king_of, lowest_bit, lemma_code_decompose, lemma_code_fields, legal_move, moves_with,
    pinned_at, word_of,
};
use crate::zobrist::zobrist_hash;

verus! {

/// A move of any class but castling and en passant fits a consistent board:
/// its source holds a piece of the side to move, its destination none of
/// that side's pieces, and a promotion moves a pawn.
proof fn lemma_class_fits(m: BoardModel, k: int, pinned: u64, mask: u64, in_check: bool, mv: Move)
    requires
        consistent(m),
        bit(m.pieces[5] & m.sides[m.side_to_move.idx()], k),
        moves_with(m, k, pinned, mask, in_check, mv.view() as int),
        mv.view() < 32768,
    ensures
        move_fits_piece(m, mv),
{
    let c = mv.view() as int;
    let s = code_src(c);
    let d = code_dst(c);
    let us = m.side_to_move;
    assert(mv.src() == s && mv.dst() == d);
    lemma_code(m, s);
    lemma_code(m, d);
    lemma_code_decompose(c);
    lemma_bit_and(m.pieces[0], m.sides[us.idx()], s);
    lemma_bit_and(m.pieces[1], m.sides[us.idx()], s);
    lemma_bit_and(m.pieces[2], m.sides[us.idx()], s);
    lemma_bit_and(m.pieces[3], m.sides[us.idx()], s);
    lemma_bit_and(m.pieces[4], m.sides[us.idx()], s);
    lemma_bit_and(m.pieces[5], m.sides[us.idx()], k);
    assert(!castle_move(m, k, c)) by {
        lemma_code_fields(4, 6, 0, 3);
        lemma_code_fields(4, 2, 0, 3);
        lemma_code_fields(60, 62, 0, 3);
        lemma_code_fields(60, 58, 0, 3);
    }
    assert(!ep_move(m, k, pinned, mask, in_check, c)) by {
        if let Some(e) = m.en_passant {
            if is_sq(s) && is_sq(e) {
                lemma_code_fields(s, e, 0, 2);
            }
        }
    }
    let p = square_code(m, s);
    let q = square_code(m, d);
    assert(bit(m.sides[0], s) == (p < 12 && 0 == p / 6));
    assert(bit(m.sides[1], s) == (p < 12 && 1 == p / 6));
    assert(bit(m.sides[0], d) == (q < 12 && 0 == q / 6));
    assert(bit(m.sides[1], d) == (q < 12 && 1 == q / 6));
    assert(bit(m.sides[us.idx()], s));
    assert(m.color_at(s) == Some(us));
    assert(m.color_at(d) != Some(us));
    if mv.spec_kind() == MoveKind::Promotion {
        assert(bit(m.pieces[0], s));
    }
}

/// A word with a set bit has a lowest set bit.
pub proof fn lemma_lowest_exists(x: u64, j: int)
    requires
        bit(x, j),
    ensures
        exists|k: int| lowest_bit(x, k),
    decreases j,
{
    if exists|i: int| 0 <= i < j && #[trigger] bit(x, i) {
        let i = choose|i: int| 0 <= i < j && #[trigger] bit(x, i);
        lemma_lowest_exists(x, i);
    } else {
        assert(lowest_bit(x, j));
    }
}

/// A legal move other than castling and en passant keeps a consistent
/// board consistent, and its incremental hash the Zobrist hash of the
/// position it reaches.
pub proof fn lemma_legal_move_keeps_board(m: BoardModel, mv: Move)
    requires
        consistent(m),
        m.has_king(m.side_to_move),
        m.hash == zobrist_hash(m),
        legal_move(m, mv.view() as int),
        mv.view() < 32768,
    ensures
        consistent(make_move_model(m, mv)),
        make_move_model(m, mv).hash == zobrist_hash(make_move_model(m, mv)),
{
    let c = mv.view() as int;
    let x = m.pieces_of(PieceKind::King, m.side_to_move);
    lemma_zero_iff_no_bits(x);
    let j = choose|j: int| 0 <= j < 64 && #[trigger] bit(x, j);
    lemma_lowest_exists(x, j);
    let k = king_of(m, m.side_to_move);
    assert(lowest_bit(x, k));
    let pinned = word_of(|b: int| pinned_at(m, k, b));
    if !(exists|a: int| #[trigger] checker_at(m, k, a)) {
        lemma_class_fits(m, k, pinned, 0xffff_ffff_ffff_ffffu64, false, mv);
    } else {
        let a = choose|a: int| #[trigger] checker_at(m, k, a);
        if exists|a2: int| #[trigger] checker_at(m, k, a2) && a2 != a {
            lemma_class_fits(m, k, pinned, 0, false, mv);
        } else {
            lemma_class_fits(m, k, pinned, word_of(|t: int| between_geom(k, a, t) || t == a), true, mv);
        }
    }
    lemma_make_move_hash(m, mv);
}

} // verus!
