//! Move execution via copy-make.

use vstd::prelude::*;

use crate::attacks::{
    bishop_attacks, bishop_sees, king_attacks, king_geom, knight_attacks, knight_geom, pawn_attacks,
    pawn_geom, rook_attacks, rook_sees, is_sq, lemma_leapers_symmetric, lemma_sees_symmetric,
};
use crate::bitboard::Bitboard;
use crate::bits::{
    bit, lemma_bit_and, lemma_bit_or, lemma_bit_single, lemma_bit_xor, lemma_bit_zero, lemma_xor_shuffle,
    lemma_zero_iff_no_bits, single,
};
use crate::board::{opt_sq, toggled, Board, BoardModel};
use crate::castle_rights::CastleRights;
use crate::chess_move::{Move, MoveKind};
use crate::color::Color;
use crate::piece::Piece;
use crate::piece_kind::PieceKind;
use crate::square::Square;
use crate::zobrist::{
    ep_key, lemma_placement_hash_one_square, lemma_square_hash_holds, lemma_square_hash_same, piece_square_key,
    placement_hash, present, side_key, square_hash, square_holds, zobrist_hash, KEYS,
};

verus! {

broadcast use Square::lemma_range, Bitboard::lemma_from_bits, Board::lemma_shaped;

/// The castling rights a move touching square `s` revokes: the king squares
/// revoke both rights of their side, the corner squares the right of their rook.
pub open spec fn revoke_bits(s: int) -> u8 {
    if s == 4 {
        3
    } else if s == 0 {
        2
    } else if s == 7 {
        1
    } else if s == 60 {
        12
    } else if s == 56 {
        8
    } else if s == 63 {
        4
    } else {
        0
    }
}

/// Castling rights revoked by a move touching `sq`.
fn castle_rights_revoke(sq: Square) -> (r: CastleRights)
    ensures
        r.view() == revoke_bits(sq.view()),
{
    match sq.index() {
        4 => CastleRights::WHITE_BOTH(),
        0 => CastleRights::WHITE_QUEEN(),
        7 => CastleRights::WHITE_KING(),
        60 => CastleRights::BLACK_BOTH(),
        56 => CastleRights::BLACK_QUEEN(),
        63 => CastleRights::BLACK_KING(),
        _ => CastleRights::NONE(),
    }
}

/// The board with a piece of kind `k` and color `c` XOR-ed on square `s`,
/// its key XOR-ed into the hash.
pub open spec fn xor_piece(m: BoardModel, s: int, k: PieceKind, c: Color) -> BoardModel {
    BoardModel { hash: m.hash ^ piece_square_key(6 * c.idx() + k.idx(), s), ..toggled(m, s, k, c) }
}

/// `m` with the piece on `dst` (of kind taken from `m`) removed for color `them`
/// when the move captures.
pub open spec fn remove_captured(m: BoardModel, dst: int, them: Color, is_capture: bool) -> BoardModel {
    if is_capture {
        match m.piece_at(dst) {
            Some(ck) => xor_piece(m, dst, ck, them),
            None => m,
        }
    } else {
        m
    }
}

/// The rook's source and destination squares for a castling king destination.
pub open spec fn castle_rook_squares(dst: int) -> Option<(int, int)> {
    if dst == 6 {
        Some((7, 5))
    } else if dst == 2 {
        Some((0, 3))
    } else if dst == 62 {
        Some((63, 61))
    } else if dst == 58 {
        Some((56, 59))
    } else {
        None
    }
}

/// The moving piece's placement step of `mv`: what the four move kinds do to
/// the pieces, with their keys XOR-ed into the hash. `None` for a castling
/// move whose destination is no castling square (the board is then returned
/// as it stands, after the king has moved).
pub open spec fn placement_step(m: BoardModel, mv: Move, moving: PieceKind, is_capture: bool) -> (BoardModel, bool) {
    let us = m.side_to_move;
    let them = us.opp();
    let src = mv.src();
    let dst = mv.dst();
    match mv.spec_kind() {
        MoveKind::Normal => {
            let m2 = remove_captured(m, dst, them, is_capture);
            let m3 = xor_piece(xor_piece(m2, src, moving, us), dst, moving, us);
            let ep = if moving == PieceKind::Pawn && (dst - src == 16 || src - dst == 16) {
                let e = if us == Color::White { src + 8 } else { src - 8 };
                if e < 64 { Some(e) } else { None }
            } else {
                None
            };
            (BoardModel { en_passant: ep, ..m3 }, true)
        },
        MoveKind::Promotion => {
            let m2 = remove_captured(m, dst, them, is_capture);
            let m3 = xor_piece(m2, src, PieceKind::Pawn, us);
            (xor_piece(m3, dst, mv.promo().spec_kind(), us), true)
        },
        MoveKind::EnPassant => {
            let m3 = xor_piece(xor_piece(m, src, PieceKind::Pawn, us), dst, PieceKind::Pawn, us);
            let cap = if us == Color::White { dst - 8 } else { dst + 8 };
            if cap < 64 {
                (xor_piece(m3, cap, PieceKind::Pawn, them), true)
            } else {
                (m3, true)
            }
        },
        MoveKind::Castling => {
            let m3 = xor_piece(xor_piece(m, src, PieceKind::King, us), dst, PieceKind::King, us);
            match castle_rook_squares(dst) {
                Some((rs, rd)) => (xor_piece(xor_piece(m3, rs, PieceKind::Rook, us), rd, PieceKind::Rook, us), true),
                None => (m3, false),
            }
        },
    }
}

/// The position after `mv` on `m`: the piece on the move's source is moved
/// as its kind says, captured pieces are removed, the castling rights that
/// the source and destination squares guard are revoked, the en passant
/// target is set after a double pawn push, the clocks advance, the side to
/// move changes, and the hash is updated key by key.
pub open spec fn make_move_model(m: BoardModel, mv: Move) -> BoardModel {
    let us = m.side_to_move;
    let src = mv.src();
    let dst = mv.dst();
    match m.piece_at(src) {
        None => m,
        Some(moving) => {
            let m1 = BoardModel {
                en_passant: None,
                hash: m.hash ^ ep_key(m.en_passant) ^ KEYS@[769 + m.castling],
                ..m
            };
            let is_capture = bit(m.occupied, dst) && mv.spec_kind() != MoveKind::Castling;
            let (m4, finished) = placement_step(m1, mv, moving, is_capture);
            if !finished {
                m4
            } else {
                let castling = m4.castling & !revoke_bits(src) & !revoke_bits(dst);
                let h = m4.hash ^ KEYS@[769 + castling] ^ ep_key(m4.en_passant);
                let resets = moving == PieceKind::Pawn || is_capture || mv.spec_kind() == MoveKind::EnPassant;
                BoardModel {
                    castling,
                    halfmove_clock: if resets { 0 } else { (m4.halfmove_clock + 1) as u16 },
                    side_to_move: us.opp(),
                    hash: h ^ KEYS@[768],
                    fullmove_number: if us == Color::Black { (m4.fullmove_number + 1) as u16 } else { m4.fullmove_number },
                    ..m4
                }
            }
        },
    }
}

/// The inputs on which applying `mv` stays within the integer ranges of the
/// board: a black double pawn push starts at least one rank up, a white en
/// passant capture lands above the first rank, and the clocks do not overflow.
pub open spec fn make_move_defined(m: BoardModel, mv: Move) -> bool {
    match m.piece_at(mv.src()) {
        None => true,
        Some(moving) => {
            let us = m.side_to_move;
            let is_capture = bit(m.occupied, mv.dst()) && mv.spec_kind() != MoveKind::Castling;
            &&& (mv.spec_kind() == MoveKind::Normal && moving == PieceKind::Pawn && us == Color::Black
                && (mv.dst() - mv.src() == 16 || mv.src() - mv.dst() == 16)) ==> mv.src() >= 8
            &&& (mv.spec_kind() == MoveKind::EnPassant && us == Color::White) ==> mv.dst() >= 8
            &&& !(moving == PieceKind::Pawn || is_capture || mv.spec_kind() == MoveKind::EnPassant) ==> m.halfmove_clock < 0xFFFF
            &&& us == Color::Black ==> m.fullmove_number < 0xFFFF
        },
    }
}

impl Board {
    /// Whether applying `mv` stays within the integer ranges of the board
    /// (see [`make_move_defined`]).
    pub fn move_defined(&self, mv: Move) -> (r: bool)
        ensures
            r == make_move_defined(self.view(), mv),
    {
        let src = mv.source();
        let dst = mv.dest();
        match self.piece_on(src) {
            None => true,
            Some(moving) => {
                let us = self.side_to_move();
                let kind = mv.kind();
                let is_capture = self.is_occupied(dst) && kind != MoveKind::Castling;
                let s = src.index();
                let d = dst.index();
                let pawn = match moving {
                    PieceKind::Pawn => true,
                    _ => false,
                };
                let black = match us {
                    Color::Black => true,
                    Color::White => false,
                };
                let double_ok = !(kind == MoveKind::Normal && pawn && black && (d == s + 16 || s == d + 16)) || s >= 8;
                let ep_ok = !(kind == MoveKind::EnPassant && !black) || d >= 8;
                let clock_ok = (pawn || is_capture || kind == MoveKind::EnPassant) || self.halfmove_clock() < 0xFFFF;
                let move_ok = !black || self.fullmove_number() < 0xFFFF;
                double_ok && ep_ok && clock_ok && move_ok
            },
        }
    }

    /// XOR a piece onto/off a square and its key into the hash.
    fn xor_piece(&mut self, sq: Square, kind: PieceKind, color: Color)
        ensures
            final(self).view() == xor_piece(old(self).view(), sq.view(), kind, color),
    {
        self.toggle_piece(sq, kind, color);
        let idx = Piece::new(kind, color).index() * 64 + sq.index();
        self.set_hash(self.hash() ^ KEYS[idx]);
    }

    /// Remove the piece on `dst` of color `them` when the move captures.
    fn remove_captured(&mut self, dst: Square, them: Color, is_capture: bool)
        ensures
            final(self).view() == remove_captured(old(self).view(), dst.view(), them, is_capture),
    {
        if is_capture {
            if let Some(captured_kind) = self.piece_on(dst) {
                self.xor_piece(dst, captured_kind, them);
            }
        }
    }

    /// The placement step of a normal move.
    fn place_normal(&mut self, mv: Move, moving_piece: PieceKind, is_capture: bool)
        requires
            mv.spec_kind() == MoveKind::Normal,
            old(self).view().en_passant.is_none(),
            (moving_piece == PieceKind::Pawn && old(self).view().side_to_move == Color::Black
                && (mv.dst() - mv.src() == 16 || mv.src() - mv.dst() == 16)) ==> mv.src() >= 8,
        ensures
            (final(self).view(), true) == placement_step(old(self).view(), mv, moving_piece, is_capture),
    {
        let us = self.side_to_move();
        let them = us.flip();
        let src = mv.source();
        let dst = mv.dest();
        self.remove_captured(dst, them, is_capture);
        self.xor_piece(src, moving_piece, us);
        self.xor_piece(dst, moving_piece, us);
        if moving_piece == PieceKind::Pawn {
            let s = src.index();
            let d = dst.index();
            let rank_diff = if d > s { d - s } else { s - d };
            if rank_diff == 16 {
                let ep_idx = if us == Color::White {
                    s + 8
                } else {
                    s - 8
                };
                self.set_en_passant(Square::from_index(ep_idx as u8));
            }
        }
    }

    /// The placement step of a promotion.
    fn place_promotion(&mut self, mv: Move, moving_piece: PieceKind, is_capture: bool)
        requires
            mv.spec_kind() == MoveKind::Promotion,
        ensures
            (final(self).view(), true) == placement_step(old(self).view(), mv, moving_piece, is_capture),
    {
        let us = self.side_to_move();
        let them = us.flip();
        let src = mv.source();
        let dst = mv.dest();
        self.remove_captured(dst, them, is_capture);
        self.xor_piece(src, PieceKind::Pawn, us);
        let promo_kind = mv.promotion_piece().to_piece_kind();
        self.xor_piece(dst, promo_kind, us);
    }

    /// The placement step of an en passant capture.
    fn place_en_passant(&mut self, mv: Move, moving_piece: PieceKind, is_capture: bool)
        requires
            mv.spec_kind() == MoveKind::EnPassant,
            old(self).view().side_to_move == Color::White ==> mv.dst() >= 8,
        ensures
            (final(self).view(), true) == placement_step(old(self).view(), mv, moving_piece, is_capture),
    {
        let us = self.side_to_move();
        let them = us.flip();
        let src = mv.source();
        let dst = mv.dest();
        self.xor_piece(src, PieceKind::Pawn, us);
        self.xor_piece(dst, PieceKind::Pawn, us);
        let captured_idx = if us == Color::White {
            dst.index() - 8
        } else {
            dst.index() + 8
        };
        if let Some(captured_sq) = Square::from_index(captured_idx as u8) {
            self.xor_piece(captured_sq, PieceKind::Pawn, them);
        }
    }

    /// The placement step of a castling move; `false` when the destination is
    /// no castling square.
    fn place_castling(&mut self, mv: Move, moving_piece: PieceKind, is_capture: bool) -> (finished: bool)
        requires
            mv.spec_kind() == MoveKind::Castling,
        ensures
            (final(self).view(), finished) == placement_step(old(self).view(), mv, moving_piece, is_capture),
    {
        let us = self.side_to_move();
        let src = mv.source();
        let dst = mv.dest();
        self.xor_piece(src, PieceKind::King, us);
        self.xor_piece(dst, PieceKind::King, us);
        let (rook_src, rook_dst) = match dst.index() {
            6 => (Square::H1, Square::F1),
            2 => (Square::A1, Square::D1),
            62 => (Square::H8, Square::F8),
            58 => (Square::A8, Square::D8),
            _ => {
                return false;
            },
        };
        self.xor_piece(rook_src, PieceKind::Rook, us);
        self.xor_piece(rook_dst, PieceKind::Rook, us);
        true
    }

    /// The bookkeeping after the placement step: castling rights, hash keys,
    /// clocks and side to move.
    fn finish_move(&mut self, mv: Move, moving_piece: PieceKind, is_capture: bool, us: Color)
        requires
            old(self).view().side_to_move == us,
            !(moving_piece == PieceKind::Pawn || is_capture || mv.spec_kind() == MoveKind::EnPassant) ==> old(self).view().halfmove_clock < 0xFFFF,
            us == Color::Black ==> old(self).view().fullmove_number < 0xFFFF,
        ensures
            ({
                let m4 = old(self).view();
                let castling = m4.castling & !revoke_bits(mv.src()) & !revoke_bits(mv.dst());
                let h = m4.hash ^ KEYS@[769 + castling] ^ ep_key(m4.en_passant);
                let resets = moving_piece == PieceKind::Pawn || is_capture || mv.spec_kind() == MoveKind::EnPassant;
                final(self).view() == BoardModel {
                    castling,
                    halfmove_clock: if resets { 0 } else { (m4.halfmove_clock + 1) as u16 },
                    side_to_move: us.opp(),
                    hash: h ^ KEYS@[768],
                    fullmove_number: if us == Color::Black { (m4.fullmove_number + 1) as u16 } else { m4.fullmove_number },
                    ..m4
                }
            }),
    {
        let src = mv.source();
        let dst = mv.dest();
        let new_castling = self.castling().remove(castle_rights_revoke(src)).remove(castle_rights_revoke(dst));
        self.set_castling(new_castling);
        self.set_hash(self.hash() ^ KEYS[769 + new_castling.bits() as usize]);
        if let Some(ep_sq) = self.en_passant() {
            self.set_hash(self.hash() ^ KEYS[785 + ep_sq.file().index()]);
        } else {
            proof {
                crate::bits::lemma_xor_algebra(self.view().hash, 0, 0);
            }
        }
        if moving_piece == PieceKind::Pawn || is_capture || mv.is_en_passant() {
            self.set_halfmove_clock(0);
        } else {
            self.set_halfmove_clock(self.halfmove_clock() + 1);
        }
        self.set_side_to_move(us.flip());
        self.set_hash(self.hash() ^ KEYS[768]);
        if us == Color::Black {
            self.set_fullmove_number(self.fullmove_number() + 1);
        }
    }

    /// Apply a move and return the resulting board. Copy-make: `self` is not modified.
    ///
    /// If the source square is empty (invalid move), the board is returned unchanged.
    pub fn make_move(&self, mv: Move) -> (r: Board)
        requires
            make_move_defined(self.view(), mv),
        ensures
            r.view() == make_move_model(self.view(), mv),
    {
        let mut b = *self;
        let us = b.side_to_move();
        let src = mv.source();
        let dst = mv.dest();

        let moving_piece = match b.piece_on(src) {
            Some(kind) => kind,
            None => return b,
        };

        let ghost m = self.view();
        if let Some(old_ep) = b.en_passant() {
            b.set_hash(b.hash() ^ KEYS[785 + old_ep.file().index()]);
        } else {
            proof {
                crate::bits::lemma_xor_algebra(b.view().hash, 0, 0);
            }
        }
        b.set_hash(b.hash() ^ KEYS[769 + b.castling().bits() as usize]);
        b.set_en_passant(None);
        assert(b.view() == BoardModel {
            en_passant: None,
            hash: m.hash ^ ep_key(m.en_passant) ^ KEYS@[769 + m.castling],
            ..m
        });

        let is_capture = b.occupied().contains(dst) && !mv.is_castle();

        match mv.kind() {
            MoveKind::Normal => b.place_normal(mv, moving_piece, is_capture),
            MoveKind::Promotion => b.place_promotion(mv, moving_piece, is_capture),
            MoveKind::EnPassant => b.place_en_passant(mv, moving_piece, is_capture),
            MoveKind::Castling => {
                if !b.place_castling(mv, moving_piece, is_capture) {
                    return b;
                }
            },
        }
        b.finish_move(mv, moving_piece, is_capture, us);
        b
    }
}


/// The index (6 * color + kind) of the piece on square `s` as the bitboards
/// read it, 12 for an empty square, 13 where kind and side disagree.
pub open spec fn square_code(m: BoardModel, s: int) -> int {
    match (m.piece_at(s), m.color_at(s)) {
        (Some(k), Some(c)) => 6 * c.idx() + k.idx(),
        (None, None) => 12,
        _ => 13,
    }
}

/// Every square is empty or holds exactly one piece of one side, and the
/// occupancy is the union of the sides.
pub open spec fn consistent(m: BoardModel) -> bool {
    &&& m.shaped()
    &&& m.occupied == m.sides[0] | m.sides[1]
    &&& forall|s: int|
        #![trigger square_code(m, s)]
        0 <= s < 64 ==> square_code(m, s) <= 12 && square_holds(m.pieces, m.sides, s, square_code(m, s))
}

/// A square that holds exactly piece `p` (or nothing, for 12) has code `p`.
proof fn lemma_holds_code(m: BoardModel, s: int, p: int)
    requires
        m.shaped(),
        0 <= p <= 12,
        square_holds(m.pieces, m.sides, s, p),
    ensures
        square_code(m, s) == p,
{
    assert(bit(m.pieces[0], s) == (p < 12 && 0 == p % 6));
    assert(bit(m.sides[0], s) == (p < 12 && 0 == p / 6));
    assert(bit(m.sides[1], s) == (p < 12 && 1 == p / 6));
}

/// Consistency depends on the pieces, the sides and the occupancy alone.
proof fn lemma_consistent_same_board(a: BoardModel, b: BoardModel)
    requires
        consistent(a),
        a.pieces == b.pieces,
        a.sides == b.sides,
        a.occupied == b.occupied,
    ensures
        consistent(b),
{
    assert forall|t: int| 0 <= t < 64 implies #[trigger] square_code(b, t) <= 12 && square_holds(
        b.pieces,
        b.sides,
        t,
        square_code(b, t),
    ) by {
        assert(square_code(a, t) <= 12);
    }
}

/// The position after passing the move: the other side moves, no en passant
/// target remains, and the hash drops the old target's file key and toggles
/// the side-to-move key. Pieces and clocks stay as they are.
pub open spec fn null_move_model(m: BoardModel) -> BoardModel {
    BoardModel {
        side_to_move: m.side_to_move.opp(),
        en_passant: None,
        hash: m.hash ^ ep_key(m.en_passant) ^ KEYS@[768],
        ..m
    }
}

impl Board {
    /// The board after the side to move passes (a null move, for null-move pruning).
    pub fn make_null_move(&self) -> (r: Board)
        ensures
            r.view() == null_move_model(self.view()),
    {
        let mut b = *self;
        if let Some(ep_sq) = b.en_passant() {
            b.set_hash(b.hash() ^ KEYS[785 + ep_sq.file().index()]);
        } else {
            proof {
                crate::bits::lemma_xor_algebra(b.view().hash, 0, 0);
            }
        }
        b.set_en_passant(None);
        b.set_side_to_move(b.side_to_move().flip());
        b.set_hash(b.hash() ^ KEYS[768]);
        b
    }
}

/// The XOR identities of a null move.
proof fn bv_null_move(p: u64, s: u64, c: u64, e: u64, k: u64, h: u64)
    by (bit_vector)
    ensures
        ((((p ^ s) ^ c) ^ e) ^ e) ^ k == ((p ^ (s ^ k)) ^ c) ^ 0u64,
        (((h ^ e) ^ k) ^ 0u64) ^ k == h ^ e,
        0u64 ^ k == k,
        k ^ k == 0u64,
{
}

/// Passing on a position whose hash is its Zobrist hash gives a position
/// whose hash is again its Zobrist hash, and a consistent board stays
/// consistent; passing twice gives the position back without its en
/// passant target.
pub proof fn lemma_null_move_hash(m: BoardModel)
    ensures
        m.hash == zobrist_hash(m) ==> null_move_model(m).hash == zobrist_hash(null_move_model(m)),
        consistent(m) ==> consistent(null_move_model(m)),
        null_move_model(null_move_model(m)) == (BoardModel {
            en_passant: None,
            hash: m.hash ^ ep_key(m.en_passant),
            ..m
        }),
{
    let p = placement_hash(m.pieces, m.sides, 64);
    let k = KEYS@[768];
    bv_null_move(p, side_key(m.side_to_move), KEYS@[769 + m.castling], ep_key(m.en_passant), k, m.hash);
    if consistent(m) {
        lemma_consistent_same_board(m, null_move_model(m));
    }
}

/// The hash of `m` is its placement hash XOR-ed with `x`.
pub open spec fn hash_tracks(m: BoardModel, x: u64) -> bool {
    m.hash == placement_hash(m.pieces, m.sides, 64) ^ x
}

/// XOR-ing a piece onto an empty square, or off a square that holds exactly
/// it, changes the placement hash by that piece's key, swaps the square
/// between empty and holding the piece, and leaves every other square alone.
proof fn lemma_xor_piece(m: BoardModel, s: int, k: PieceKind, c: Color, x: u64)
    requires
        m.shaped(),
        0 <= s < 64,
        hash_tracks(m, x),
        square_holds(m.pieces, m.sides, s, 12) || square_holds(m.pieces, m.sides, s, 6 * c.idx() + k.idx()),
    ensures
        xor_piece(m, s, k, c).shaped(),
        hash_tracks(xor_piece(m, s, k, c), x),
        square_holds(m.pieces, m.sides, s, 12) ==> square_holds(
            xor_piece(m, s, k, c).pieces,
            xor_piece(m, s, k, c).sides,
            s,
            6 * c.idx() + k.idx(),
        ),
        square_holds(m.pieces, m.sides, s, 6 * c.idx() + k.idx()) ==> square_holds(
            xor_piece(m, s, k, c).pieces,
            xor_piece(m, s, k, c).sides,
            s,
            12,
        ),
        forall|t: int, p: int|
            t != s ==> #[trigger] square_holds(xor_piece(m, s, k, c).pieces, xor_piece(m, s, k, c).sides, t, p)
                == square_holds(m.pieces, m.sides, t, p),
        consistent(m) ==> consistent(xor_piece(m, s, k, c)),
{
    let m2 = xor_piece(m, s, k, c);
    let p0 = 6 * c.idx() + k.idx();
    assert forall|j: int, t: int| 0 <= j < 6 implies #[trigger] bit(m2.pieces[j], t) == (if j == k.idx() {
        bit(m.pieces[j], t) != (t == s)
    } else {
        bit(m.pieces[j], t)
    }) by {
        lemma_bit_xor(m.pieces[j], single(s), t);
        lemma_bit_single(s, t);
    }
    assert forall|i: int, t: int| 0 <= i < 2 implies #[trigger] bit(m2.sides[i], t) == (if i == c.idx() {
        bit(m.sides[i], t) != (t == s)
    } else {
        bit(m.sides[i], t)
    }) by {
        lemma_bit_xor(m.sides[i], single(s), t);
        lemma_bit_single(s, t);
    }
    assert forall|t: int, p: int| t != s implies #[trigger] square_holds(m2.pieces, m2.sides, t, p)
        == square_holds(m.pieces, m.sides, t, p) by {
        assert forall|j: int| 0 <= j < 6 implies bit(#[trigger] m2.pieces[j], t) == bit(m.pieces[j], t) by {
            assert(bit(m2.pieces[j], t) == (if j == k.idx() { bit(m.pieces[j], t) != (t == s) } else { bit(m.pieces[j], t) }));
        }
        assert forall|i: int| 0 <= i < 2 implies bit(#[trigger] m2.sides[i], t) == bit(m.sides[i], t) by {
            assert(bit(m2.sides[i], t) == (if i == c.idx() { bit(m.sides[i], t) != (t == s) } else { bit(m.sides[i], t) }));
        }
        if square_holds(m.pieces, m.sides, t, p) {
            assert forall|j: int| 0 <= j < 6 implies bit(#[trigger] m2.pieces[j], t) == (p < 12 && j == p % 6) by {
                assert(bit(m.pieces[j], t) == (p < 12 && j == p % 6));
            }
            assert forall|i: int| 0 <= i < 2 implies bit(#[trigger] m2.sides[i], t) == (p < 12 && i == p / 6) by {
                assert(bit(m.sides[i], t) == (p < 12 && i == p / 6));
            }
        }
        if square_holds(m2.pieces, m2.sides, t, p) {
            assert forall|j: int| 0 <= j < 6 implies bit(#[trigger] m.pieces[j], t) == (p < 12 && j == p % 6) by {
                assert(bit(m2.pieces[j], t) == (p < 12 && j == p % 6));
            }
            assert forall|i: int| 0 <= i < 2 implies bit(#[trigger] m.sides[i], t) == (p < 12 && i == p / 6) by {
                assert(bit(m2.sides[i], t) == (p < 12 && i == p / 6));
            }
        }
    }
    assert forall|t: int| 0 <= t < 64 && t != s implies #[trigger] square_hash(m.pieces, m.sides, t, 12)
        == square_hash(m2.pieces, m2.sides, t, 12) by {
        assert forall|q: int| 0 <= q < 12 implies #[trigger] present(m.pieces, m.sides, q, t)
            == present(m2.pieces, m2.sides, q, t) by {
            lemma_bit_and(m.pieces[q % 6], m.sides[q / 6], t);
            lemma_bit_and(m2.pieces[q % 6], m2.sides[q / 6], t);
            assert(bit(m2.pieces[q % 6], t) == bit(m.pieces[q % 6], t));
            assert(bit(m2.sides[q / 6], t) == bit(m.sides[q / 6], t));
        }
        lemma_square_hash_same(m.pieces, m.sides, m2.pieces, m2.sides, t, 12);
    }
    assert(p0 % 6 == k.idx() && p0 / 6 == c.idx());
    if square_holds(m.pieces, m.sides, s, 12) {
        assert forall|j: int| 0 <= j < 6 implies bit(#[trigger] m2.pieces[j], s) == (j == p0 % 6) by {
            assert(bit(m2.pieces[j], s) == (if j == k.idx() { bit(m.pieces[j], s) != (s == s) } else { bit(m.pieces[j], s) }));
        }
        assert forall|i: int| 0 <= i < 2 implies bit(#[trigger] m2.sides[i], s) == (i == p0 / 6) by {
            assert(bit(m2.sides[i], s) == (if i == c.idx() { bit(m.sides[i], s) != (s == s) } else { bit(m.sides[i], s) }));
        }
        assert(square_holds(m2.pieces, m2.sides, s, p0));
        lemma_square_hash_holds(m.pieces, m.sides, s, 12, 12);
        lemma_square_hash_holds(m2.pieces, m2.sides, s, p0, 12);
        lemma_xor_shuffle(piece_square_key(p0, s), 0, 0, 0, 0);
    } else {
        assert forall|j: int| 0 <= j < 6 implies !bit(#[trigger] m2.pieces[j], s) by {
            assert(bit(m2.pieces[j], s) == (if j == k.idx() { bit(m.pieces[j], s) != (s == s) } else { bit(m.pieces[j], s) }));
        }
        assert forall|i: int| 0 <= i < 2 implies !bit(#[trigger] m2.sides[i], s) by {
            assert(bit(m2.sides[i], s) == (if i == c.idx() { bit(m.sides[i], s) != (s == s) } else { bit(m.sides[i], s) }));
        }
        assert(square_holds(m2.pieces, m2.sides, s, 12));
        lemma_square_hash_holds(m.pieces, m.sides, s, p0, 12);
        lemma_square_hash_holds(m2.pieces, m2.sides, s, 12, 12);
        crate::bits::lemma_xor_algebra(piece_square_key(p0, s), 0, 0);
    }
    lemma_placement_hash_one_square(m.pieces, m.sides, m2.pieces, m2.sides, s, 64);
    lemma_xor_shuffle(placement_hash(m.pieces, m.sides, 64), piece_square_key(p0, s), x, 0, 0);
    if consistent(m) {
        let was_empty = square_holds(m.pieces, m.sides, s, 12);
        assert forall|t: int| 0 <= t < 64 implies #[trigger] square_code(m2, t) <= 12 && square_holds(
            m2.pieces,
            m2.sides,
            t,
            square_code(m2, t),
        ) by {
            if t == s {
                if was_empty {
                    lemma_holds_code(m2, s, p0);
                } else {
                    lemma_holds_code(m2, s, 12);
                }
            } else {
                let c0 = square_code(m, t);
                assert(square_holds(m.pieces, m.sides, t, c0));
                assert(square_holds(m2.pieces, m2.sides, t, c0));
                lemma_holds_code(m2, t, c0);
            }
        }
    }
}

/// The squares of `mv` hold what its kind moves, or its source is empty (and
/// the move leaves the board as it is): a piece of the side to move
/// on the source, no piece of that side on the destination, a pawn for a
/// promotion or an en passant capture (whose destination is empty and whose
/// captured square, on the board, is empty or holds an enemy pawn), and for
/// castling the king, an empty destination, an empty square for the rook and
/// its corner empty or holding the side's rook.
pub open spec fn move_fits(m: BoardModel, mv: Move) -> bool {
    let us = m.side_to_move;
    let src = mv.src();
    let dst = mv.dst();
    m.color_at(src) is None || move_fits_piece(m, mv)
}

/// The squares of `mv` hold what its kind moves, for a source holding a
/// piece (see [`move_fits`]).
pub open spec fn move_fits_piece(m: BoardModel, mv: Move) -> bool {
    let us = m.side_to_move;
    let src = mv.src();
    let dst = mv.dst();
    &&& m.color_at(src) == Some(us)
    &&& m.color_at(dst) != Some(us)
    &&& match mv.spec_kind() {
        MoveKind::Normal => true,
        MoveKind::Promotion => m.piece_at(src) == Some(PieceKind::Pawn),
        MoveKind::EnPassant => {
            let cap = if us == Color::White { dst - 8 } else { dst + 8 };
            &&& m.piece_at(src) == Some(PieceKind::Pawn)
            &&& m.color_at(dst) is None
            &&& 0 <= cap < 64
            &&& m.color_at(cap) is None || (m.piece_at(cap) == Some(PieceKind::Pawn) && m.color_at(cap) == Some(us.opp()))
        },
        MoveKind::Castling => match castle_rook_squares(dst) {
            Some((rs, rd)) => {
                &&& m.piece_at(src) == Some(PieceKind::King)
                &&& m.color_at(dst) is None
                &&& m.color_at(rd) is None
                &&& m.color_at(rs) is None || (m.piece_at(rs) == Some(PieceKind::Rook) && m.color_at(rs) == Some(us))
            },
            None => false,
        },
    }
}

/// On a consistent board, a square holds what its code says, and it is
/// occupied exactly when it holds a piece.
pub proof fn lemma_code(m: BoardModel, s: int)
    requires
        consistent(m),
        0 <= s < 64,
    ensures
        0 <= square_code(m, s) <= 12,
        square_holds(m.pieces, m.sides, s, square_code(m, s)),
        bit(m.occupied, s) == (square_code(m, s) < 12),
{
    assert(square_code(m, s) <= 12);
    lemma_bit_or(m.sides[0], m.sides[1], s);
    assert(bit(m.sides[0], s) == (square_code(m, s) < 12 && 0 == square_code(m, s) / 6));
    assert(bit(m.sides[1], s) == (square_code(m, s) < 12 && 1 == square_code(m, s) / 6));
}

/// Removing the captured piece, if any, from a square holding exactly it
/// empties the square and keeps the hash tracking the placement.
proof fn lemma_remove_captured(m: BoardModel, dst: int, them: Color, is_capture: bool, cd: int, x: u64)
    requires
        m.shaped(),
        0 <= dst < 64,
        hash_tracks(m, x),
        0 <= cd <= 12,
        square_holds(m.pieces, m.sides, dst, cd),
        is_capture == (cd < 12),
        cd < 12 ==> cd / 6 == them.idx(),
    ensures
        remove_captured(m, dst, them, is_capture).shaped(),
        hash_tracks(remove_captured(m, dst, them, is_capture), x),
        remove_captured(m, dst, them, is_capture).side_to_move == m.side_to_move,
        square_holds(remove_captured(m, dst, them, is_capture).pieces, remove_captured(m, dst, them, is_capture).sides, dst, 12),
        forall|t: int, p: int|
            t != dst ==> #[trigger] square_holds(
                remove_captured(m, dst, them, is_capture).pieces,
                remove_captured(m, dst, them, is_capture).sides,
                t,
                p,
            ) == square_holds(m.pieces, m.sides, t, p),
        consistent(m) ==> consistent(remove_captured(m, dst, them, is_capture)),
{
    if is_capture {
        assert(bit(m.pieces[cd % 6], dst));
        let ck = m.piece_at(dst)->0;
        assert(ck.idx() == cd % 6);
        lemma_xor_piece(m, dst, ck, them, x);
    }
}

/// Applying a move that fits a consistent board whose hash is the Zobrist
/// hash of its position gives a board whose incrementally updated hash is
/// again the Zobrist hash of its position, and the board stays consistent.
pub proof fn lemma_make_move_hash(m: BoardModel, mv: Move)
    requires
        consistent(m),
        m.hash == zobrist_hash(m),
        move_fits(m, mv),
    ensures
        make_move_model(m, mv).hash == zobrist_hash(make_move_model(m, mv)),
        consistent(make_move_model(m, mv)),
{
    lemma_code(m, mv.src());
    if m.piece_at(mv.src()) is Some {
        lemma_make_move_hash_piece(m, mv);
    }
}

/// The hash law for a move whose source holds a piece.
#[verifier::spinoff_prover]
#[verifier::rlimit(40)]
proof fn lemma_make_move_hash_piece(m: BoardModel, mv: Move)
    requires
        consistent(m),
        m.hash == zobrist_hash(m),
        move_fits_piece(m, mv),
    ensures
        make_move_model(m, mv).hash == zobrist_hash(make_move_model(m, mv)),
        consistent(make_move_model(m, mv)),
{
    let us = m.side_to_move;
    let them = us.opp();
    let src = mv.src();
    let dst = mv.dst();
    lemma_code(m, src);
    lemma_code(m, dst);
    let moving = m.piece_at(src)->0;
    let mi = 6 * us.idx() + moving.idx();
    assert(square_code(m, src) == mi);
    let x = side_key(us);
    let m1 = BoardModel {
        en_passant: None,
        hash: m.hash ^ ep_key(m.en_passant) ^ KEYS@[769 + m.castling],
        ..m
    };
    lemma_xor_shuffle(placement_hash(m.pieces, m.sides, 64), x, KEYS@[769 + m.castling], ep_key(m.en_passant), 0);
    assert(hash_tracks(m1, x));
    lemma_consistent_same_board(m, m1);
    let is_capture = bit(m.occupied, dst) && mv.spec_kind() != MoveKind::Castling;
    let step = placement_step(m1, mv, moving, is_capture);
    let m4 = step.0;
    match mv.spec_kind() {
        MoveKind::Normal => {
            lemma_remove_captured(m1, dst, them, is_capture, square_code(m, dst), x);
            let m2 = remove_captured(m1, dst, them, is_capture);
            assert(square_holds(m2.pieces, m2.sides, src, mi));
            lemma_xor_piece(m2, src, moving, us, x);
            let m3 = xor_piece(m2, src, moving, us);
            assert(square_holds(m3.pieces, m3.sides, dst, 12));
            lemma_xor_piece(m3, dst, moving, us, x);
            lemma_consistent_same_board(xor_piece(m3, dst, moving, us), m4);
        },
        MoveKind::Promotion => {
            lemma_remove_captured(m1, dst, them, is_capture, square_code(m, dst), x);
            let m2 = remove_captured(m1, dst, them, is_capture);
            assert(square_holds(m2.pieces, m2.sides, src, mi));
            lemma_xor_piece(m2, src, PieceKind::Pawn, us, x);
            let m3 = xor_piece(m2, src, PieceKind::Pawn, us);
            assert(square_holds(m3.pieces, m3.sides, dst, 12));
            lemma_xor_piece(m3, dst, mv.promo().spec_kind(), us, x);
        },
        MoveKind::EnPassant => {
            let cap = if us == Color::White { dst - 8 } else { dst + 8 };
            lemma_code(m, cap);
            let cc = square_code(m, cap);
            assert(cc == 12 || cc == 6 * them.idx());
            lemma_xor_piece(m1, src, PieceKind::Pawn, us, x);
            let m2 = xor_piece(m1, src, PieceKind::Pawn, us);
            assert(square_holds(m2.pieces, m2.sides, dst, 12));
            lemma_xor_piece(m2, dst, PieceKind::Pawn, us, x);
            let m3 = xor_piece(m2, dst, PieceKind::Pawn, us);
            assert(square_holds(m2.pieces, m2.sides, cap, cc));
            assert(square_holds(m3.pieces, m3.sides, cap, cc));
            lemma_xor_piece(m3, cap, PieceKind::Pawn, them, x);
        },
        MoveKind::Castling => {
            let (rs, rd) = castle_rook_squares(dst)->0;
            lemma_code(m, rs);
            lemma_code(m, rd);
            let rc = square_code(m, rs);
            assert(rc == 12 || rc == 6 * us.idx() + 3);
            lemma_xor_piece(m1, src, PieceKind::King, us, x);
            let m2 = xor_piece(m1, src, PieceKind::King, us);
            assert(square_holds(m2.pieces, m2.sides, dst, 12));
            lemma_xor_piece(m2, dst, PieceKind::King, us, x);
            let m3 = xor_piece(m2, dst, PieceKind::King, us);
            assert(square_holds(m2.pieces, m2.sides, rs, rc));
            assert(square_holds(m3.pieces, m3.sides, rs, rc));
            lemma_xor_piece(m3, rs, PieceKind::Rook, us, x);
            let m5 = xor_piece(m3, rs, PieceKind::Rook, us);
            assert(square_holds(m2.pieces, m2.sides, rd, 12));
            assert(square_holds(m3.pieces, m3.sides, rd, 12));
            assert(square_holds(m5.pieces, m5.sides, rd, 12));
            lemma_xor_piece(m5, rd, PieceKind::Rook, us, x);
        },
    }
    assert(step.1);
    assert(hash_tracks(m4, x));
    assert(m4.side_to_move == us);
    let castling = m4.castling & !revoke_bits(src) & !revoke_bits(dst);
    lemma_xor_shuffle(placement_hash(m4.pieces, m4.sides, 64), x, KEYS@[769 + castling], ep_key(m4.en_passant), KEYS@[768]);
    if us == Color::White {
        lemma_xor_shuffle(KEYS@[768], 0, 0, 0, 0);
    } else {
        crate::bits::lemma_xor_algebra(KEYS@[768], KEYS@[768], 0);
    }
    lemma_consistent_same_board(m4, make_move_model(m, mv));
}

/// A piece of color `c` standing on `a` attacks `t` over the occupancy `occ`,
/// read from each kind's bitboard.
pub open spec fn piece_attacks(m: BoardModel, a: int, t: int, c: Color, occ: u64) -> bool {
    &&& bit(m.sides[c.idx()], a)
    &&& {
        ||| bit(m.pieces[1], a) && knight_geom(a, t)
        ||| bit(m.pieces[5], a) && king_geom(a, t)
        ||| bit(m.pieces[0], a) && pawn_geom(c, a, t)
        ||| (bit(m.pieces[3], a) || bit(m.pieces[4], a)) && rook_sees(a, t, occ)
        ||| (bit(m.pieces[2], a) || bit(m.pieces[4], a)) && bishop_sees(a, t, occ)
    }
}

/// Square `t` is attacked by some piece of color `c` over the occupancy `occ`.
pub open spec fn attacked_by(m: BoardModel, t: int, c: Color, occ: u64) -> bool {
    exists|a: int| 0 <= a < 64 && #[trigger] piece_attacks(m, a, t, c, occ)
}

proof fn lemma_bit_and3(x: u64, y: u64, z: u64, i: int)
    ensures
        bit(x & y & z, i) == (bit(x, i) && bit(y, i) && bit(z, i)),
{
    lemma_bit_and(x & y, z, i);
    lemma_bit_and(x, y, i);
}



/// No attacker bitboard holds a piece, so nothing attacks the square.
proof fn lemma_not_attacked(m: BoardModel, t: int, c: Color, occ: u64, na: u64, ka: u64, pw: u64, ra: u64, ba: u64)
    requires
        m.shaped(),
        is_sq(t),
        forall|x: int| #[trigger] bit(na, x) == knight_geom(t, x),
        forall|x: int| #[trigger] bit(ka, x) == king_geom(t, x),
        forall|x: int| #[trigger] bit(pw, x) == pawn_geom(c.opp(), t, x),
        forall|x: int| #[trigger] bit(ra, x) == rook_sees(t, x, occ),
        forall|x: int| #[trigger] bit(ba, x) == bishop_sees(t, x, occ),
        na & m.sides[c.idx()] & m.pieces[1] == 0,
        ka & m.sides[c.idx()] & m.pieces[5] == 0,
        pw & m.sides[c.idx()] & m.pieces[0] == 0,
        ra & ((m.pieces[3] | m.pieces[4]) & m.sides[c.idx()]) == 0,
        ba & ((m.pieces[2] | m.pieces[4]) & m.sides[c.idx()]) == 0,
    ensures
        !attacked_by(m, t, c, occ),
{
    let s = m.sides[c.idx()];
    assert forall|a: int| 0 <= a < 64 implies !#[trigger] piece_attacks(m, a, t, c, occ) by {
        lemma_leapers_symmetric(c, a, t);
        lemma_sees_symmetric(a, t, occ);
        lemma_bit_zero(a);
        lemma_bit_and3(na, s, m.pieces[1], a);
        lemma_bit_and3(ka, s, m.pieces[5], a);
        lemma_bit_and3(pw, s, m.pieces[0], a);
        lemma_bit_and(ra, (m.pieces[3] | m.pieces[4]) & s, a);
        lemma_bit_and(m.pieces[3] | m.pieces[4], s, a);
        lemma_bit_or(m.pieces[3], m.pieces[4], a);
        lemma_bit_and(ba, (m.pieces[2] | m.pieces[4]) & s, a);
        lemma_bit_and(m.pieces[2] | m.pieces[4], s, a);
        lemma_bit_or(m.pieces[2], m.pieces[4], a);
    }
}

impl Board {
    /// Return `true` if `sq` is attacked by `by_color`, using a custom `occupied` bitboard.
    ///
    /// Useful for king-move legality checks where the king is temporarily
    /// removed from the occupied set.
    pub fn is_square_attacked_with_occ(&self, sq: Square, by_color: Color, occupied: Bitboard) -> (r: bool)
        ensures
            r == attacked_by(self.view(), sq.view(), by_color, occupied.view()),
    {
        let ghost m = self.view();
        let ghost t = sq.view();
        let ghost occ = occupied.view();
        let ghost ci = by_color.idx();
        let them = self.side(by_color);

        let na = knight_attacks(sq);
        let kn = na & them & self.pieces(PieceKind::Knight);
        if kn.is_nonempty() {
            proof {
                lemma_zero_iff_no_bits(kn.view());
                let a = choose|a: int| 0 <= a < 64 && #[trigger] bit(kn.view(), a);
                assert(na.has(a) == bit(na.view(), a));
                lemma_bit_and3(na.view(), m.sides[ci], m.pieces[1], a);
                lemma_leapers_symmetric(by_color, a, t);
                assert(piece_attacks(m, a, t, by_color, occ));
            }
            return true;
        }
        let ka = king_attacks(sq);
        let ki = ka & them & self.pieces(PieceKind::King);
        if ki.is_nonempty() {
            proof {
                lemma_zero_iff_no_bits(ki.view());
                let a = choose|a: int| 0 <= a < 64 && #[trigger] bit(ki.view(), a);
                assert(ka.has(a) == bit(ka.view(), a));
                lemma_bit_and3(ka.view(), m.sides[ci], m.pieces[5], a);
                lemma_leapers_symmetric(by_color, a, t);
                assert(piece_attacks(m, a, t, by_color, occ));
            }
            return true;
        }
        let opp_color = by_color.flip();
        let pw = pawn_attacks(opp_color, sq);
        let pa = pw & them & self.pieces(PieceKind::Pawn);
        if pa.is_nonempty() {
            proof {
                lemma_zero_iff_no_bits(pa.view());
                let a = choose|a: int| 0 <= a < 64 && #[trigger] bit(pa.view(), a);
                assert(pw.has(a) == bit(pw.view(), a));
                lemma_bit_and3(pw.view(), m.sides[ci], m.pieces[0], a);
                lemma_leapers_symmetric(by_color, a, t);
                assert(piece_attacks(m, a, t, by_color, occ));
            }
            return true;
        }
        let rook_queen = (self.pieces(PieceKind::Rook) | self.pieces(PieceKind::Queen)) & them;
        let ra = rook_attacks(sq, occupied);
        let rq = ra & rook_queen;
        if rq.is_nonempty() {
            proof {
                lemma_zero_iff_no_bits(rq.view());
                let a = choose|a: int| 0 <= a < 64 && #[trigger] bit(rq.view(), a);
                assert(ra.has(a) == bit(ra.view(), a));
                lemma_bit_and(ra.view(), rook_queen.view(), a);
                lemma_bit_and(m.pieces[3] | m.pieces[4], m.sides[ci], a);
                lemma_bit_or(m.pieces[3], m.pieces[4], a);
                lemma_sees_symmetric(a, t, occ);
                assert(piece_attacks(m, a, t, by_color, occ));
            }
            return true;
        }
        let bishop_queen = (self.pieces(PieceKind::Bishop) | self.pieces(PieceKind::Queen)) & them;
        let ba = bishop_attacks(sq, occupied);
        let bq = ba & bishop_queen;
        if bq.is_nonempty() {
            proof {
                lemma_zero_iff_no_bits(bq.view());
                let a = choose|a: int| 0 <= a < 64 && #[trigger] bit(bq.view(), a);
                assert(ba.has(a) == bit(ba.view(), a));
                lemma_bit_and(ba.view(), bishop_queen.view(), a);
                lemma_bit_and(m.pieces[2] | m.pieces[4], m.sides[ci], a);
                lemma_bit_or(m.pieces[2], m.pieces[4], a);
                lemma_sees_symmetric(a, t, occ);
                assert(piece_attacks(m, a, t, by_color, occ));
            }
            return true;
        }
        proof {
            assert forall|x: int| #[trigger] bit(na.view(), x) == knight_geom(t, x) by {
                assert(na.has(x) == bit(na.view(), x));
            }
            assert forall|x: int| #[trigger] bit(ka.view(), x) == king_geom(t, x) by {
                assert(ka.has(x) == bit(ka.view(), x));
            }
            assert forall|x: int| #[trigger] bit(pw.view(), x) == pawn_geom(by_color.opp(), t, x) by {
                assert(pw.has(x) == bit(pw.view(), x));
            }
            assert forall|x: int| #[trigger] bit(ra.view(), x) == rook_sees(t, x, occ) by {
                assert(ra.has(x) == bit(ra.view(), x));
            }
            assert forall|x: int| #[trigger] bit(ba.view(), x) == bishop_sees(t, x, occ) by {
                assert(ba.has(x) == bit(ba.view(), x));
            }
            lemma_not_attacked(m, t, by_color, occ, na.view(), ka.view(), pw.view(), ra.view(), ba.view());
        }
        false
    }

    /// Return `true` if `sq` is attacked by any piece of `by_color`.
    pub fn is_square_attacked(&self, sq: Square, by_color: Color) -> (r: bool)
        ensures
            r == attacked_by(self.view(), sq.view(), by_color, self.view().occupied),
    {
        self.is_square_attacked_with_occ(sq, by_color, self.occupied())
    }
}

} // verus!
