//! Chess move representation, bit-packed into a u16.

use vstd::prelude::*;

use crate::piece_kind::PieceKind;
use crate::square::{square_name, Square};

verus! {

broadcast use Square::lemma_range;

/// The category of a chess move.
#[derive(Debug, Clone, Copy, PartialEq, Eq, Hash, Structural)]
pub enum MoveKind {
    Normal,
    Promotion,
    EnPassant,
    Castling,
}

impl MoveKind {
    /// The 2-bit code of a move kind.
    pub open spec fn code(self) -> int {
        match self {
            MoveKind::Normal => 0,
            MoveKind::Promotion => 1,
            MoveKind::EnPassant => 2,
            MoveKind::Castling => 3,
        }
    }

    /// The move kind with 2-bit code `c`.
    pub open spec fn from_code(c: int) -> MoveKind {
        if c == 0 {
            MoveKind::Normal
        } else if c == 1 {
            MoveKind::Promotion
        } else if c == 2 {
            MoveKind::EnPassant
        } else {
            MoveKind::Castling
        }
    }

    /// Return the bit pattern for this kind, shifted to position.
    fn bits(self) -> (r: u16)
        ensures
            r == self.code() * 16384,
    {
        match self {
            MoveKind::Normal => 0,
            MoveKind::Promotion => 16384,
            MoveKind::EnPassant => 32768,
            MoveKind::Castling => 49152,
        }
    }
}

/// The piece a pawn promotes to.
#[derive(Debug, Clone, Copy, PartialEq, Eq, Hash, Structural)]
pub enum PromotionPiece {
    Knight,
    Bishop,
    Rook,
    Queen,
}

impl PromotionPiece {
    /// All promotion pieces in index order.
    pub const ALL: [PromotionPiece; 4] = [
        PromotionPiece::Knight,
        PromotionPiece::Bishop,
        PromotionPiece::Rook,
        PromotionPiece::Queen,
    ];

    /// The 2-bit code of a promotion piece.
    pub open spec fn code(self) -> int {
        match self {
            PromotionPiece::Knight => 0,
            PromotionPiece::Bishop => 1,
            PromotionPiece::Rook => 2,
            PromotionPiece::Queen => 3,
        }
    }

    /// The promotion piece with 2-bit code `c`.
    pub open spec fn from_code(c: int) -> PromotionPiece {
        if c == 0 {
            PromotionPiece::Knight
        } else if c == 1 {
            PromotionPiece::Bishop
        } else if c == 2 {
            PromotionPiece::Rook
        } else {
            PromotionPiece::Queen
        }
    }

    /// The piece kind a promotion produces.
    pub open spec fn spec_kind(self) -> PieceKind {
        match self {
            PromotionPiece::Knight => PieceKind::Knight,
            PromotionPiece::Bishop => PieceKind::Bishop,
            PromotionPiece::Rook => PieceKind::Rook,
            PromotionPiece::Queen => PieceKind::Queen,
        }
    }

    /// Convert to the corresponding [`PieceKind`].
    pub fn to_piece_kind(self) -> (r: PieceKind)
        ensures
            r == self.spec_kind(),
    {
        match self {
            PromotionPiece::Knight => PieceKind::Knight,
            PromotionPiece::Bishop => PieceKind::Bishop,
            PromotionPiece::Rook => PieceKind::Rook,
            PromotionPiece::Queen => PieceKind::Queen,
        }
    }

    /// Return the UCI character for this promotion.
    pub fn uci_char(self) -> (c: char)
        ensures
            c == self.spec_kind().spec_fen_char(),
    {
        match self {
            PromotionPiece::Knight => 'n',
            PromotionPiece::Bishop => 'b',
            PromotionPiece::Rook => 'r',
            PromotionPiece::Queen => 'q',
        }
    }

    /// Return the bit pattern for this promotion, shifted to position.
    fn bits(self) -> (r: u16)
        ensures
            r == self.code() * 4096,
    {
        match self {
            PromotionPiece::Knight => 0,
            PromotionPiece::Bishop => 4096,
            PromotionPiece::Rook => 8192,
            PromotionPiece::Queen => 12288,
        }
    }
}

/// A chess move encoded in 16 bits.
///
/// ```text
/// bits  0-5:  source square      (0-63)
/// bits  6-11: destination square (0-63)
/// bits 12-13: promotion piece    (Knight=0, Bishop=1, Rook=2, Queen=3)
/// bits 14-15: move kind          (Normal=0, Promotion=1, EnPassant=2, Castling=3)
/// ```
#[derive(Clone, Copy, PartialEq, Eq, Hash, Debug, Structural)]
pub struct Move(u16);

/// The 16-bit code of a move with the given fields.
pub open spec fn move_code(src: int, dst: int, promo: int, kind: int) -> int {
    src + 64 * dst + 4096 * promo + 16384 * kind
}

/// Packing the fields with `|` and shifts gives the arithmetic code, and the
/// masks and shifts read the fields back.
proof fn bv_move_fields(v: u16, s: u16, d: u16, p: u16, k: u16)
    by (bit_vector)
    ensures
        (s < 64 && d < 64 && p < 4 && k < 4) ==> (s | (d << 6u16) | (p << 12u16) | (k << 14u16)) == s + 64 * d + 4096 * p + 16384 * k,
        (s < 64 && d < 64) ==> (s | (d << 6u16)) == s + 64 * d,
        v & 0x3Fu16 == v % 64,
        (v & 0x0FC0u16) >> 6u16 == (v / 64) % 64,
        (v & 0x3000u16) >> 12u16 == (v / 4096) % 4,
        (v & 0xC000u16) >> 14u16 == v / 16384,
{
}

impl Move {
    /// The 16-bit code of the move.
    pub closed spec fn view(self) -> u16 {
        self.0
    }

    /// Moves are equal exactly when their codes are.
    pub broadcast proof fn lemma_view_eq(a: Move, b: Move)
        ensures
            #![trigger a.view(), b.view()]
            a.view() == b.view() <==> a == b,
    {
    }

    /// Source square index.
    pub open spec fn src(self) -> int {
        self.view() as int % 64
    }

    /// Destination square index.
    pub open spec fn dst(self) -> int {
        (self.view() as int / 64) % 64
    }

    /// Promotion field.
    pub open spec fn promo(self) -> PromotionPiece {
        PromotionPiece::from_code((self.view() as int / 4096) % 4)
    }

    /// Kind field.
    pub open spec fn spec_kind(self) -> MoveKind {
        MoveKind::from_code(self.view() as int / 16384)
    }

    /// The 16-bit code of the move.
    pub fn raw(self) -> (r: u16)
        ensures
            r == self.view(),
    {
        self.0
    }

    /// The move with code `c`.
    pub closed spec fn of_code(c: u16) -> Move {
        Move(c)
    }

    /// The move with code `c` has code `c`.
    pub broadcast proof fn lemma_of_code(c: u16)
        ensures
            #[trigger] Move::of_code(c).view() == c,
    {
    }

    /// The move with the given 16-bit code.
    pub fn from_raw(raw: u16) -> (r: Move)
        ensures
            r.view() == raw,
    {
        Move(raw)
    }

    /// Null move sentinel (A1→A1, Normal). Never a legal move.
    #[allow(non_snake_case)]
    pub fn NULL() -> (r: Move)
        ensures
            r.view() == 0,
    {
        Move(0)
    }

    /// Create a normal (quiet or capture) move.
    pub fn new(source: Square, dest: Square) -> (r: Move)
        ensures
            r.view() == move_code(source.view(), dest.view(), 0, 0),
    {
        let s = source.index() as u16;
        let d = dest.index() as u16;
        proof {
            bv_move_fields(0, s, d, 0, 0);
        }
        Move(s | (d << 6u16))
    }

    /// Create a promotion move.
    pub fn new_promotion(source: Square, dest: Square, promo: PromotionPiece) -> (r: Move)
        ensures
            r.view() == move_code(source.view(), dest.view(), promo.code(), 1),
    {
        let s = source.index() as u16;
        let d = dest.index() as u16;
        let p = promo.bits() / 4096;
        let k = MoveKind::Promotion.bits() / 16384;
        proof {
            bv_move_fields(0, s, d, p, k);
        }
        Move(s | (d << 6u16) | (p << 12u16) | (k << 14u16))
    }

    /// Create an en passant capture.
    pub fn new_en_passant(source: Square, dest: Square) -> (r: Move)
        ensures
            r.view() == move_code(source.view(), dest.view(), 0, 2),
    {
        let s = source.index() as u16;
        let d = dest.index() as u16;
        let k = MoveKind::EnPassant.bits() / 16384;
        proof {
            bv_move_fields(0, s, d, 0, k);
        }
        Move(s | (d << 6u16) | (0u16 << 12u16) | (k << 14u16))
    }

    /// Create a castling move using the king's source and destination squares.
    pub fn new_castle(king_src: Square, king_dst: Square) -> (r: Move)
        ensures
            r.view() == move_code(king_src.view(), king_dst.view(), 0, 3),
    {
        let s = king_src.index() as u16;
        let d = king_dst.index() as u16;
        let k = MoveKind::Castling.bits() / 16384;
        proof {
            bv_move_fields(0, s, d, 0, k);
        }
        Move(s | (d << 6u16) | (0u16 << 12u16) | (k << 14u16))
    }

    /// Extract the source square.
    pub fn source(self) -> (r: Square)
        ensures
            r.view() == self.src(),
    {
        proof {
            bv_move_fields(self.0, 0, 0, 0, 0);
        }
        Square::from_index_unchecked((self.0 & 0x3F) as u8)
    }

    /// Extract the destination square.
    pub fn dest(self) -> (r: Square)
        ensures
            r.view() == self.dst(),
    {
        proof {
            bv_move_fields(self.0, 0, 0, 0, 0);
        }
        Square::from_index_unchecked(((self.0 & 0x0FC0) >> 6u16) as u8)
    }

    /// Extract the move kind.
    pub fn kind(self) -> (r: MoveKind)
        ensures
            r == self.spec_kind(),
    {
        proof {
            bv_move_fields(self.0, 0, 0, 0, 0);
        }
        match (self.0 & 0xC000) >> 14u16 {
            0 => MoveKind::Normal,
            1 => MoveKind::Promotion,
            2 => MoveKind::EnPassant,
            _ => MoveKind::Castling,
        }
    }

    /// Extract the promotion piece.
    ///
    /// Only meaningful when `kind() == MoveKind::Promotion`.
    pub fn promotion_piece(self) -> (r: PromotionPiece)
        ensures
            r == self.promo(),
    {
        proof {
            bv_move_fields(self.0, 0, 0, 0, 0);
        }
        match (self.0 & 0x3000) >> 12u16 {
            0 => PromotionPiece::Knight,
            1 => PromotionPiece::Bishop,
            2 => PromotionPiece::Rook,
            _ => PromotionPiece::Queen,
        }
    }

    /// Return `true` if this is the null move sentinel.
    pub fn is_null(self) -> (r: bool)
        ensures
            r == (self.view() == 0),
    {
        self.0 == 0
    }

    /// Return `true` if this is a promotion move.
    pub fn is_promotion(self) -> (r: bool)
        ensures
            r == (self.spec_kind() == MoveKind::Promotion),
    {
        match self.kind() {
            MoveKind::Promotion => true,
            _ => false,
        }
    }

    /// Return `true` if this is an en passant capture.
    pub fn is_en_passant(self) -> (r: bool)
        ensures
            r == (self.spec_kind() == MoveKind::EnPassant),
    {
        match self.kind() {
            MoveKind::EnPassant => true,
            _ => false,
        }
    }

    /// Return `true` if this is a castling move.
    pub fn is_castle(self) -> (r: bool)
        ensures
            r == (self.spec_kind() == MoveKind::Castling),
    {
        match self.kind() {
            MoveKind::Castling => true,
            _ => false,
        }
    }

    /// Return `true` if this is a normal (quiet or capture) move.
    pub fn is_quiet(self) -> (r: bool)
        ensures
            r == (self.spec_kind() == MoveKind::Normal),
    {
        match self.kind() {
            MoveKind::Normal => true,
            _ => false,
        }
    }

    /// The UCI text of a move: source and destination names, then the
    /// promotion letter for promotions.
    pub open spec fn uci_text(self) -> Seq<char> {
        if self.spec_kind() == MoveKind::Promotion {
            square_name(self.src()) + square_name(self.dst()) + seq![self.promo().spec_kind().spec_fen_char()]
        } else {
            square_name(self.src()) + square_name(self.dst())
        }
    }

    /// Return the UCI string representation.
    pub fn to_uci(self) -> (r: String)
        ensures
            r@ == self.uci_text(),
    {
        let a = self.source().to_algebraic();
        let b = self.dest().to_algebraic();
        let mut s = String::new();
        s.push(a.get_char(0));
        s.push(a.get_char(1));
        s.push(b.get_char(0));
        s.push(b.get_char(1));
        if self.is_promotion() {
            s.push(self.promotion_piece().uci_char());
        }
        s
    }

    /// The text a move prints as: "0000" for the null move, its UCI text otherwise.
    pub fn to_text(self) -> (r: String)
        ensures
            self.view() == 0 ==> r@ == seq!['0', '0', '0', '0'],
            self.view() != 0 ==> r@ == self.uci_text(),
    {
        if self.is_null() {
            let mut s = String::new();
            s.push('0');
            s.push('0');
            s.push('0');
            s.push('0');
            s
        } else {
            self.to_uci()
        }
    }
}

/// The fields of a packed move read back as they were packed.
pub proof fn lemma_move_roundtrip(s: int, d: int, p: int, k: int)
    requires
        0 <= s < 64,
        0 <= d < 64,
        0 <= p < 4,
        0 <= k < 4,
    ensures
        move_code(s, d, p, k) % 64 == s,
        (move_code(s, d, p, k) / 64) % 64 == d,
        (move_code(s, d, p, k) / 4096) % 4 == p,
        move_code(s, d, p, k) / 16384 == k,
{
    assert(move_code(s, d, p, k) == s + 64 * (d + 64 * (p + 4 * k)));
    vstd::arithmetic::div_mod::lemma_fundamental_div_mod_converse(move_code(s, d, p, k), 64, d + 64 * (p + 4 * k), s);
    vstd::arithmetic::div_mod::lemma_fundamental_div_mod_converse(d + 64 * (p + 4 * k), 64, p + 4 * k, d);
    vstd::arithmetic::div_mod::lemma_fundamental_div_mod_converse(move_code(s, d, p, k), 4096, p + 4 * k, s + 64 * d);
    vstd::arithmetic::div_mod::lemma_fundamental_div_mod_converse(p + 4 * k, 4, k, p);
    vstd::arithmetic::div_mod::lemma_fundamental_div_mod_converse(move_code(s, d, p, k), 16384, k, s + 64 * d + 4096 * p);
}

} // verus!
