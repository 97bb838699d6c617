//! Colored chess piece, bit-packed into a single byte.

use vstd::prelude::*;

use crate::color::Color;
use crate::piece_kind::PieceKind;

verus! {

/// A colored chess piece.
///
/// Its packed byte (see [`Piece::raw`]) holds the [`PieceKind`] in bits 0-2
/// and the [`Color`] in bit 3, so valid raw values are 0-5 (White pieces)
/// and 8-13 (Black pieces).
#[allow(non_camel_case_types)]
#[derive(Clone, Copy, PartialEq, Eq, Hash, Debug, Structural)]
pub enum Piece {
    WHITE_PAWN,
    WHITE_KNIGHT,
    WHITE_BISHOP,
    WHITE_ROOK,
    WHITE_QUEEN,
    WHITE_KING,
    BLACK_PAWN,
    BLACK_KNIGHT,
    BLACK_BISHOP,
    BLACK_ROOK,
    BLACK_QUEEN,
    BLACK_KING,
}

impl Piece {
    /// Number of distinct pieces.
    pub const COUNT: usize = 12;

    /// All 12 pieces: White pieces (indices 0-5) followed by Black pieces (indices 6-11).
    pub const ALL: [Piece; 12] = [
        Piece::WHITE_PAWN,
        Piece::WHITE_KNIGHT,
        Piece::WHITE_BISHOP,
        Piece::WHITE_ROOK,
        Piece::WHITE_QUEEN,
        Piece::WHITE_KING,
        Piece::BLACK_PAWN,
        Piece::BLACK_KNIGHT,
        Piece::BLACK_BISHOP,
        Piece::BLACK_ROOK,
        Piece::BLACK_QUEEN,
        Piece::BLACK_KING,
    ];

    /// The kind of a piece.
    pub open spec fn spec_kind(self) -> PieceKind {
        match self {
            Piece::WHITE_PAWN | Piece::BLACK_PAWN => PieceKind::Pawn,
            Piece::WHITE_KNIGHT | Piece::BLACK_KNIGHT => PieceKind::Knight,
            Piece::WHITE_BISHOP | Piece::BLACK_BISHOP => PieceKind::Bishop,
            Piece::WHITE_ROOK | Piece::BLACK_ROOK => PieceKind::Rook,
            Piece::WHITE_QUEEN | Piece::BLACK_QUEEN => PieceKind::Queen,
            Piece::WHITE_KING | Piece::BLACK_KING => PieceKind::King,
        }
    }

    /// The color of a piece.
    pub open spec fn spec_color(self) -> Color {
        match self {
            Piece::WHITE_PAWN | Piece::WHITE_KNIGHT | Piece::WHITE_BISHOP | Piece::WHITE_ROOK
            | Piece::WHITE_QUEEN | Piece::WHITE_KING => Color::White,
            _ => Color::Black,
        }
    }

    /// The contiguous index 0-11 of a piece: `6 * color + kind`.
    pub open spec fn idx(self) -> int {
        6 * self.spec_color().idx() + self.spec_kind().idx()
    }

    /// The packed byte of a piece: `8 * color + kind`.
    pub open spec fn spec_raw(self) -> int {
        8 * self.spec_color().idx() + self.spec_kind().idx()
    }

    /// The FEN letter of a piece: uppercase for White, lowercase for Black.
    pub open spec fn spec_fen_char(self) -> char {
        let c = self.spec_kind().spec_fen_char();
        match self.spec_color() {
            Color::White => (c as int - 32) as char,
            Color::Black => c,
        }
    }

    /// Create a piece from a kind and a color.
    pub fn new(kind: PieceKind, color: Color) -> (r: Piece)
        ensures
            r.spec_kind() == kind,
            r.spec_color() == color,
    {
        match (color, kind) {
            (Color::White, PieceKind::Pawn) => Piece::WHITE_PAWN,
            (Color::White, PieceKind::Knight) => Piece::WHITE_KNIGHT,
            (Color::White, PieceKind::Bishop) => Piece::WHITE_BISHOP,
            (Color::White, PieceKind::Rook) => Piece::WHITE_ROOK,
            (Color::White, PieceKind::Queen) => Piece::WHITE_QUEEN,
            (Color::White, PieceKind::King) => Piece::WHITE_KING,
            (Color::Black, PieceKind::Pawn) => Piece::BLACK_PAWN,
            (Color::Black, PieceKind::Knight) => Piece::BLACK_KNIGHT,
            (Color::Black, PieceKind::Bishop) => Piece::BLACK_BISHOP,
            (Color::Black, PieceKind::Rook) => Piece::BLACK_ROOK,
            (Color::Black, PieceKind::Queen) => Piece::BLACK_QUEEN,
            (Color::Black, PieceKind::King) => Piece::BLACK_KING,
        }
    }

    /// Parse a FEN character into a piece.
    ///
    /// Uppercase letters produce White pieces; lowercase letters produce Black pieces.
    /// Returns `None` for characters that are not valid piece letters.
    pub fn from_fen_char(c: char) -> (r: Option<Piece>)
        ensures
            r.is_some() == PieceKind::spec_from_fen_char(c).is_some(),
            r matches Some(p) ==> {
                &&& PieceKind::spec_from_fen_char(c) == Some(p.spec_kind())
                &&& p.spec_color() == (if 'A' <= c <= 'Z' { Color::White } else { Color::Black })
                &&& p.spec_fen_char() == c
            },
    {
        let kind = match PieceKind::from_fen_char(c) {
            Some(k) => k,
            None => return None,
        };
        let color = if 'A' <= c && c <= 'Z' {
            Color::White
        } else {
            Color::Black
        };
        Some(Piece::new(kind, color))
    }

    /// Return the piece kind (the lower 3 bits of the packed byte).
    pub fn kind(self) -> (r: PieceKind)
        ensures
            r == self.spec_kind(),
    {
        match self {
            Piece::WHITE_PAWN | Piece::BLACK_PAWN => PieceKind::Pawn,
            Piece::WHITE_KNIGHT | Piece::BLACK_KNIGHT => PieceKind::Knight,
            Piece::WHITE_BISHOP | Piece::BLACK_BISHOP => PieceKind::Bishop,
            Piece::WHITE_ROOK | Piece::BLACK_ROOK => PieceKind::Rook,
            Piece::WHITE_QUEEN | Piece::BLACK_QUEEN => PieceKind::Queen,
            Piece::WHITE_KING | Piece::BLACK_KING => PieceKind::King,
        }
    }

    /// Return the color (bit 3 of the packed byte: 0 = White, 1 = Black).
    pub fn color(self) -> (r: Color)
        ensures
            r == self.spec_color(),
    {
        match self {
            Piece::WHITE_PAWN | Piece::WHITE_KNIGHT | Piece::WHITE_BISHOP | Piece::WHITE_ROOK
            | Piece::WHITE_QUEEN | Piece::WHITE_KING => Color::White,
            _ => Color::Black,
        }
    }

    /// Return a contiguous index 0-11 for use in fixed-size arrays.
    ///
    /// White pieces occupy indices 0-5, Black pieces occupy indices 6-11.
    pub fn index(self) -> (r: usize)
        ensures
            r == self.idx(),
            r < 12,
    {
        self.color().index() * 6 + self.kind().index()
    }

    /// Return the raw bit-packed byte (0-5 for White, 8-13 for Black).
    pub fn raw(self) -> (r: u8)
        ensures
            r == self.spec_raw(),
    {
        (self.color().index() * 8 + self.kind().index()) as u8
    }

    /// Return the FEN character for this piece.
    ///
    /// Uppercase for White pieces, lowercase for Black pieces.
    pub fn fen_char(self) -> (c: char)
        ensures
            c == self.spec_fen_char(),
    {
        match self {
            Piece::WHITE_PAWN => 'P',
            Piece::WHITE_KNIGHT => 'N',
            Piece::WHITE_BISHOP => 'B',
            Piece::WHITE_ROOK => 'R',
            Piece::WHITE_QUEEN => 'Q',
            Piece::WHITE_KING => 'K',
            Piece::BLACK_PAWN => 'p',
            Piece::BLACK_KNIGHT => 'n',
            Piece::BLACK_BISHOP => 'b',
            Piece::BLACK_ROOK => 'r',
            Piece::BLACK_QUEEN => 'q',
            Piece::BLACK_KING => 'k',
        }
    }
}

/// A piece is determined by its kind and color, its index is unique in 0..12,
/// and its FEN letter reads back to the same piece.
pub proof fn lemma_piece_identity(p: Piece, q: Piece)
    ensures
        (p.spec_kind() == q.spec_kind() && p.spec_color() == q.spec_color()) <==> p == q,
        p.idx() == q.idx() <==> p == q,
        0 <= p.idx() < 12,
{
}

} // verus!
